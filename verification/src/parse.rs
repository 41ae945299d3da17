//! Decoding the external tool's captured output into result records.
//!
//! Every match arrives as one line, `path:line:column:content`. On platforms
//! with drive-letter paths the path itself holds one colon, so a line is cut
//! into five segments there and four elsewhere; a line with the wrong number
//! of segments is skipped. The record list is capped.

use vstd::prelude::*;

use crate::numbers::{parse_u32, spec_parse_u32};
use crate::record::{SearchResult, SearchResultView};
use crate::split::{
    find_in_range, spec_find, spec_lines, spec_splitn, spec_strip_cr, splitn_range,
};
use crate::text::str_chars;

verus! {

/// The most records one call will return.
pub const MAX_RESULTS: usize = 10000;

/// How many colon-delimited segments a well-formed line has: five where the
/// path may carry a drive-letter colon, four elsewhere.
pub open spec fn spec_segment_count(drive_letter: bool) -> nat {
    if drive_letter {
        5
    } else {
        4
    }
}

/// What one output line stands for: a record when the line cuts into exactly
/// the expected number of segments, nothing otherwise. With drive-letter
/// splitting the first two segments are rejoined with a colon into the path.
pub open spec fn spec_parse_line(
    line: Seq<char>,
    pattern: Seq<char>,
    drive_letter: bool,
) -> Option<SearchResultView> {
    let n = spec_segment_count(drive_letter);
    let parts = spec_splitn(line, ':', n);
    if parts.len() == n {
        if drive_letter {
            Some(
                SearchResultView {
                    file: parts[0] + seq![':'] + parts[1],
                    line: spec_parse_u32(parts[2]),
                    column: spec_parse_u32(parts[3]),
                    content: parts[4],
                    match_text: pattern,
                },
            )
        } else {
            Some(
                SearchResultView {
                    file: parts[0],
                    line: spec_parse_u32(parts[1]),
                    column: spec_parse_u32(parts[2]),
                    content: parts[3],
                    match_text: pattern,
                },
            )
        }
    } else {
        None
    }
}

/// Decodes the characters of one line, given as the subrange `[start, end)`
/// of `cs`, or reports that the line is malformed.
fn parse_line_range(
    cs: &Vec<char>,
    start: usize,
    end: usize,
    pattern: &str,
    drive_letter: bool,
) -> (r: Option<SearchResult>)
    requires
        start <= end <= cs@.len(),
    ensures
        r.deep_view() == spec_parse_line(
            cs@.subrange(start as int, end as int),
            pattern@,
            drive_letter,
        ),
{
    let n: usize = if drive_letter {
        5
    } else {
        4
    };
    let parts = splitn_range(cs, ':', start, end, n);
    if parts.len() != n {
        return None;
    }
    let result = if drive_letter {
        let file = parts[0].clone().concat(":").concat(parts[1].as_str());
        proof {
            reveal_strlit(":");
            assert(file@ =~= parts.deep_view()[0] + seq![':'] + parts.deep_view()[1]);
        }
        SearchResult {
            file,
            line: parse_u32(parts[2].as_str()),
            column: parse_u32(parts[3].as_str()),
            content: parts[4].clone(),
            match_text: String::from_str(pattern),
        }
    } else {
        SearchResult {
            file: parts[0].clone(),
            line: parse_u32(parts[1].as_str()),
            column: parse_u32(parts[2].as_str()),
            content: parts[3].clone(),
            match_text: String::from_str(pattern),
        }
    };
    Some(result)
}

/// Decodes one output line, or reports that it is malformed.
pub fn parse_line(line: &str, pattern: &str, drive_letter: bool) -> (r: Option<SearchResult>)
    ensures
        r.deep_view() == spec_parse_line(line@, pattern@, drive_letter),
{
    let cs = str_chars(line);
    let len = cs.len();
    let r = parse_line_range(&cs, 0, len, pattern, drive_letter);
    proof {
        assert(cs@.subrange(0, cs@.len() as int) =~= line@);
    }
    r
}

/// The records of a sequence of lines, in order, malformed lines skipped,
/// without any cap.
pub open spec fn spec_parse_lines(
    lines: Seq<Seq<char>>,
    pattern: Seq<char>,
    drive_letter: bool,
) -> Seq<SearchResultView>
    decreases lines.len(),
{
    if lines.len() == 0 {
        Seq::empty()
    } else {
        let rest = spec_parse_lines(lines.skip(1), pattern, drive_letter);
        match spec_parse_line(lines[0], pattern, drive_letter) {
            Some(r) => seq![r] + rest,
            None => rest,
        }
    }
}

/// What the whole captured output stands for: the records of its lines, in
/// the order emitted, cut off after [`MAX_RESULTS`] records.
pub open spec fn spec_results(
    stdout: Seq<char>,
    pattern: Seq<char>,
    drive_letter: bool,
) -> Seq<SearchResultView> {
    let all = spec_parse_lines(spec_lines(stdout), pattern, drive_letter);
    if all.len() > MAX_RESULTS {
        all.take(MAX_RESULTS as int)
    } else {
        all
    }
}

/// A line that does not cut into the expected number of segments for the
/// active splitting mode produces no record; it is skipped, not an error.
pub proof fn lemma_malformed_line_skipped(line: Seq<char>, pattern: Seq<char>, drive_letter: bool)
    requires
        spec_splitn(line, ':', spec_segment_count(drive_letter)).len() != spec_segment_count(
            drive_letter,
        ),
    ensures
        spec_parse_line(line, pattern, drive_letter) is None,
{
}

/// Every record of a decoded line sequence carries the pattern as its
/// `match_text`.
proof fn lemma_parse_lines_match_text(lines: Seq<Seq<char>>, pattern: Seq<char>, drive_letter: bool)
    ensures
        forall|i: int|
            0 <= i < spec_parse_lines(lines, pattern, drive_letter).len() ==> #[trigger] spec_parse_lines(
                lines,
                pattern,
                drive_letter,
            )[i].match_text == pattern,
    decreases lines.len(),
{
    if lines.len() > 0 {
        lemma_parse_lines_match_text(lines.skip(1), pattern, drive_letter);
        let whole = spec_parse_lines(lines, pattern, drive_letter);
        let rest = spec_parse_lines(lines.skip(1), pattern, drive_letter);
        assert forall|i: int| 0 <= i < whole.len() implies #[trigger] whole[i].match_text
            == pattern by {
            match spec_parse_line(lines[0], pattern, drive_letter) {
                Some(r) => {
                    assert(whole == seq![r] + rest);
                    if i == 0 {
                        assert(whole[0] == r);
                    } else {
                        assert(whole[i] == rest[i - 1]);
                    }
                },
                None => {
                    assert(whole[i] == rest[i]);
                },
            }
        }
    }
}

/// Every produced record's `match_text` equals the request's pattern,
/// whatever the output and whichever splitting mode is active.
pub proof fn lemma_results_match_pattern(
    stdout: Seq<char>,
    pattern: Seq<char>,
    drive_letter: bool,
    i: int,
)
    requires
        0 <= i < spec_results(stdout, pattern, drive_letter).len(),
    ensures
        spec_results(stdout, pattern, drive_letter)[i].match_text == pattern,
{
    lemma_parse_lines_match_text(spec_lines(stdout), pattern, drive_letter);
}

/// The record list never exceeds the cap.
pub proof fn lemma_results_capped(stdout: Seq<char>, pattern: Seq<char>, drive_letter: bool)
    ensures
        spec_results(stdout, pattern, drive_letter).len() <= MAX_RESULTS,
{
}

/// Decodes the captured output into at most [`MAX_RESULTS`] records,
/// skipping malformed lines; decoding stops once the cap is reached.
pub fn parse_results(stdout: &str, pattern: &str, drive_letter: bool) -> (results: Vec<
    SearchResult,
>)
    ensures
        results.deep_view() == spec_results(stdout@, pattern@, drive_letter),
        results@.len() <= MAX_RESULTS,
{
    let cs = str_chars(stdout);
    let len = cs.len();
    let mut results: Vec<SearchResult> = Vec::new();
    let mut pos: usize = 0;
    proof {
        assert(stdout@.skip(0) =~= stdout@);
        assert(results.deep_view() =~= Seq::<SearchResultView>::empty());
    }
    while pos < len && results.len() < MAX_RESULTS
        invariant
            0 <= pos <= len,
            len == stdout@.len(),
            cs@ == stdout@,
            results@.len() == results.deep_view().len(),
            results@.len() <= MAX_RESULTS,
            spec_parse_lines(spec_lines(stdout@), pattern@, drive_letter) == results.deep_view()
                + spec_parse_lines(spec_lines(stdout@.skip(pos as int)), pattern@, drive_letter),
        decreases len - pos,
    {
        let ghost t = stdout@.skip(pos as int);
        let j = find_in_range(&cs, '\n', pos, len);
        proof {
            assert(cs@.subrange(pos as int, len as int) =~= t);
            assert(spec_find(t, '\n', 0) == j - pos);
        }
        let line_end = if j > pos && cs[j - 1] == '\r' {
            j - 1
        } else {
            j
        };
        let ghost line = cs@.subrange(pos as int, line_end as int);
        proof {
            assert(t.len() == len - pos);
            if j < len {
                assert(t.take(j - pos) =~= stdout@.subrange(pos as int, j as int));
                assert(spec_lines(t) == seq![spec_strip_cr(t.take(j - pos))] + spec_lines(
                    t.skip(j - pos + 1),
                ));
            } else {
                assert(t.take(j - pos) =~= t);
                assert(spec_lines(t) =~= seq![spec_strip_cr(t)]);
            }
            let cut = t.take(j - pos);
            if j > pos && stdout@[j - 1] == '\r' {
                assert(cut.last() == stdout@[j - 1]);
                assert(spec_strip_cr(cut) =~= cut.drop_last());
                assert(line =~= cut.drop_last());
            } else {
                if cut.len() > 0 {
                    assert(cut.last() == stdout@[j - 1]);
                }
                assert(line =~= cut);
            }
            assert(line == spec_strip_cr(t.take(j - pos)));
        }
        let ghost before = results.deep_view();
        match parse_line_range(&cs, pos, line_end, pattern, drive_letter) {
            Some(r) => {
                results.push(r);
                proof {
                    assert(results.deep_view() =~= before + seq![r@]);
                }
            },
            None => {},
        }
        proof {
            let rest_lines = if j < len {
                spec_lines(t.skip(j - pos + 1))
            } else {
                Seq::<Seq<char>>::empty()
            };
            assert(spec_lines(t) == seq![line] + rest_lines);
            assert((seq![line] + rest_lines)[0] == line);
            assert((seq![line] + rest_lines).skip(1) =~= rest_lines);
            if j < len {
                assert(t.skip(j - pos + 1) =~= stdout@.skip(j + 1));
            }
        }
        pos = if j < len {
            j + 1
        } else {
            len
        };
    }
    proof {
        let all = spec_parse_lines(spec_lines(stdout@), pattern@, drive_letter);
        if pos >= len {
            assert(stdout@.skip(pos as int) =~= Seq::<char>::empty());
            assert(spec_lines(Seq::<char>::empty()) == Seq::<Seq<char>>::empty());
            assert(all =~= results.deep_view());
        } else {
            assert(results@.len() == MAX_RESULTS);
            assert(all.take(MAX_RESULTS as int) =~= results.deep_view());
        }
        assert(results.deep_view() == spec_results(stdout@, pattern@, drive_letter));
    }
    results
}

} // verus!
