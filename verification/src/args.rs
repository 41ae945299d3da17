//! Building the external tool's argument list from a search request.

use vstd::prelude::*;

use crate::numbers::{format_u32, spec_u32_string};

verus! {

/// One search call's inputs: where to look, what to look for, and the
/// independent option toggles. A `max_depth` of `0` imposes no depth limit.
#[derive(Debug, Clone)]
pub struct SearchRequest {
    pub root_path: String,
    pub pattern: String,
    pub case_insensitive: bool,
    pub whole_word: bool,
    pub regex: bool,
    pub ignore_hidden: bool,
    pub max_depth: u32,
}

/// The mathematical shape of a [`SearchRequest`]: its strings as character
/// sequences.
pub ghost struct SearchRequestView {
    pub root_path: Seq<char>,
    pub pattern: Seq<char>,
    pub case_insensitive: bool,
    pub whole_word: bool,
    pub regex: bool,
    pub ignore_hidden: bool,
    pub max_depth: u32,
}

impl View for SearchRequest {
    type V = SearchRequestView;

    open spec fn view(&self) -> SearchRequestView {
        SearchRequestView {
            root_path: self.root_path@,
            pattern: self.pattern@,
            case_insensitive: self.case_insensitive,
            whole_word: self.whole_word,
            regex: self.regex,
            ignore_hidden: self.ignore_hidden,
            max_depth: self.max_depth,
        }
    }
}

/// The argument list a request maps to, in the fixed order: the two
/// positional arguments, one flag per enabled toggle, the depth flag when a
/// limit is set, and always the per-match output format flag.
pub open spec fn spec_args(req: SearchRequestView) -> Seq<Seq<char>> {
    seq![req.pattern, req.root_path] + (if req.case_insensitive {
        seq!["-i"@]
    } else {
        Seq::<Seq<char>>::empty()
    }) + (if req.whole_word {
        seq!["-w"@]
    } else {
        Seq::<Seq<char>>::empty()
    }) + (if req.regex {
        seq!["-E"@]
    } else {
        Seq::<Seq<char>>::empty()
    }) + (if req.ignore_hidden {
        seq!["--hidden"@]
    } else {
        Seq::<Seq<char>>::empty()
    }) + (if req.max_depth > 0 {
        seq!["--max-depth="@ + spec_u32_string(req.max_depth as int)]
    } else {
        Seq::<Seq<char>>::empty()
    }) + seq!["--vimgrep"@]
}

/// Builds the command-line tokens for a request, in the fixed order.
pub fn build_args(req: &SearchRequest) -> (args: Vec<String>)
    ensures
        args.deep_view() == spec_args(req@),
{
    let mut args: Vec<String> = Vec::new();
    args.push(req.pattern.clone());
    args.push(req.root_path.clone());
    if req.case_insensitive {
        args.push(String::from_str("-i"));
    }
    if req.whole_word {
        args.push(String::from_str("-w"));
    }
    if req.regex {
        args.push(String::from_str("-E"));
    }
    if req.ignore_hidden {
        args.push(String::from_str("--hidden"));
    }
    if req.max_depth > 0 {
        let depth = format_u32(req.max_depth);
        args.push(String::from_str("--max-depth=").concat(depth.as_str()));
    }
    args.push(String::from_str("--vimgrep"));
    proof {
        assert(args.deep_view() =~~= spec_args(req@));
    }
    args
}

/// With every toggle off and no depth limit, the argument list is exactly
/// the pattern, the root path, and the output format flag.
pub proof fn lemma_minimal_args(req: SearchRequestView)
    requires
        !req.case_insensitive,
        !req.whole_word,
        !req.regex,
        !req.ignore_hidden,
        req.max_depth == 0,
    ensures
        spec_args(req) == seq![req.pattern, req.root_path, "--vimgrep"@],
{
    assert(spec_args(req) =~= seq![req.pattern, req.root_path, "--vimgrep"@]);
}

/// Whenever a depth limit is set, the argument list carries the depth flag
/// with that limit written in decimal.
pub proof fn lemma_depth_flag(req: SearchRequestView)
    requires
        req.max_depth > 0,
    ensures
        spec_args(req).contains("--max-depth="@ + spec_u32_string(req.max_depth as int)),
{
    let flag = "--max-depth="@ + spec_u32_string(req.max_depth as int);
    let args = spec_args(req);
    let idx = 2 + (if req.case_insensitive {
        1int
    } else {
        0int
    }) + (if req.whole_word {
        1int
    } else {
        0int
    }) + (if req.regex {
        1int
    } else {
        0int
    }) + (if req.ignore_hidden {
        1int
    } else {
        0int
    });
    assert(0 <= idx < args.len() && args[idx] == flag);
}

} // verus!
