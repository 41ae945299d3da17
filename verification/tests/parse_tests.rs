use search_bridge::parse::{parse_line, parse_results, MAX_RESULTS};

#[test]
fn drive_letter_line_rejoins_the_path() {
    let r = parse_line("C:\\foo\\bar.txt:12:5:hello world", "hello", true).unwrap();
    assert_eq!(r.file, "C:\\foo\\bar.txt");
    assert_eq!(r.line, 12);
    assert_eq!(r.column, 5);
    assert_eq!(r.content, "hello world");
    assert_eq!(r.match_text, "hello");
}

#[test]
fn plain_line_maps_segments_directly() {
    let r = parse_line("/foo/bar.txt:12:5:hello world", "hello", false).unwrap();
    assert_eq!(r.file, "/foo/bar.txt");
    assert_eq!(r.line, 12);
    assert_eq!(r.column, 5);
    assert_eq!(r.content, "hello world");
    assert_eq!(r.match_text, "hello");
}

#[test]
fn too_few_segments_yield_no_record() {
    assert_eq!(parse_line("/foo/bar.txt:12:5", "x", false), None);
    assert_eq!(parse_line("", "x", false), None);
    assert_eq!(parse_line("no colons here", "x", false), None);
    // Four segments are too few when drive-letter splitting expects five.
    assert_eq!(parse_line("/foo/bar.txt:12:5:hello", "x", true), None);
}

#[test]
fn extra_colons_stay_inside_the_content_segment() {
    let r = parse_line("/etc/fstab:3:1:UUID=abc:/:ext4", "ext4", false).unwrap();
    assert_eq!(r.file, "/etc/fstab");
    assert_eq!(r.content, "UUID=abc:/:ext4");
}

#[test]
fn drive_letter_content_keeps_extra_colons() {
    let r = parse_line("D:\\notes\\log.txt:7:3:time: 12:30", "time", true).unwrap();
    assert_eq!(r.file, "D:\\notes\\log.txt");
    assert_eq!(r.line, 7);
    assert_eq!(r.column, 3);
    assert_eq!(r.content, "time: 12:30");
}

#[test]
fn unreadable_numbers_become_zero() {
    let r = parse_line("/a:twelve:-5:text", "x", false).unwrap();
    assert_eq!(r.line, 0);
    assert_eq!(r.column, 0);
}

#[test]
fn overflowing_line_number_becomes_zero() {
    let r = parse_line("/a:4294967296:4294967295:text", "x", false).unwrap();
    assert_eq!(r.line, 0);
    assert_eq!(r.column, u32::MAX);
}

#[test]
fn plus_signed_number_is_read() {
    let r = parse_line("/a:+12:+0:text", "x", false).unwrap();
    assert_eq!(r.line, 12);
    assert_eq!(r.column, 0);
}

#[test]
fn empty_output_yields_no_records() {
    assert!(parse_results("", "x", false).is_empty());
}

#[test]
fn records_keep_the_order_emitted() {
    let out = "/a:1:2:first\n/b:3:4:second\n/c:5:6:third\n";
    let rs = parse_results(out, "x", false);
    assert_eq!(rs.len(), 3);
    assert_eq!(rs[0].file, "/a");
    assert_eq!(rs[1].file, "/b");
    assert_eq!(rs[2].file, "/c");
    assert_eq!(rs[0].content, "first");
    assert_eq!(rs[2].content, "third");
}

#[test]
fn malformed_lines_are_skipped_silently() {
    let out = "garbage\n/a:1:2:ok\nalso:bad\n/b:3:4:fine";
    let rs = parse_results(out, "x", false);
    assert_eq!(rs.len(), 2);
    assert_eq!(rs[0].file, "/a");
    assert_eq!(rs[1].file, "/b");
}

#[test]
fn carriage_returns_are_stripped_from_line_ends() {
    let out = "/a:1:2:one\r\n/b:3:4:two\r\n";
    let rs = parse_results(out, "x", false);
    assert_eq!(rs.len(), 2);
    assert_eq!(rs[0].content, "one");
    assert_eq!(rs[1].content, "two");
}

#[test]
fn every_match_text_echoes_the_pattern() {
    let out = "/a:1:2:alpha\n/b:3:4:beta\nnoise\n/c:5:6:gamma";
    for r in parse_results(out, "pat", false) {
        assert_eq!(r.match_text, "pat");
    }
}

#[test]
fn result_list_is_capped() {
    let out = "/file:1:1:line\n".repeat(MAX_RESULTS + 50);
    let rs = parse_results(&out, "x", false);
    assert_eq!(rs.len(), MAX_RESULTS);
}

#[test]
fn skipped_lines_do_not_count_toward_the_cap() {
    let mut out = String::new();
    for i in 0..MAX_RESULTS + 7 {
        if i % 2 == 0 {
            out.push_str("malformed\n");
        } else {
            out.push_str("/f:1:1:c\n");
        }
    }
    let rs = parse_results(&out, "x", false);
    assert_eq!(rs.len(), (MAX_RESULTS + 7) / 2);
}
