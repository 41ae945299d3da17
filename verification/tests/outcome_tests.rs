use search_bridge::outcome::interpret_output;

#[test]
fn successful_run_parses_its_output() {
    let r = interpret_output(true, "/a:1:2:hit\n/b:3:4:hit\n", "", "hit", false).unwrap();
    assert_eq!(r.len(), 2);
    assert_eq!(r[0].file, "/a");
    assert_eq!(r[1].file, "/b");
}

#[test]
fn successful_run_may_have_empty_output() {
    let r = interpret_output(true, "", "", "hit", false).unwrap();
    assert!(r.is_empty());
}

#[test]
fn failing_exit_with_silent_error_stream_is_no_matches() {
    let r = interpret_output(false, "", "", "hit", false);
    assert_eq!(r, Ok(Vec::new()));
}

#[test]
fn failing_exit_with_error_text_surfaces_it_verbatim() {
    let r = interpret_output(false, "", "E", "hit", false);
    assert_eq!(r, Err(String::from("E")));
    let r = interpret_output(false, "/a:1:2:hit", "regex parse error", "hit", false);
    assert_eq!(r, Err(String::from("regex parse error")));
}

#[test]
fn successful_exit_ignores_the_error_stream() {
    let r = interpret_output(true, "/a:1:2:hit", "some warning", "hit", false).unwrap();
    assert_eq!(r.len(), 1);
}

#[test]
fn identical_runs_decide_identically() {
    let first = interpret_output(true, "/a:1:2:hit\nnoise\n/b:3:4:hit", "", "hit", false);
    let second = interpret_output(true, "/a:1:2:hit\nnoise\n/b:3:4:hit", "", "hit", false);
    assert_eq!(first, second);
}
