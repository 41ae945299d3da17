use search_bridge::args::{build_args, SearchRequest};

fn request(
    case_insensitive: bool,
    whole_word: bool,
    regex: bool,
    ignore_hidden: bool,
    max_depth: u32,
) -> SearchRequest {
    SearchRequest {
        root_path: String::from("/srv/data"),
        pattern: String::from("needle"),
        case_insensitive,
        whole_word,
        regex,
        ignore_hidden,
        max_depth,
    }
}

#[test]
fn minimal_request_has_only_positionals_and_format_flag() {
    let args = build_args(&request(false, false, false, false, 0));
    assert_eq!(args, vec!["needle", "/srv/data", "--vimgrep"]);
}

#[test]
fn depth_limit_five_carries_five_in_its_flag() {
    let args = build_args(&request(false, false, false, false, 5));
    assert!(args.contains(&String::from("--max-depth=5")));
}

#[test]
fn all_toggles_appear_in_fixed_order() {
    let args = build_args(&request(true, true, true, true, 3));
    assert_eq!(
        args,
        vec![
            "needle",
            "/srv/data",
            "-i",
            "-w",
            "-E",
            "--hidden",
            "--max-depth=3",
            "--vimgrep"
        ]
    );
}

#[test]
fn single_toggles_add_exactly_one_flag() {
    assert_eq!(
        build_args(&request(true, false, false, false, 0)),
        vec!["needle", "/srv/data", "-i", "--vimgrep"]
    );
    assert_eq!(
        build_args(&request(false, true, false, false, 0)),
        vec!["needle", "/srv/data", "-w", "--vimgrep"]
    );
    assert_eq!(
        build_args(&request(false, false, true, false, 0)),
        vec!["needle", "/srv/data", "-E", "--vimgrep"]
    );
    assert_eq!(
        build_args(&request(false, false, false, true, 0)),
        vec!["needle", "/srv/data", "--hidden", "--vimgrep"]
    );
}

#[test]
fn largest_depth_limit_is_written_in_full() {
    let args = build_args(&request(false, false, false, false, u32::MAX));
    assert!(args.contains(&String::from("--max-depth=4294967295")));
}
