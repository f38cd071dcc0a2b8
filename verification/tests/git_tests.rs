use ggo::error::GgoError;
use ggo::git::{
    char_is_whitespace, parse_branch_line, parse_branch_lines, parse_current_branch, parse_output,
    trim,
};

#[test]
fn branch_lines_lose_mark_and_whitespace() {
    assert_eq!(parse_branch_line("  main"), "main");
    assert_eq!(parse_branch_line("* feature/auth"), "feature/auth");
    assert_eq!(parse_branch_line("  * develop  \r"), "develop");
    assert_eq!(parse_branch_line("**x"), "x");
    assert_eq!(parse_branch_line("* *x"), "*x");
    assert_eq!(parse_branch_line("a b"), "a b");
    assert_eq!(parse_branch_line("a*"), "a*");
    assert_eq!(parse_branch_line(" \t "), "");
    assert_eq!(parse_branch_line(""), "");
    assert_eq!(parse_branch_line("*"), "");
    assert_eq!(parse_branch_line("\u{2003}* caf\u{e9}\u{a0}"), "caf\u{e9}");
}

#[test]
fn branch_lists_keep_their_order() {
    let lines: Vec<String> =
        ["  develop", "* main", "", "  feature/x "].iter().map(|l| l.to_string()).collect();
    assert_eq!(parse_branch_lines(&lines), vec!["develop", "main", "", "feature/x"]);
    assert!(parse_branch_lines(&[]).is_empty());
}

#[test]
fn trimming_matches_the_standard_library() {
    for sample in ["", " ", "a", " a", "a ", "\n a b \t", "\u{3000}x\u{3000}", "  *  "] {
        let chars: Vec<char> = sample.chars().collect();
        let expected: Vec<char> = sample.trim().chars().collect();
        assert_eq!(trim(&chars), expected, "for {:?}", sample);
    }
    assert_eq!(parse_output("/home/me/repo\n"), "/home/me/repo");
}

#[test]
fn current_branch_needs_a_name() {
    assert_eq!(parse_current_branch("main\n").unwrap(), "main");
    match parse_current_branch(" \n") {
        Err(GgoError::Other(words)) => assert_eq!(words, "Not on a branch (detached HEAD)"),
        other => panic!("unexpected {:?}", other),
    }
    assert!(parse_current_branch("").is_err());
}

#[test]
fn whitespace_is_what_the_standard_library_takes_for_it() {
    let mut count = 0;
    for code in 0..=0x10ffff_u32 {
        if let Some(c) = char::from_u32(code) {
            assert_eq!(char_is_whitespace(c), c.is_whitespace(), "for U+{:04X}", code);
            if c.is_whitespace() {
                count += 1;
            }
        }
    }
    assert_eq!(count, 25);
}
