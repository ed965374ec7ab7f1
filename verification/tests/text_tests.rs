use task_stack::text::{contains, nonblank_lines_of, same_text, trim};

#[test]
fn trim_strips_both_ends() {
    assert_eq!(trim("  a b \n"), "a b");
    assert_eq!(trim("\u{3000}x\u{A0}\r"), "x");
    assert_eq!(trim("   \t\n"), "");
    assert_eq!(trim(""), "");
    assert_eq!(trim("plain"), "plain");
}

#[test]
fn trim_agrees_with_std() {
    for s in ["  x  ", "\u{2003}y\u{2029}", "\u{200B}z\u{200B}", "\u{85}q", "a\u{1680}"] {
        assert_eq!(trim(s), s.trim());
    }
}

#[test]
fn contains_finds_substrings() {
    assert!(contains("Error: server is disabled now", "server is disabled"));
    assert!(contains("abc", ""));
    assert!(contains("abc", "abc"));
    assert!(!contains("ab", "abc"));
    assert!(!contains("server is disable", "server is disabled"));
}

#[test]
fn nonblank_lines_split_trim_and_drop_blanks() {
    assert_eq!(nonblank_lines_of("ws1\n  ws2 \r\n\n\nws3"), vec!["ws1", "ws2", "ws3"]);
    assert_eq!(nonblank_lines_of(""), Vec::<String>::new());
    assert_eq!(nonblank_lines_of("a\n"), vec!["a"]);
    assert_eq!(nonblank_lines_of(" \n \r\n"), Vec::<String>::new());
}

#[test]
fn nonblank_lines_are_trimmed_example() {
    for line in nonblank_lines_of("  1 \n\t2\t\n\n 3") {
        assert!(!line.is_empty());
        assert_eq!(line.trim(), line);
    }
}

#[test]
fn same_text_compares_characters() {
    assert!(same_text("done", "done"));
    assert!(!same_text("done", "Done"));
    assert!(!same_text("done", "don"));
}
