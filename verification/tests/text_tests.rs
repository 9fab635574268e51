use serpens::text::{lines, split_char, strip_wildcard_prefix};

fn strs(v: &[String]) -> Vec<&str> {
    v.iter().map(|s| s.as_str()).collect()
}

#[test]
fn split_char_pieces() {
    assert_eq!(strs(&split_char("a\nb", '\n')), vec!["a", "b"]);
    assert_eq!(strs(&split_char("", '\n')), vec![""]);
    assert_eq!(strs(&split_char("a\n", '\n')), vec!["a", ""]);
    assert_eq!(strs(&split_char("\n", '\n')), vec!["", ""]);
    assert_eq!(strs(&split_char("one", '\n')), vec!["one"]);
}

#[test]
fn split_char_agrees_with_std() {
    for s in ["x.example.com\n*.example.com", "", "\n\n", "a\nb\nc\n", "é\nü"] {
        let ours = split_char(s, '\n');
        let std: Vec<&str> = s.split('\n').collect();
        assert_eq!(strs(&ours), std);
    }
}

#[test]
fn split_then_join_gives_back_the_text() {
    for s in ["a\nb", "", "\n", "a\n\nb\n", "no separator"] {
        assert_eq!(split_char(s, '\n').join("\n"), s);
    }
}

#[test]
fn strip_wildcard_prefix_cases() {
    assert_eq!(strip_wildcard_prefix("*.example.com"), "example.com");
    assert_eq!(strip_wildcard_prefix("example.com"), "example.com");
    assert_eq!(strip_wildcard_prefix("*example.com"), "*example.com");
    assert_eq!(strip_wildcard_prefix("*."), "");
    assert_eq!(strip_wildcard_prefix("*"), "*");
    assert_eq!(strip_wildcard_prefix("*.*.x"), "*.x");
    assert_eq!(strip_wildcard_prefix("a*.b"), "a*.b");
}

#[test]
fn lines_cases() {
    assert_eq!(strs(&lines("a\r\nb\n")), vec!["a", "b"]);
    assert_eq!(strs(&lines("")), Vec::<&str>::new());
    assert_eq!(strs(&lines("a\n\nb")), vec!["a", "", "b"]);
    assert_eq!(strs(&lines("x\r")), vec!["x\r"]);
    assert_eq!(strs(&lines("\n")), vec![""]);
}

#[test]
fn lines_agree_with_std() {
    for s in ["a\r\nb\n", "", "a\n\nb", "x\r", "\n", "\r\n\r\n", "last\r\nline"] {
        let std: Vec<&str> = s.lines().collect();
        assert_eq!(strs(&lines(s)), std);
    }
}
