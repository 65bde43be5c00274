use frontend::scanner::stripper::{strip_comments, StripError};

fn strip(s: &str) -> Result<String, StripError> {
    strip_comments(String::from(s))
}

#[test]
fn nested_block_comment_is_removed() {
    assert_eq!(strip("a/*x/*y*/z*/b").unwrap(), "ab");
}

#[test]
fn text_without_comments_is_unchanged() {
    let text = "program p is begin x := a / b; end program.";
    assert_eq!(strip(text).unwrap(), text);
}

#[test]
fn line_comment_keeps_its_newline() {
    assert_eq!(strip("a // note\nb").unwrap(), "a \nb");
}

#[test]
fn line_comment_at_end_of_input() {
    assert_eq!(strip("x := 1; // done").unwrap(), "x := 1; ");
}

#[test]
fn lone_slash_is_kept_before_other_text() {
    assert_eq!(strip("a/b").unwrap(), "a/b");
}

#[test]
fn unterminated_block_comment_drops_the_rest() {
    assert_eq!(strip("a /* open").unwrap(), "a ");
}

#[test]
fn stripping_twice_changes_nothing() {
    for text in ["a/*x*/b//c\nd", "p / q / r", "/*/**/*/x", "u// v\n// w\nz/"] {
        let once = strip(text).unwrap();
        let twice = strip(&once).unwrap();
        assert_eq!(once, twice);
    }
}

#[test]
fn deepest_nesting_fails() {
    let mut text = String::new();
    for _ in 0..255 {
        text.push_str("/*");
    }
    text.push('*');
    assert!(matches!(strip(&text), Err(StripError::MaxCommentDepth)));
}

#[test]
fn nesting_below_the_limit_is_accepted() {
    let mut text = String::from("a");
    for _ in 0..200 {
        text.push_str("/*");
    }
    for _ in 0..200 {
        text.push_str("*/");
    }
    text.push('b');
    assert_eq!(strip(&text).unwrap(), "ab");
}

#[test]
fn trailing_slash_is_kept() {
    assert_eq!(strip("a/").unwrap(), "a/");
    assert_eq!(strip("/").unwrap(), "/");
}
