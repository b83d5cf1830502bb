use deet::node::{is_whitespace, Node};

#[test]
fn node_counts_words_and_characters() {
    assert_eq!(Node::new("hello world").get(), Some((2, 11)));
    assert_eq!(Node::new("").get(), Some((0, 0)));
    assert_eq!(Node::new("   ").get(), Some((0, 3)));
    assert_eq!(Node::new("  leading and trailing  ").get(), Some((3, 24)));
    assert_eq!(Node::new("one").get(), Some((1, 3)));
    assert_eq!(Node::new("tab\tseparated\twords").get(), Some((3, 19)));
}

#[test]
fn node_counts_characters_not_bytes() {
    assert_eq!(Node::new("héllo wörld").get(), Some((2, 11)));
    assert_eq!(Node::new("日本語 テキスト").get(), Some((2, 8)));
    assert_eq!(Node::new("a\u{3000}b\u{a0}c").get(), Some((3, 5)));
}

#[test]
fn node_agrees_with_the_standard_library() {
    for line in ["", " ", "a", "a b", " a  b ", "x\u{85}y", "x\u{2003}y z", "\u{feff}a", "a\u{200b}b", "one,two three"] {
        let words = line.trim().split_whitespace().count();
        let chars = line.chars().count();
        assert_eq!(Node::new(line).get(), Some((words, chars)), "{:?}", line);
    }
}

#[test]
fn is_whitespace_agrees_with_the_standard_library() {
    for code in 0u32..0x11000 {
        if let Some(c) = char::from_u32(code) {
            assert_eq!(is_whitespace(c), c.is_whitespace(), "{:?}", c);
        }
    }
}
