use sefr::truncate_from_end;

#[test]
fn no_trunc() {
    assert_eq!(truncate_from_end("abcd", 5), "abcd");
    assert_eq!(truncate_from_end("abcd", 4), "abcd");
    assert_eq!(truncate_from_end("", 4), "");
}

#[test]
fn trunc() {
    assert_eq!(truncate_from_end("abcd", 0), "");
    assert_eq!(truncate_from_end("abcd", 1), ".");
    assert_eq!(truncate_from_end("ab", 1), ".");
    assert_eq!(truncate_from_end("abcd", 2), "..");
    assert_eq!(truncate_from_end("abcd", 3), "...");
    assert_eq!(truncate_from_end("abcde", 4), "...e");
    assert_eq!(truncate_from_end("the quick brown", 8), "...brown");
}

#[test]
fn trunc_counts_characters() {
    assert_eq!(truncate_from_end("héllo wörld", 6), "...rld");
    assert_eq!(truncate_from_end("héllo", 5), "héllo");
}

#[test]
fn is_default_compares_with_default_value() {
    assert!(sefr::is_default(&0u32));
    assert!(!sefr::is_default(&7u32));
    assert!(sefr::is_default(&String::new()));
}
