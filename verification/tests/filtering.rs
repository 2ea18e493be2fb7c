use headlines::filter::filter_headlines;
use headlines::text::contains_str;
use headlines::text::str_eq;
use headlines::text::trim_str;
use headlines::text::word_count_str;

fn filter_strs(cs: &[&str]) -> Vec<String> {
    let owned: Vec<String> = cs.iter().map(|c| c.to_string()).collect();
    filter_headlines(&owned)
}

#[test]
fn singleton_kept_iff_multiword_and_not_denylisted() {
    // one word: dropped
    assert_eq!(filter_strs(&["Ok"]), Vec::<String>::new());
    // empty and whitespace-only: dropped
    assert_eq!(filter_strs(&[""]), Vec::<String>::new());
    assert_eq!(filter_strs(&["   \t  "]), Vec::<String>::new());
    // denylist entries: dropped, also when surrounded by whitespace
    assert_eq!(filter_strs(&["Spelling Bee"]), Vec::<String>::new());
    assert_eq!(filter_strs(&["  Spelling Bee  "]), Vec::<String>::new());
    assert_eq!(filter_strs(&["Connections Companion"]), Vec::<String>::new());
    assert_eq!(filter_strs(&["The Crossword"]), Vec::<String>::new());
    assert_eq!(filter_strs(&["Read full edition"]), Vec::<String>::new());
    // denylist matching is exact, not substring
    assert_eq!(
        filter_strs(&["Spelling Bee Extra"]),
        vec!["Spelling Bee Extra".to_string()]
    );
    // an ordinary multi-word candidate survives, trimmed
    assert_eq!(
        filter_strs(&["  Big Win For Team \n"]),
        vec!["Big Win For Team".to_string()]
    );
}

#[test]
fn filter_preserves_relative_order() {
    let out = filter_strs(&[
        "First Big Story",
        "x",
        "Second Big Story",
        "The Crossword",
        "Third One Here",
    ]);
    assert_eq!(
        out,
        vec![
            "First Big Story".to_string(),
            "Second Big Story".to_string(),
            "Third One Here".to_string(),
        ]
    );
}

#[test]
fn filter_is_idempotent() {
    let once = filter_strs(&[
        "  Leading Space Story",
        "Solo",
        "Read full edition",
        "Another Fine Story  ",
    ]);
    let twice = filter_headlines(&once);
    assert_eq!(twice, once);
}

#[test]
fn filter_keeps_duplicates() {
    let out = filter_strs(&["Same Old Story", "Same Old Story"]);
    assert_eq!(
        out,
        vec!["Same Old Story".to_string(), "Same Old Story".to_string()]
    );
}

#[test]
fn trim_matches_std_trim() {
    assert_eq!(trim_str("  a b\t "), "a b");
    assert_eq!(trim_str(""), "");
    assert_eq!(trim_str(" \n\t "), "");
    assert_eq!(trim_str("already trimmed"), "already trimmed");
    assert_eq!(trim_str("\u{00A0}nbsp padded\u{00A0}"), "nbsp padded");
}

#[test]
fn word_count_matches_split_whitespace() {
    assert_eq!(word_count_str(""), 0);
    assert_eq!(word_count_str("   "), 0);
    assert_eq!(word_count_str("one"), 1);
    assert_eq!(word_count_str("two words"), 2);
    assert_eq!(word_count_str("  spread \t out   words  "), 3);
    assert_eq!(
        word_count_str("a b c"),
        "a b c".split_whitespace().count()
    );
}

#[test]
fn contains_and_equality_helpers() {
    assert!(contains_str("https://www.nytimes.com", "nytimes.com"));
    assert!(!contains_str("https://www.nytimes.org", "nytimes.com"));
    assert!(contains_str("abc", ""));
    assert!(!contains_str("ab", "abc"));
    assert!(str_eq("same", "same"));
    assert!(!str_eq("same", "Same"));
    assert!(!str_eq("same", "same "));
}
