use nat_harness::rewrite::{apply_substitution, restore_substitution, PLACEHOLDER};
use nat_harness::text::{contains_text, count_matches, replace_all};

#[test]
fn rewrite_round_trip() {
    let doc = "cmd --peer=BOOTSTRAP_PEER_ID";
    let value = "12D3KooWBeY3FuPXggnUu8f56TQde1xfvFpdsLV5coXptn5ztXYZ";
    let applied = apply_substitution(doc, PLACEHOLDER, value);
    assert_eq!(applied, format!("cmd --peer={}", value));
    let restored = restore_substitution(&applied, value, PLACEHOLDER);
    assert_eq!(restored, doc);
}

#[test]
fn rewrite_replaces_every_occurrence() {
    let doc = "a: BOOTSTRAP_PEER_ID\nb: BOOTSTRAP_PEER_ID\n";
    let applied = apply_substitution(doc, PLACEHOLDER, "12D3X");
    assert_eq!(applied, "a: 12D3X\nb: 12D3X\n");
    assert_eq!(restore_substitution(&applied, "12D3X", PLACEHOLDER), doc);
}

#[test]
fn rewrite_without_placeholder_is_identity() {
    let doc = "services:\n  peer: {}\n";
    assert_eq!(apply_substitution(doc, PLACEHOLDER, "v"), doc);
}

#[test]
fn overlapping_value_breaks_round_trip() {
    // the value overlaps the text before the placeholder
    let applied = apply_substitution("aX", "X", "aa");
    assert_eq!(applied, "aaa");
    assert_eq!(restore_substitution(&applied, "aa", "X"), "Xa");
}

#[test]
fn replace_all_agrees_with_std() {
    let cases = [
        ("abc", "", "x"),
        ("", "", "x"),
        ("", "a", "x"),
        ("aaaa", "aa", "b"),
        ("aaa", "aa", "b"),
        ("héllo wörld", "ö", "oe"),
        ("abcabc", "bc", ""),
        ("xyz", "xyzw", "q"),
    ];
    for (s, from, to) in cases {
        assert_eq!(replace_all(s, from, to), s.replace(from, to), "{:?}", (s, from, to));
    }
}

#[test]
fn count_matches_agrees_with_std() {
    let cases = [("aaaa", "aa"), ("abc", ""), ("", ""), ("DCUtR dcutr DCUtR", "DCUtR"), ("ababa", "aba")];
    for (s, p) in cases {
        assert_eq!(count_matches(s, p), s.matches(p).count(), "{:?}", (s, p));
    }
}

#[test]
fn contains_text_cases() {
    assert!(contains_text("hello", ""));
    assert!(contains_text("", ""));
    assert!(!contains_text("", "a"));
    assert!(contains_text("hello world", "o w"));
    assert!(contains_text("abc", "abc"));
    assert!(!contains_text("abc", "abcd"));
    assert!(!contains_text("abc", "ac"));
}
