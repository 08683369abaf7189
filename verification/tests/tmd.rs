use kitu::error::KituError;
use kitu::tmd::TmdDocument;

#[test]
fn parses_key_value_pairs() {
    let doc = TmdDocument::parse("hp: 10\nname: hero").unwrap();
    assert_eq!(doc.len(), 2);
    assert_eq!(doc.get("hp").unwrap().value, "10");
}

#[test]
fn parsing_invalid_line_returns_error() {
    let result = TmdDocument::parse("invalid line");
    assert!(matches!(result, Err(KituError::InvalidInput(_))));
}

#[test]
fn entries_are_found_by_key() {
    let doc = TmdDocument::parse("hp: 10\nname: hero").unwrap();
    let hp = doc.get("hp").unwrap();
    assert_eq!(hp.key, "hp");
    assert_eq!(hp.value, "10");
    assert_eq!(doc.get("name").unwrap().value, "hero");
    assert_eq!(doc.get("mp"), None);
    assert_eq!(doc.get("HP"), None);
    assert!(!doc.is_empty());
}

#[test]
fn blank_lines_and_comments_are_skipped() {
    let doc = TmdDocument::parse("# stats\n\n  # more\nhp: 10\r\n   \n#hp: 11").unwrap();
    assert_eq!(doc.len(), 1);
    assert_eq!(doc.get("hp").unwrap().value, "10");
    let empty = TmdDocument::parse("").unwrap();
    assert!(empty.is_empty());
    assert_eq!(empty.len(), 0);
    assert!(TmdDocument::parse("#only a comment").unwrap().is_empty());
    assert!(TmdDocument::default().is_empty());
}

#[test]
fn key_ends_at_the_first_colon() {
    let doc = TmdDocument::parse("url: http://x:80\n  spaced key  :  v  \n:nokey\nnoval:").unwrap();
    assert_eq!(doc.get("url").unwrap().value, "http://x:80");
    assert_eq!(doc.get("spaced key").unwrap().value, "v");
    assert_eq!(doc.get("").unwrap().value, "nokey");
    assert_eq!(doc.get("noval").unwrap().value, "");
    assert_eq!(doc.len(), 4);
}

#[test]
fn a_later_entry_replaces_an_earlier_one() {
    let doc = TmdDocument::parse("hp: 10\nmp: 3\nhp: 12").unwrap();
    assert_eq!(doc.len(), 2);
    assert_eq!(doc.get("hp").unwrap().value, "12");
    assert_eq!(doc.get("mp").unwrap().value, "3");
}

#[test]
fn a_line_without_a_colon_fails_the_document() {
    for bad in ["invalid line", "hp: 10\nbroken\nmp: 3", "a:b\n x #c", "hp 10"] {
        assert!(
            matches!(
                TmdDocument::parse(bad),
                Err(KituError::InvalidInput("expected key: value"))
            ),
            "{bad}"
        );
    }
    let late = TmdDocument::parse("x # a: b").unwrap();
    assert_eq!(late.get("x # a").unwrap().value, "b");
}
