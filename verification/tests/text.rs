use tastyworks::text::{chars_of, occurs, same_text, to_ascii_lowercase};

#[test]
fn lowercase_touches_only_ascii_capitals() {
    let s: String = to_ascii_lowercase("Sell To OPEN 1 ÄPPLE").into_iter().collect();
    assert_eq!(s, "sell to open 1 Äpple");
}

#[test]
fn occurs_finds_substrings() {
    let hay = chars_of("removal of option due to expiration");
    assert!(occurs("expiration", &hay));
    assert!(occurs("", &hay));
    assert!(!occurs("exercise", &hay));
    assert!(!occurs("expirations", &hay));
    assert!(!occurs("a longer needle than the haystack itself, by far", &hay));
}

#[test]
fn same_text_compares_characters() {
    assert!(same_text("Trade", "Trade"));
    assert!(!same_text("Trade", "trade"));
    assert!(!same_text("Trade", "Trades"));
    assert!(same_text("", ""));
}
