use whitenoise_wallet::error::WalletError;
use whitenoise_wallet::seed::{
    generate_phrase, get_or_create_seed, phrase_from_entropy, seed_from_phrase,
};
use whitenoise_wallet::text::trim_white_space;

const TWELVE_WORDS: &str =
    "abandon abandon abandon abandon abandon abandon abandon abandon abandon abandon abandon about";

fn hex(bytes: &[u8]) -> String {
    bytes.iter().map(|b| format!("{b:02x}")).collect()
}

#[test]
fn known_phrase_gives_known_seed() {
    let seed = seed_from_phrase(TWELVE_WORDS).unwrap();
    assert_eq!(
        hex(&seed),
        "5eb00bbddcf069084889a8ab9155568165f5c453ccb85e70811aaed6f6da5fc1"
    );
}

#[test]
fn surrounding_whitespace_is_trimmed() {
    let padded = format!("  \n{TWELVE_WORDS}\n\t ");
    assert_eq!(seed_from_phrase(&padded), seed_from_phrase(TWELVE_WORDS));
}

#[test]
fn malformed_phrase_is_invalid_mnemonic() {
    assert_eq!(
        seed_from_phrase("not a recovery phrase at all"),
        Err(WalletError::InvalidMnemonic)
    );
    assert_eq!(seed_from_phrase(""), Err(WalletError::InvalidMnemonic));
    let bad_checksum = TWELVE_WORDS.replace("about", "abandon");
    assert_eq!(seed_from_phrase(&bad_checksum), Err(WalletError::InvalidMnemonic));
}

#[test]
fn zero_entropy_gives_the_standard_phrase() {
    let fresh = phrase_from_entropy(&[0u8; 32]);
    let expected = format!("{}art", "abandon ".repeat(23));
    assert_eq!(fresh.phrase, expected);
    assert_eq!(seed_from_phrase(&fresh.phrase), Ok(fresh.seed));
}

#[test]
fn generated_phrase_round_trips() {
    let fresh = generate_phrase();
    assert_eq!(fresh.phrase.split(' ').count(), 24);
    let reread = format!("{}\n", fresh.phrase);
    assert_eq!(seed_from_phrase(&reread), Ok(fresh.seed));
}

#[test]
fn get_or_create_is_idempotent() {
    let first = get_or_create_seed(None).unwrap();
    let stored = first.phrase_to_store.clone().expect("a new phrase to store");
    let second = get_or_create_seed(Some(&stored)).unwrap();
    assert_eq!(second.seed, first.seed);
    assert!(second.phrase_to_store.is_none());
    let third = get_or_create_seed(Some(&stored)).unwrap();
    assert_eq!(third.seed, second.seed);
}

#[test]
fn stored_invalid_phrase_is_reported() {
    assert_eq!(
        get_or_create_seed(Some("garbage")).map(|s| s.seed),
        Err(WalletError::InvalidMnemonic)
    );
}

#[test]
fn two_generated_phrases_differ() {
    let a = get_or_create_seed(None).unwrap();
    let b = get_or_create_seed(None).unwrap();
    assert_ne!(a.phrase_to_store, b.phrase_to_store);
}

#[test]
fn trimming_removes_only_outer_whitespace() {
    assert_eq!(trim_white_space("  a b \u{3000}\n"), "a b");
    assert_eq!(trim_white_space(" \t "), "");
    assert_eq!(trim_white_space("x"), "x");
    assert_eq!(trim_white_space(""), "");
}
