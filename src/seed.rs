use vstd::prelude::*;

use crate::error::WalletError;
use crate::text::{is_white_space, trim_end, trim_start, trim_white_space, trimmed};

verus! {

#[verifier::external_type_specification]
#[verifier::external_body]
pub struct ExMnemonic(bip39::Mnemonic);

#[verifier::external_type_specification]
#[verifier::external_body]
pub struct ExBip39Error(bip39::Error);

/// The words that a `bip39::Mnemonic` holds, in order.
pub uninterp spec fn mnemonic_words(m: bip39::Mnemonic) -> Seq<Seq<char>>;

/// The words that `Mnemonic::parse_in` reads from a text in English, or `None`
/// where it rejects the text.
pub uninterp spec fn english_phrase_words(s: Seq<char>) -> Option<Seq<Seq<char>>>;

/// The 64 bytes that BIP-39 derives from a phrase text with the empty passphrase.
pub uninterp spec fn bip39_seed(phrase: Seq<char>) -> Seq<u8>;

/// The English words that BIP-39 encodes 32 bytes of entropy as.
pub uninterp spec fn entropy_words(entropy: Seq<u8>) -> Seq<Seq<char>>;

/// The words separated by single spaces.
pub open spec fn join_words(words: Seq<Seq<char>>) -> Seq<char>
    decreases words.len(),
{
    if words.len() == 0 {
        Seq::empty()
    } else if words.len() == 1 {
        words[0]
    } else {
        join_words(words.drop_last()) + seq![' '] + words.last()
    }
}

/// Every word is made of lower-case ASCII letters and is not empty, as the
/// English word list has them.
pub open spec fn lowercase_words(words: Seq<Seq<char>>) -> bool {
    &&& words.len() > 0
    &&& forall|i: int|
        0 <= i < words.len() ==> {
            &&& #[trigger] words[i].len() > 0
            &&& forall|k: int| 0 <= k < words[i].len() ==> 'a' <= #[trigger] words[i][k] <= 'z'
        }
}

/// The first 32 bytes of a derived seed.
pub open spec fn wallet_seed_of(phrase: Seq<char>) -> Seq<u8> {
    bip39_seed(phrase).subrange(0, 32)
}

/// The wallet seed that a stored phrase text gives once trimmed and parsed,
/// or `None` where it does not parse.
pub open spec fn phrase_seed(text: Seq<char>) -> Option<Seq<u8>> {
    match english_phrase_words(trimmed(text)) {
        Some(words) => Some(wallet_seed_of(join_words(words))),
        None => None,
    }
}

/// Relies on `bip39::Mnemonic::parse_in` in English: it accepts a text exactly
/// where it finds a valid phrase, and then holds the words it read.
#[verifier::external_body]
fn parse_english(s: &str) -> (r: Result<bip39::Mnemonic, bip39::Error>)
    ensures
        match r {
            Ok(m) => english_phrase_words(s@) == Some(mnemonic_words(m)),
            Err(_) => english_phrase_words(s@) is None,
        },
{
    bip39::Mnemonic::parse_in(bip39::Language::English, s)
}

/// Relies on `bip39::Mnemonic::from_entropy_in` in English: 32 bytes are always
/// accepted and give 24 words of the word list, whose text parses back to them.
#[verifier::external_body]
fn english_from_entropy(entropy: &[u8; 32]) -> (r: Result<bip39::Mnemonic, bip39::Error>)
    ensures
        r is Ok,
        r matches Ok(m) ==> {
            &&& mnemonic_words(m) == entropy_words(entropy@)
            &&& mnemonic_words(m).len() == 24
            &&& lowercase_words(mnemonic_words(m))
            &&& english_phrase_words(join_words(mnemonic_words(m))) == Some(mnemonic_words(m))
        },
{
    bip39::Mnemonic::from_entropy_in(bip39::Language::English, entropy)
}

/// Relies on the `Display` of `bip39::Mnemonic`: its words separated by single spaces.
#[verifier::external_body]
fn mnemonic_text(m: &bip39::Mnemonic) -> (r: String)
    ensures
        r@ == join_words(mnemonic_words(*m)),
{
    m.to_string()
}

/// Relies on `bip39::Mnemonic::to_seed_normalized` with the empty passphrase:
/// PBKDF2 over the phrase text.
#[verifier::external_body]
fn mnemonic_seed(m: &bip39::Mnemonic) -> (r: [u8; 64])
    ensures
        r@ == bip39_seed(join_words(mnemonic_words(*m))),
{
    m.to_seed_normalized("")
}

/// Relies on `rand::thread_rng` for 32 bytes from a secure generator; nothing
/// is known of their values.
#[verifier::external_body]
fn random_entropy() -> (r: [u8; 32]) {
    let mut entropy = [0u8; 32];
    rand::Rng::fill(&mut rand::thread_rng(), &mut entropy);
    entropy
}

/// The first 32 bytes of a derived seed.
fn first_32(full: &[u8; 64]) -> (r: [u8; 32])
    ensures
        r@ == full@.subrange(0, 32),
{
    let mut out = [0u8; 32];
    let mut i: usize = 0;
    while i < 32
        invariant
            i <= 32,
            forall|k: int| 0 <= k < i ==> out@[k] == full@[k],
        decreases 32 - i,
    {
        out[i] = full[i];
        i = i + 1;
    }
    assert(out@ =~= full@.subrange(0, 32));
    out
}

/// The wallet seed of a stored phrase text: the text is trimmed, parsed as an
/// English phrase, and the first 32 bytes of its derived seed are returned.
/// The derivation always gives 64 bytes, so no seed comes out short.
pub fn seed_from_phrase(text: &str) -> (r: Result<[u8; 32], WalletError>)
    ensures
        match r {
            Ok(seed) => phrase_seed(text@) == Some(seed@),
            Err(e) => phrase_seed(text@) is None && e == WalletError::InvalidMnemonic,
        },
{
    let phrase = trim_white_space(text);
    match parse_english(phrase) {
        Ok(m) => {
            let full = mnemonic_seed(&m);
            Ok(first_32(&full))
        },
        Err(_) => Err(WalletError::InvalidMnemonic),
    }
}


proof fn lemma_join_ends(words: Seq<Seq<char>>)
    requires
        words.len() > 0,
        forall|i: int| 0 <= i < words.len() ==> #[trigger] words[i].len() > 0,
    ensures
        join_words(words).len() > 0,
        join_words(words)[0] == words[0][0],
        join_words(words).last() == words.last().last(),
    decreases words.len(),
{
    if words.len() > 1 {
        let init = words.drop_last();
        assert forall|i: int| 0 <= i < init.len() implies #[trigger] init[i].len() > 0 by {
            assert(init[i] == words[i]);
        }
        lemma_join_ends(init);
        let joined = join_words(init) + seq![' '] + words.last();
        assert(joined[0] == join_words(init)[0]);
        assert(joined.last() == words.last().last());
    }
}

/// A phrase text that starts and ends with no whitespace is left as it is by trimming.
proof fn lemma_trimmed_unchanged(s: Seq<char>)
    requires
        s.len() > 0,
        !is_white_space(s[0]),
        !is_white_space(s.last()),
    ensures
        trimmed(s) == s,
{
    assert(trim_start(s) == s);
    assert(trim_end(s) == s);
}

/// A phrase that BIP-39 generated, stored as its text and read back, gives
/// the wallet seed that it gave when it was generated.
pub proof fn lemma_stored_phrase_round_trip(words: Seq<Seq<char>>)
    requires
        lowercase_words(words),
        english_phrase_words(join_words(words)) == Some(words),
    ensures
        phrase_seed(join_words(words)) == Some(wallet_seed_of(join_words(words))),
{
    let text = join_words(words);
    lemma_join_ends(words);
    let last = words.last();
    let n = words.len() - 1;
    assert(words[n] == last);
    assert(words[0].len() > 0);
    assert(words[n].len() > 0);
    assert('a' <= words[0][0] <= 'z');
    assert('a' <= words[n][words[n].len() - 1] <= 'z');
    lemma_trimmed_unchanged(text);
}

/// A phrase generated from entropy, with the wallet seed it gives.
pub struct FreshPhrase {
    /// The phrase text to store.
    pub phrase: String,
    /// The wallet seed of the phrase.
    pub seed: [u8; 32],
}

/// The phrase that BIP-39 encodes `entropy` as, with its wallet seed.
pub fn phrase_from_entropy(entropy: &[u8; 32]) -> (r: FreshPhrase)
    ensures
        r.phrase@ == join_words(entropy_words(entropy@)),
        r.seed@ == wallet_seed_of(r.phrase@),
        phrase_seed(r.phrase@) == Some(r.seed@),
{
    match english_from_entropy(entropy) {
        Ok(m) => {
            let phrase = mnemonic_text(&m);
            let full = mnemonic_seed(&m);
            proof {
                lemma_stored_phrase_round_trip(mnemonic_words(m));
            }
            FreshPhrase { phrase, seed: first_32(&full) }
        },
        Err(_) => {
            proof {
                assert(false);
            }
            FreshPhrase { phrase: String::new(), seed: [0u8; 32] }
        },
    }
}

/// A new phrase from 32 bytes of secure randomness, with its wallet seed.
pub fn generate_phrase() -> (r: FreshPhrase)
    ensures
        exists|entropy: Seq<u8>|
            entropy.len() == 32 && r.phrase@ == join_words(#[trigger] entropy_words(entropy)),
        r.seed@ == wallet_seed_of(r.phrase@),
        phrase_seed(r.phrase@) == Some(r.seed@),
{
    let entropy = random_entropy();
    phrase_from_entropy(&entropy)
}

/// The wallet seed, and the phrase text to store where none was stored.
pub struct StoredSeed {
    /// The 32-byte wallet seed.
    pub seed: [u8; 32],
    /// A newly generated phrase that the caller must persist, if any.
    pub phrase_to_store: Option<String>,
}

/// What a correct outcome of `get_or_create_seed` is: given the stored phrase
/// text (if any), the seed returned and the phrase to persist (if any).
pub open spec fn seed_outcome(
    stored: Option<Seq<char>>,
    seed: Seq<u8>,
    to_store: Option<Seq<char>>,
) -> bool {
    match stored {
        Some(text) => to_store is None && phrase_seed(text) == Some(seed),
        None => to_store matches Some(p) && phrase_seed(p) == Some(seed),
    }
}

/// The stored phrase text once the outcome has been persisted.
pub open spec fn stored_after(stored: Option<Seq<char>>, to_store: Option<Seq<char>>) -> Option<
    Seq<char>,
> {
    match to_store {
        Some(p) => Some(p),
        None => stored,
    }
}

/// The view of an optional string.
pub open spec fn opt_view(s: Option<String>) -> Option<Seq<char>> {
    match s {
        Some(t) => Some(t@),
        None => None,
    }
}

/// The view of an optional string slice.
pub open spec fn opt_str_view(s: Option<&str>) -> Option<Seq<char>> {
    match s {
        Some(t) => Some(t@),
        None => None,
    }
}

/// The wallet seed: read from the stored phrase text where there is one, else
/// derived from a newly generated phrase that the caller must then store.
/// The stored text is taken as it is, without encryption.
pub fn get_or_create_seed(stored: Option<&str>) -> (r: Result<StoredSeed, WalletError>)
    ensures
        match r {
            Ok(out) => seed_outcome(opt_str_view(stored), out.seed@, opt_view(out.phrase_to_store)),
            Err(e) => {
                &&& e == WalletError::InvalidMnemonic
                &&& stored matches Some(text) && phrase_seed(text@) is None
            },
        },
        stored is None ==> r is Ok,
{
    match stored {
        Some(text) => {
            let seed = seed_from_phrase(text)?;
            Ok(StoredSeed { seed, phrase_to_store: None })
        },
        None => {
            let fresh = generate_phrase();
            Ok(StoredSeed { seed: fresh.seed, phrase_to_store: Some(fresh.phrase) })
        },
    }
}

/// Getting the seed twice, with the outcome of the first call persisted in
/// between, gives the same seed both times, and the second call stores nothing.
pub proof fn lemma_get_or_create_idempotent(
    stored: Option<Seq<char>>,
    first_seed: Seq<u8>,
    first_store: Option<Seq<char>>,
    second_seed: Seq<u8>,
    second_store: Option<Seq<char>>,
)
    requires
        seed_outcome(stored, first_seed, first_store),
        seed_outcome(stored_after(stored, first_store), second_seed, second_store),
    ensures
        second_seed == first_seed,
        second_store is None,
{
}

} // verus!
