use vstd::prelude::*;

use crate::error::WalletError;

verus! {

/// Name of the file, inside the work directory, that holds the recovery phrase.
pub const SEED_FILE_NAME: &'static str = "seed.txt";

/// Name of the file, inside the work directory, of the key-value store.
pub const DATABASE_FILE_NAME: &'static str = "cdk-wallet.redb";

/// `s` without the slashes at its end.
pub open spec fn strip_trailing_slashes(s: Seq<char>) -> Seq<char>
    decreases s.len(),
{
    if s.len() > 0 && s.last() == '/' {
        strip_trailing_slashes(s.drop_last())
    } else {
        s
    }
}

/// Whether `s` holds the scheme separator `://`.
pub open spec fn has_scheme_separator(s: Seq<char>) -> bool {
    exists|i: int| 0 <= i && i + 3 <= s.len() && #[trigger] s.subrange(i, i + 3) == seq![':', '/', '/']
}

/// Whether a mint URL is accepted: once its trailing slashes are gone it
/// still has a scheme separator.
pub open spec fn mint_url_accepted(s: Seq<char>) -> bool {
    has_scheme_separator(strip_trailing_slashes(s))
}

/// The normal form that cdk gives an accepted mint URL (scheme and host in
/// lower case, no trailing slash).
pub uninterp spec fn mint_url_text(s: Seq<char>) -> Seq<char>;

/// Relies on `cdk::mint_url::MintUrl::from_str` and the `Display` of the
/// result: the text is refused exactly where, once its trailing slashes are
/// gone, it has no `://`; otherwise its normal form comes back.
#[verifier::external_body]
fn format_mint_url(s: &str) -> (r: Option<String>)
    ensures
        r is Some <==> mint_url_accepted(s@),
        r matches Some(u) ==> u@ == mint_url_text(s@),
{
    match <cdk::mint_url::MintUrl as std::str::FromStr>::from_str(s) {
        Ok(url) => Some(url.to_string()),
        Err(_) => None,
    }
}

/// The currency unit a wallet holds.
#[derive(Clone, Copy, Debug, PartialEq, Eq, Structural)]
pub enum CurrencyUnit {
    Sat,
    Msat,
    Usd,
    Eur,
}

/// A mint and currency unit, which identify one wallet in the registry.
#[derive(Clone, Debug)]
pub struct MintIdentity {
    /// The mint URL in its normal form.
    pub mint_url: String,
    pub unit: CurrencyUnit,
}

/// The mathematical form of a `MintIdentity`.
pub type IdentityKey = (Seq<char>, CurrencyUnit);

impl View for MintIdentity {
    type V = IdentityKey;

    open spec fn view(&self) -> IdentityKey {
        (self.mint_url@, self.unit)
    }
}

impl MintIdentity {
    /// Tests two identities for equality.
    pub fn same(&self, other: &MintIdentity) -> (r: bool)
        ensures
            r == (self@ == other@),
    {
        self.unit == other.unit && self.mint_url == other.mint_url
    }
}

/// The identity of the wallet for `mint_url` in `unit`: the URL in its
/// normal form, or `InvalidMintUrl` where it is malformed.
pub fn mint_identity(mint_url: &str, unit: CurrencyUnit) -> (r: Result<MintIdentity, WalletError>)
    ensures
        match r {
            Ok(id) => mint_url_accepted(mint_url@) && id@ == (mint_url_text(mint_url@), unit),
            Err(e) => !mint_url_accepted(mint_url@) && e == WalletError::InvalidMintUrl,
        },
{
    match format_mint_url(mint_url) {
        Some(url) => Ok(MintIdentity { mint_url: url, unit }),
        None => Err(WalletError::InvalidMintUrl),
    }
}


/// The keys after a registration of `k`: unchanged where `k` is known, else
/// `k` added at the end.
pub open spec fn registered(keys: Seq<IdentityKey>, k: IdentityKey) -> Seq<IdentityKey> {
    if keys.contains(k) {
        keys
    } else {
        keys.push(k)
    }
}

/// What resolving a mint found.
#[derive(Debug)]
pub enum Resolution {
    /// The registry holds the wallet, at this index.
    Cached(usize),
    /// No wallet is held for this identity yet: one must be registered.
    Unregistered(MintIdentity),
}

/// The wallets of the registry, one per mint identity, each created on first
/// use and kept for the registry's lifetime.
pub struct WalletRegistry<W> {
    entries: Vec<(MintIdentity, W)>,
}

impl<W> WalletRegistry<W> {
    /// The identities held, in order of registration.
    pub closed spec fn keys(&self) -> Seq<IdentityKey> {
        self.entries@.map_values(|e: (MintIdentity, W)| e.0@)
    }

    /// The wallet handle at index `i`.
    pub closed spec fn handle(&self, i: int) -> W {
        self.entries@[i].1
    }

    /// No identity is held twice.
    pub open spec fn wf(&self) -> bool {
        self.keys().no_duplicates()
    }

    /// An empty registry.
    pub fn new() -> (r: Self)
        ensures
            r.wf(),
            r.keys() == Seq::<IdentityKey>::empty(),
    {
        let r = WalletRegistry { entries: Vec::new() };
        assert(r.keys() =~= Seq::<IdentityKey>::empty());
        r
    }

    /// The number of wallets held.
    pub fn len(&self) -> (r: usize)
        ensures
            r == self.keys().len(),
    {
        self.entries.len()
    }

    /// The wallet at index `i`.
    pub fn wallet(&self, i: usize) -> (r: &W)
        requires
            i < self.keys().len(),
        ensures
            *r == self.handle(i as int),
    {
        &self.entries[i].1
    }

    /// The index of the wallet for `id`, if one is held.
    pub fn index_of(&self, id: &MintIdentity) -> (r: Option<usize>)
        requires
            self.wf(),
        ensures
            match r {
                Some(i) => i < self.keys().len() && self.keys()[i as int] == id@,
                None => !self.keys().contains(id@),
            },
    {
        let mut i: usize = 0;
        while i < self.entries.len()
            invariant
                i <= self.entries@.len(),
                forall|j: int| 0 <= j < i ==> self.keys()[j] != id@,
            decreases self.entries@.len() - i,
        {
            if self.entries[i].0.same(id) {
                return Some(i);
            }
            i = i + 1;
        }
        proof {
            if self.keys().contains(id@) {
                let j = choose|j: int| 0 <= j < self.keys().len() && self.keys()[j] == id@;
                assert(self.keys()[j] != id@);
            }
        }
        None
    }

    /// Looks up the wallet for `mint_url` in `unit`: the URL is parsed, and
    /// the wallet held for that identity is named, or the identity returned
    /// for registration.
    pub fn resolve_wallet(&self, mint_url: &str, unit: CurrencyUnit) -> (r: Result<
        Resolution,
        WalletError,
    >)
        requires
            self.wf(),
        ensures
            !mint_url_accepted(mint_url@) ==> r == Err::<Resolution, WalletError>(
                WalletError::InvalidMintUrl,
            ),
            mint_url_accepted(mint_url@) ==> {
                let k = (mint_url_text(mint_url@), unit);
                match r {
                    Ok(Resolution::Cached(i)) => i < self.keys().len() && self.keys()[i as int]
                        == k,
                    Ok(Resolution::Unregistered(id)) => id@ == k && !self.keys().contains(k),
                    Err(_) => false,
                }
            },
    {
        let id = mint_identity(mint_url, unit)?;
        match self.index_of(&id) {
            Some(i) => Ok(Resolution::Cached(i)),
            None => Ok(Resolution::Unregistered(id)),
        }
    }

    /// Registers `wallet` for `id` and returns its index. Where a wallet is
    /// already held for `id`, nothing changes and its index is returned.
    pub fn register(&mut self, id: MintIdentity, wallet: W) -> (r: usize)
        requires
            old(self).wf(),
        ensures
            final(self).wf(),
            final(self).keys() == registered(old(self).keys(), id@),
            r < final(self).keys().len(),
            final(self).keys()[r as int] == id@,
            forall|i: int|
                0 <= i < old(self).keys().len() ==> #[trigger] final(self).handle(i) == old(
                    self,
                ).handle(i),
            !old(self).keys().contains(id@) ==> final(self).handle(r as int) == wallet,
    {
        match self.index_of(&id) {
            Some(i) => i,
            None => {
                let ghost old_keys = self.keys();
                let ghost k = id@;
                self.entries.push((id, wallet));
                assert(self.keys() =~= old_keys.push(k));
                proof {
                    assert forall|a: int, b: int|
                        0 <= a < self.keys().len() && 0 <= b < self.keys().len() && a != b implies #[trigger] self.keys()[a]
                        != #[trigger] self.keys()[b] by {
                        if a < old_keys.len() && b < old_keys.len() {
                            assert(old_keys[a] != old_keys[b]);
                        } else if a < old_keys.len() {
                            assert(old_keys.contains(old_keys[a]));
                        } else {
                            assert(old_keys.contains(old_keys[b]));
                        }
                    }
                }
                self.entries.len() - 1
            },
        }
    }
}

/// Resolving a mint twice, registering a wallet only where the first
/// resolution found none, registers at most once: afterwards the identity is
/// held at exactly one index, and a second registration changes nothing.
pub proof fn lemma_resolve_twice_registers_once(keys: Seq<IdentityKey>, k: IdentityKey)
    requires
        keys.no_duplicates(),
    ensures
        registered(keys, k).contains(k),
        registered(registered(keys, k), k) == registered(keys, k),
        registered(keys, k).len() <= keys.len() + 1,
        keys.contains(k) ==> registered(keys, k) == keys,
        forall|i: int, j: int|
            0 <= i < registered(keys, k).len() && 0 <= j < registered(keys, k).len()
                && registered(keys, k)[i] == k && registered(keys, k)[j] == k ==> i == j,
{
    let after = registered(keys, k);
    if !keys.contains(k) {
        assert(after[keys.len() as int] == k);
        assert forall|i: int, j: int|
            0 <= i < after.len() && 0 <= j < after.len() && after[i] == k && after[j] == k implies i
            == j by {
            if i < keys.len() {
                assert(keys[i] == k);
            }
            if j < keys.len() {
                assert(keys[j] == k);
            }
        }
    }
}

} // verus!
