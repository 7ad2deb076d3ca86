use whitenoise_wallet::error::WalletError;
use whitenoise_wallet::registry::{
    mint_identity, CurrencyUnit, Resolution, WalletRegistry, DATABASE_FILE_NAME, SEED_FILE_NAME,
};

#[test]
fn mint_url_is_normalised() {
    let id = mint_identity("HTTPS://Mint.Example/", CurrencyUnit::Sat).unwrap();
    assert_eq!(id.mint_url, "https://mint.example");
    assert_eq!(id.unit, CurrencyUnit::Sat);
    let id = mint_identity("https://mint.example/Path/To//", CurrencyUnit::Usd).unwrap();
    assert_eq!(id.mint_url, "https://mint.example/Path/To");
}

#[test]
fn malformed_mint_url_is_rejected() {
    for bad in ["", "mint.example", "http://", "///"] {
        assert_eq!(
            mint_identity(bad, CurrencyUnit::Sat).map(|i| i.mint_url),
            Err(WalletError::InvalidMintUrl),
            "{bad:?}"
        );
    }
}

#[test]
fn resolving_twice_registers_once() {
    let mut registry: WalletRegistry<&str> = WalletRegistry::new();
    let id = match registry.resolve_wallet("https://mint.example", CurrencyUnit::Sat) {
        Ok(Resolution::Unregistered(id)) => id,
        other => panic!("expected an unregistered mint, got {other:?}"),
    };
    let index = registry.register(id, "wallet-1");
    assert_eq!(registry.len(), 1);
    match registry.resolve_wallet("https://MINT.example/", CurrencyUnit::Sat) {
        Ok(Resolution::Cached(i)) => assert_eq!(i, index),
        other => panic!("expected the cached wallet, got {other:?}"),
    }
    let again = mint_identity("https://mint.example", CurrencyUnit::Sat).unwrap();
    assert_eq!(registry.register(again, "wallet-2"), index);
    assert_eq!(registry.len(), 1);
    assert_eq!(*registry.wallet(index), "wallet-1");
}

#[test]
fn units_and_mints_are_kept_apart() {
    let mut registry: WalletRegistry<u32> = WalletRegistry::new();
    let a = registry.register(mint_identity("https://a.example", CurrencyUnit::Sat).unwrap(), 1);
    let b = registry.register(mint_identity("https://a.example", CurrencyUnit::Usd).unwrap(), 2);
    let c = registry.register(mint_identity("https://b.example", CurrencyUnit::Sat).unwrap(), 3);
    assert_eq!((a, b, c), (0, 1, 2));
    assert_eq!(registry.len(), 3);
    let probe = mint_identity("https://a.example/", CurrencyUnit::Usd).unwrap();
    assert_eq!(registry.index_of(&probe), Some(1));
}

#[test]
fn resolving_a_malformed_url_fails() {
    let registry: WalletRegistry<u8> = WalletRegistry::new();
    assert!(matches!(
        registry.resolve_wallet("no-scheme", CurrencyUnit::Sat),
        Err(WalletError::InvalidMintUrl)
    ));
}

#[test]
fn file_names() {
    assert_eq!(SEED_FILE_NAME, "seed.txt");
    assert_eq!(DATABASE_FILE_NAME, "cdk-wallet.redb");
}
