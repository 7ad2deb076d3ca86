use whitenoise_wallet::error::WalletError;
use whitenoise_wallet::session::{
    accept_minted, after_redemption, push_decimal, quote_state_is_paid, redemption_outcome,
    same_text, total_balance, MintQuote, MintReceipt, QuoteState,
};

#[test]
fn paid_tokens_are_recognised() {
    for paid in ["PAID", "Paid", "paid"] {
        assert!(quote_state_is_paid(paid), "{paid}");
    }
    for other in ["Unpaid", "UNPAID", "Expired", "ISSUED", "PENDING", "", "paid ", "pAID"] {
        assert!(!quote_state_is_paid(other), "{other:?}");
    }
}

#[test]
fn redemption_follows_the_quote_state() {
    assert_eq!(redemption_outcome(QuoteState::Paid), Ok(()));
    assert_eq!(redemption_outcome(QuoteState::Unpaid), Err(WalletError::QuoteNotPaid));
    assert_eq!(redemption_outcome(QuoteState::Pending), Err(WalletError::QuotePending));
    assert_eq!(redemption_outcome(QuoteState::Issued), Err(WalletError::AlreadyIssued));
    assert_eq!(redemption_outcome(QuoteState::Expired), Err(WalletError::QuoteExpired));
}

#[test]
fn second_redemption_is_already_issued() {
    let state = QuoteState::Paid;
    assert_eq!(redemption_outcome(state), Ok(()));
    let receipt = accept_minted(&vec![8, 2]).unwrap();
    assert!(receipt.proof_count > 0);
    let state = after_redemption(state);
    assert_eq!(state, QuoteState::Issued);
    assert_eq!(redemption_outcome(state), Err(WalletError::AlreadyIssued));
    assert_eq!(after_redemption(QuoteState::Expired), QuoteState::Expired);
}

#[test]
fn balance_sums_proofs() {
    assert_eq!(total_balance(&vec![]), Ok(0));
    assert_eq!(total_balance(&vec![1, 2, 4, 8]), Ok(15));
    assert_eq!(total_balance(&vec![u64::MAX]), Ok(u64::MAX));
    assert_eq!(total_balance(&vec![u64::MAX, 1]), Err(WalletError::AmountOverflow));
}

#[test]
fn minting_needs_proofs() {
    assert!(matches!(accept_minted(&vec![]), Err(WalletError::MintCommunication(_))));
    assert_eq!(
        accept_minted(&vec![u64::MAX, 1]),
        Err(WalletError::AmountOverflow)
    );
    assert_eq!(
        accept_minted(&vec![512, 256, 128, 64, 32, 8]),
        Ok(MintReceipt { proof_count: 6, total: 1000 })
    );
}

#[test]
fn summaries_are_exact() {
    let quote = MintQuote {
        id: "q-1".to_string(),
        amount: 1000,
        request: "lnbc10u1...".to_string(),
    };
    assert_eq!(
        quote.summary(),
        "Quote ID: q-1 - Amount: 1000 sats - Payment Request: lnbc10u1..."
    );
    let receipt = MintReceipt { proof_count: 6, total: 1000 };
    assert_eq!(receipt.summary(), "Successfully minted 6 proofs");
}

#[test]
fn decimal_rendering() {
    for (n, text) in [(0u64, "0"), (7, "7"), (10, "10"), (1000, "1000"), (u64::MAX, "18446744073709551615")] {
        let mut out = String::from(">");
        push_decimal(&mut out, n);
        assert_eq!(out, format!(">{text}"));
    }
}

#[test]
fn text_equality() {
    assert!(same_text("abc", "abc"));
    assert!(!same_text("abc", "abd"));
    assert!(!same_text("abc", "ab"));
    assert!(same_text("", ""));
}

#[test]
fn end_to_end_quote_lifecycle() {
    let quote = MintQuote {
        id: "quote-77".to_string(),
        amount: 1000,
        request: "lnbc10u1pexample".to_string(),
    };
    assert_eq!(quote.amount, 1000);
    assert!(!quote.request.is_empty());
    assert!(!quote_state_is_paid("UNPAID"));
    assert!(quote_state_is_paid("PAID"));
    assert_eq!(redemption_outcome(QuoteState::Paid), Ok(()));
    let minted = vec![512, 256, 128, 64, 32, 8];
    let receipt = accept_minted(&minted).unwrap();
    assert!(receipt.proof_count >= 1);
    let balance = total_balance(&minted).unwrap();
    assert!(balance >= 1000);
}

#[test]
fn error_messages() {
    assert_eq!(WalletError::InvalidMintUrl.message(), "invalid mint url");
    assert_eq!(WalletError::RegistrationFailed.message(), "Could not add wallet");
    assert_eq!(
        WalletError::Persistence("disk full".to_string()).message(),
        "Failed to create database: disk full"
    );
    assert_eq!(
        WalletError::MintCommunication("timeout".to_string()).message(),
        "Mint communication failed: timeout"
    );
}
