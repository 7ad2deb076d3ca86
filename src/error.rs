use vstd::prelude::*;

verus! {

/// Failures of the wallet subsystem.
#[derive(Debug, Clone, PartialEq, Eq)]
pub enum WalletError {
    /// The stored recovery phrase does not parse as an English BIP-39 phrase.
    InvalidMnemonic,
    /// The mint URL is malformed.
    InvalidMintUrl,
    /// The key-value store could not be opened or written; the text says why.
    Persistence(String),
    /// A wallet for the mint could not be registered.
    RegistrationFailed,
    /// Transport or protocol failure while talking to the mint; the text says why.
    MintCommunication(String),
    /// The mint refuses to issue: the quote has not been paid.
    QuoteNotPaid,
    /// The mint refuses to issue: issuing for the quote is already under way.
    QuotePending,
    /// The mint refuses to issue: the quote was already redeemed.
    AlreadyIssued,
    /// The mint refuses to issue: the quote expired.
    QuoteExpired,
    /// A sum of amounts does not fit in 64 bits.
    AmountOverflow,
}

impl WalletError {
    /// Whether the error comes from the state of a quote at the mint.
    pub open spec fn is_state_error(self) -> bool {
        ||| self is QuoteNotPaid
        ||| self is QuotePending
        ||| self is AlreadyIssued
        ||| self is QuoteExpired
    }

    /// The human-readable text under which the error reaches the facade.
    pub open spec fn text(self) -> Seq<char> {
        match self {
            WalletError::InvalidMnemonic => "Failed to parse mnemonic from file"@,
            WalletError::InvalidMintUrl => "invalid mint url"@,
            WalletError::Persistence(d) => "Failed to create database: "@ + d@,
            WalletError::RegistrationFailed => "Could not add wallet"@,
            WalletError::MintCommunication(d) => "Mint communication failed: "@ + d@,
            WalletError::QuoteNotPaid => "Quote has not been paid"@,
            WalletError::QuotePending => "Quote is pending"@,
            WalletError::AlreadyIssued => "Quote has already been issued"@,
            WalletError::QuoteExpired => "Quote has expired"@,
            WalletError::AmountOverflow => "Amount overflow"@,
        }
    }

    /// The error as text for the facade.
    pub fn message(&self) -> (r: String)
        ensures
            r@ == self.text(),
    {
        match self {
            WalletError::InvalidMnemonic => String::from_str("Failed to parse mnemonic from file"),
            WalletError::InvalidMintUrl => String::from_str("invalid mint url"),
            WalletError::Persistence(d) => {
                let r = String::from_str("Failed to create database: ");
                r.concat(d.as_str())
            },
            WalletError::RegistrationFailed => String::from_str("Could not add wallet"),
            WalletError::MintCommunication(d) => {
                let r = String::from_str("Mint communication failed: ");
                r.concat(d.as_str())
            },
            WalletError::QuoteNotPaid => String::from_str("Quote has not been paid"),
            WalletError::QuotePending => String::from_str("Quote is pending"),
            WalletError::AlreadyIssued => String::from_str("Quote has already been issued"),
            WalletError::QuoteExpired => String::from_str("Quote has expired"),
            WalletError::AmountOverflow => String::from_str("Amount overflow"),
        }
    }
}

} // verus!
