use vstd::prelude::*;

use crate::error::WalletError;

verus! {

/// The decimal digit for `d`.
pub open spec fn digit_char(d: nat) -> char {
    if d == 0 {
        '0'
    } else if d == 1 {
        '1'
    } else if d == 2 {
        '2'
    } else if d == 3 {
        '3'
    } else if d == 4 {
        '4'
    } else if d == 5 {
        '5'
    } else if d == 6 {
        '6'
    } else if d == 7 {
        '7'
    } else if d == 8 {
        '8'
    } else {
        '9'
    }
}

/// `n` written in decimal, without leading zeros.
pub open spec fn decimal(n: nat) -> Seq<char>
    decreases n,
{
    if n < 10 {
        seq![digit_char(n)]
    } else {
        decimal(n / 10) + seq![digit_char(n % 10)]
    }
}

fn digit_text(d: u64) -> (r: &'static str)
    requires
        d < 10,
    ensures
        r@ == seq![digit_char(d as nat)],
{
    if d == 0 {
        proof { reveal_strlit("0"); }
        assert("0"@ =~= seq!['0']);
        "0"
    } else if d == 1 {
        proof { reveal_strlit("1"); }
        assert("1"@ =~= seq!['1']);
        "1"
    } else if d == 2 {
        proof { reveal_strlit("2"); }
        assert("2"@ =~= seq!['2']);
        "2"
    } else if d == 3 {
        proof { reveal_strlit("3"); }
        assert("3"@ =~= seq!['3']);
        "3"
    } else if d == 4 {
        proof { reveal_strlit("4"); }
        assert("4"@ =~= seq!['4']);
        "4"
    } else if d == 5 {
        proof { reveal_strlit("5"); }
        assert("5"@ =~= seq!['5']);
        "5"
    } else if d == 6 {
        proof { reveal_strlit("6"); }
        assert("6"@ =~= seq!['6']);
        "6"
    } else if d == 7 {
        proof { reveal_strlit("7"); }
        assert("7"@ =~= seq!['7']);
        "7"
    } else if d == 8 {
        proof { reveal_strlit("8"); }
        assert("8"@ =~= seq!['8']);
        "8"
    } else {
        proof { reveal_strlit("9"); }
        assert("9"@ =~= seq!['9']);
        "9"
    }
}

/// Appends `n` in decimal to `out`.
pub fn push_decimal(out: &mut String, n: u64)
    ensures
        final(out)@ == old(out)@ + decimal(n as nat),
    decreases n,
{
    if n >= 10 {
        push_decimal(out, n / 10);
    }
    out.append(digit_text(n % 10));
    assert(final(out)@ =~= old(out)@ + decimal(n as nat));
}

/// Tests two texts for equality, character by character.
pub fn same_text(a: &str, b: &str) -> (r: bool)
    ensures
        r == (a@ == b@),
{
    let n = a.unicode_len();
    if n != b.unicode_len() {
        return false;
    }
    let mut i: usize = 0;
    while i < n
        invariant
            n == a@.len(),
            n == b@.len(),
            i <= n,
            forall|j: int| 0 <= j < i ==> a@[j] == b@[j],
        decreases n - i,
    {
        if a.get_char(i) != b.get_char(i) {
            return false;
        }
        i = i + 1;
    }
    assert(a@ =~= b@);
    true
}

/// Whether a quote state, as the mint reports it in text, is one of the
/// tokens that denote a paid quote.
pub open spec fn is_paid_token(state: Seq<char>) -> bool {
    state == "PAID"@ || state == "Paid"@ || state == "paid"@
}

/// Whether the state text that the mint reported for a quote says it is paid.
/// Any other text, an unknown or expired state included, counts as not paid.
pub fn quote_state_is_paid(state: &str) -> (r: bool)
    ensures
        r == is_paid_token(state@),
{
    same_text(state, "PAID") || same_text(state, "Paid") || same_text(state, "paid")
}


/// The state of a mint quote, as the mint holds it.
#[derive(Clone, Copy, Debug, PartialEq, Eq, Structural)]
pub enum QuoteState {
    /// Waiting for payment.
    Unpaid,
    /// Paid; the wallet may mint.
    Paid,
    /// Minting is under way at the mint.
    Pending,
    /// Ecash was issued for the quote.
    Issued,
    /// The mint's expiry window elapsed before the quote was redeemed.
    Expired,
}

/// What asking the mint to issue for a quote in state `s` gives.
pub open spec fn redemption(s: QuoteState) -> Result<(), WalletError> {
    match s {
        QuoteState::Paid => Ok(()),
        QuoteState::Unpaid => Err(WalletError::QuoteNotPaid),
        QuoteState::Pending => Err(WalletError::QuotePending),
        QuoteState::Issued => Err(WalletError::AlreadyIssued),
        QuoteState::Expired => Err(WalletError::QuoteExpired),
    }
}

/// The state of a quote after the mint settled an attempt to issue for it.
pub open spec fn state_after_redemption(s: QuoteState) -> QuoteState {
    if s == QuoteState::Paid {
        QuoteState::Issued
    } else {
        s
    }
}

/// The state of a quote after its payment settled.
pub open spec fn state_after_payment(s: QuoteState) -> QuoteState {
    if s == QuoteState::Unpaid {
        QuoteState::Paid
    } else {
        s
    }
}

/// The state of a quote once the mint's expiry window elapsed.
pub open spec fn state_after_expiry(s: QuoteState) -> QuoteState {
    if s == QuoteState::Unpaid || s == QuoteState::Paid {
        QuoteState::Expired
    } else {
        s
    }
}

/// The outcome of a request to issue for a quote that the mint holds in
/// `state`: only a paid quote is issued for; every other state is refused
/// with the error that names it.
pub fn redemption_outcome(state: QuoteState) -> (r: Result<(), WalletError>)
    ensures
        r == redemption(state),
{
    match state {
        QuoteState::Paid => Ok(()),
        QuoteState::Unpaid => Err(WalletError::QuoteNotPaid),
        QuoteState::Pending => Err(WalletError::QuotePending),
        QuoteState::Issued => Err(WalletError::AlreadyIssued),
        QuoteState::Expired => Err(WalletError::QuoteExpired),
    }
}

/// The state of a quote after an attempt to issue for it in `state`.
pub fn after_redemption(state: QuoteState) -> (r: QuoteState)
    ensures
        r == state_after_redemption(state),
{
    match state {
        QuoteState::Paid => QuoteState::Issued,
        other => other,
    }
}

/// Redeeming a quote a second time, after a first redemption succeeded,
/// fails with a state error: the quote was already issued.
pub proof fn lemma_second_redemption_fails(s: QuoteState)
    requires
        redemption(s) is Ok,
    ensures
        redemption(state_after_redemption(s)) == Err::<(), WalletError>(WalletError::AlreadyIssued),
        WalletError::AlreadyIssued.is_state_error(),
{
}

/// An expired quote stays expired and can never be redeemed.
pub proof fn lemma_expired_is_terminal(s: QuoteState)
    requires
        s == QuoteState::Expired,
    ensures
        state_after_payment(s) == s,
        state_after_redemption(s) == s,
        state_after_expiry(s) == s,
        redemption(s) == Err::<(), WalletError>(WalletError::QuoteExpired),
{
}

/// The sum of amounts.
pub open spec fn sum_amounts(amounts: Seq<u64>) -> int
    decreases amounts.len(),
{
    if amounts.len() == 0 {
        0
    } else {
        sum_amounts(amounts.drop_last()) + amounts.last()
    }
}

proof fn lemma_sum_amounts_grows(amounts: Seq<u64>, i: int)
    requires
        0 <= i <= amounts.len(),
    ensures
        sum_amounts(amounts.subrange(0, i)) <= sum_amounts(amounts),
        0 <= sum_amounts(amounts.subrange(0, i)),
    decreases amounts.len() - i,
{
    if i < amounts.len() {
        lemma_sum_amounts_grows(amounts, i + 1);
        assert(amounts.subrange(0, i + 1).drop_last() =~= amounts.subrange(0, i));
        lemma_sum_nonnegative(amounts.subrange(0, i));
    } else {
        assert(amounts.subrange(0, i) =~= amounts);
        lemma_sum_nonnegative(amounts);
    }
}

proof fn lemma_sum_nonnegative(amounts: Seq<u64>)
    ensures
        sum_amounts(amounts) >= 0,
    decreases amounts.len(),
{
    if amounts.len() > 0 {
        lemma_sum_nonnegative(amounts.drop_last());
    }
}

/// The balance of a wallet: the sum of the amounts of its unspent proofs, or
/// `AmountOverflow` where the sum does not fit in 64 bits. A wallet with no
/// proofs has balance 0.
pub fn total_balance(amounts: &Vec<u64>) -> (r: Result<u64, WalletError>)
    ensures
        sum_amounts(amounts@) <= u64::MAX ==> r == Ok::<u64, WalletError>(
            sum_amounts(amounts@) as u64,
        ),
        sum_amounts(amounts@) > u64::MAX ==> r == Err::<u64, WalletError>(
            WalletError::AmountOverflow,
        ),
        amounts@.len() == 0 ==> r == Ok::<u64, WalletError>(0),
{
    let mut total: u64 = 0;
    let mut i: usize = 0;
    while i < amounts.len()
        invariant
            i <= amounts@.len(),
            total == sum_amounts(amounts@.subrange(0, i as int)),
        decreases amounts@.len() - i,
    {
        assert(amounts@.subrange(0, i + 1).drop_last() =~= amounts@.subrange(0, i as int));
        match total.checked_add(amounts[i]) {
            Some(t) => {
                total = t;
            },
            None => {
                proof {
                    lemma_sum_amounts_grows(amounts@, i + 1);
                }
                return Err(WalletError::AmountOverflow);
            },
        }
        i = i + 1;
    }
    assert(amounts@.subrange(0, i as int) =~= amounts@);
    Ok(total)
}

/// A balance reported for a wallet on which nothing was minted is 0.
pub proof fn lemma_fresh_wallet_balance_zero(amounts: Seq<u64>)
    requires
        amounts.len() == 0,
    ensures
        sum_amounts(amounts) == 0,
{
}

/// A quote the mint issued: what must be paid for `amount` units to be minted.
#[derive(Clone, Debug)]
pub struct MintQuote {
    /// The mint's opaque quote id.
    pub id: String,
    /// The amount to be minted, in the smallest currency unit.
    pub amount: u64,
    /// The payment request to settle, such as a payment URI.
    pub request: String,
}

impl MintQuote {
    /// The text under which the facade reports the quote.
    pub open spec fn summary_text(&self) -> Seq<char> {
        "Quote ID: "@ + self.id@ + " - Amount: "@ + decimal(self.amount as nat)
            + " sats - Payment Request: "@ + self.request@
    }

    /// The quote as text: its id, amount and payment request.
    pub fn summary(&self) -> (r: String)
        ensures
            r@ == self.summary_text(),
    {
        let mut out = String::from_str("Quote ID: ");
        out.append(self.id.as_str());
        out.append(" - Amount: ");
        push_decimal(&mut out, self.amount);
        out.append(" sats - Payment Request: ");
        out.append(self.request.as_str());
        out
    }
}

/// What a successful mint delivered.
#[derive(Clone, Copy, Debug, PartialEq, Eq, Structural)]
pub struct MintReceipt {
    /// The number of proofs minted.
    pub proof_count: u64,
    /// The sum of their amounts.
    pub total: u64,
}

impl MintReceipt {
    /// The text under which the facade reports the receipt.
    pub open spec fn summary_text(&self) -> Seq<char> {
        "Successfully minted "@ + decimal(self.proof_count as nat) + " proofs"@
    }

    /// The receipt as text: the number of proofs minted.
    pub fn summary(&self) -> (r: String)
        ensures
            r@ == self.summary_text(),
    {
        let mut out = String::from_str("Successfully minted ");
        push_decimal(&mut out, self.proof_count);
        out.append(" proofs");
        out
    }
}

/// Accepts the proofs a mint issued for a paid quote, given their amounts.
/// A mint that issues no proof has broken the protocol, and a total that does
/// not fit in 64 bits is refused; otherwise the receipt counts and sums them.
pub fn accept_minted(amounts: &Vec<u64>) -> (r: Result<MintReceipt, WalletError>)
    ensures
        match r {
            Ok(receipt) => {
                &&& amounts@.len() > 0
                &&& receipt.proof_count == amounts@.len()
                &&& receipt.total == sum_amounts(amounts@)
            },
            Err(e) => {
                ||| amounts@.len() == 0 && e is MintCommunication
                ||| amounts@.len() > 0 && sum_amounts(amounts@) > u64::MAX && e
                    == WalletError::AmountOverflow
            },
        },
        amounts@.len() > 0 && sum_amounts(amounts@) <= u64::MAX ==> r is Ok,
{
    if amounts.len() == 0 {
        return Err(WalletError::MintCommunication(String::from_str("the mint issued no proofs")));
    }
    let total = total_balance(amounts)?;
    proof {
        lemma_sum_nonnegative(amounts@);
    }
    let count = amounts.len() as u64;
    assert(count == amounts@.len());
    Ok(MintReceipt { proof_count: count, total })
}

} // verus!
