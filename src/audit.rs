use vstd::prelude::*;
use vstd::string::StringExecFns;

use crate::address::Address;

verus! {

/// The base58 text of an identity, as the host prints it.
pub uninterp spec fn base58_text(bytes: Seq<u8>) -> Seq<char>;

/// Relies on `Pubkey`'s `Display`: it writes the base58 encoding of the
/// 32 bytes, which depends on those bytes alone.
#[verifier::external_body]
fn address_text(a: &Address) -> (r: String)
    ensures
        r@ == base58_text(a@),
{
    anchor_lang::prelude::Pubkey::new_from_array(a.bytes).to_string()
}

pub open spec fn digit_char(d: nat) -> char {
    seq!['0', '1', '2', '3', '4', '5', '6', '7', '8', '9'][d as int]
}

/// The decimal digits of `n`, most significant first, without leading zeros.
pub open spec fn decimal_text(n: nat) -> Seq<char>
    decreases n,
{
    if n < 10 {
        seq![digit_char(n)]
    } else {
        decimal_text(n / 10).push(digit_char(n % 10))
    }
}

/// Relies on `u64`'s `Display` through `to_string`: the decimal digits of
/// the number, without sign or leading zeros.
#[verifier::external_body]
fn amount_text(n: u64) -> (r: String)
    ensures
        r@ == decimal_text(n as nat),
{
    n.to_string()
}

pub open spec fn confirmation_line() -> Seq<char> {
    "Token created and minted successfully!"@
}

/// The four lines that record a completed issuance, in their fixed order:
/// confirmation, mint identity, recipient holding identity, amount.
pub open spec fn audit_lines(mint: Seq<u8>, holding: Seq<u8>, amount: u64) -> Seq<Seq<char>> {
    seq![
        confirmation_line(),
        "Mint Address: "@ + base58_text(mint),
        "Recipient Token Address: "@ + base58_text(holding),
        "Amount Minted: "@ + decimal_text(amount as nat),
    ]
}

/// Writes the audit record of an issuance.
pub fn audit_log(mint: &Address, holding: &Address, amount: u64) -> (r: Vec<String>)
    ensures
        r.deep_view() == audit_lines(mint@, holding@, amount),
{
    let mut r: Vec<String> = Vec::new();
    r.push(String::from_str("Token created and minted successfully!"));
    let m = address_text(mint);
    r.push(String::from_str("Mint Address: ").concat(m.as_str()));
    let h = address_text(holding);
    r.push(String::from_str("Recipient Token Address: ").concat(h.as_str()));
    let a = amount_text(amount);
    r.push(String::from_str("Amount Minted: ").concat(a.as_str()));
    assert(r.deep_view() =~= audit_lines(mint@, holding@, amount));
    r
}

} // verus!
