//! Amounts and hashes as text: decimal numbers with a fixed count of
//! fraction digits, and bytes as lower-case hex digits.

use vstd::prelude::*;
use ethers::types::U256;
use ethers::utils::ConversionError;
use crate::uint256::Uint256;

verus! {

/// The error of `ethers::utils::format_units`.
#[verifier::external_type_specification]
#[verifier::external_body]
pub struct ExConversionError(ConversionError);

/// The character of a digit below sixteen.
pub open spec fn digit_char(d: nat) -> char {
    seq!['0', '1', '2', '3', '4', '5', '6', '7', '8', '9', 'a', 'b', 'c', 'd', 'e', 'f'][d as int]
}

/// Ten to the power `e`.
pub open spec fn pow10(e: nat) -> nat
    decreases e,
{
    if e == 0 {
        1
    } else {
        10 * pow10((e - 1) as nat)
    }
}

/// The decimal digits of `n`, without leading zeros; `0` for zero.
pub open spec fn decimal_text(n: nat) -> Seq<char>
    decreases n,
{
    if n < 10 {
        seq![digit_char(n)]
    } else {
        decimal_text(n / 10).push(digit_char(n % 10))
    }
}

/// `count` zeros.
pub open spec fn zeros(count: int) -> Seq<char> {
    Seq::new(
        if count > 0 {
            count as nat
        } else {
            0
        },
        |i: int| '0',
    )
}

/// `amount` divided by ten to the `units`, written out: the whole part, a
/// point, and the remainder filled with zeros on the left to `units`
/// digits.
pub open spec fn units_text(amount: nat, units: nat) -> Seq<char> {
    let whole = decimal_text(amount / pow10(units));
    let fraction = decimal_text(amount % pow10(units));
    whole + seq!['.'] + zeros(units - fraction.len()) + fraction
}

/// The largest count of fraction digits for which a 256-bit amount is
/// written out.
pub open spec fn max_units() -> nat {
    77
}

/// The text of zero, which stands in where an amount cannot be written out.
pub open spec fn zero_text() -> Seq<char> {
    seq!['0', '.', '0']
}

/// An amount of base units as a decimal number of whole tokens.
pub open spec fn amount_text(amount: nat, decimals: nat) -> Seq<char> {
    if decimals <= max_units() {
        units_text(amount, decimals)
    } else {
        zero_text()
    }
}

/// Two lower-case hex digits for each byte, in order.
pub open spec fn hex_text(bytes: Seq<u8>) -> Seq<char>
    decreases bytes.len(),
{
    if bytes.len() == 0 {
        Seq::empty()
    } else {
        hex_text(bytes.drop_last()).push(digit_char((bytes.last() / 16) as nat)).push(
            digit_char((bytes.last() % 16) as nat),
        )
    }
}

/// What `str::to_lowercase` makes of a text.
pub uninterp spec fn spec_to_lowercase(text: Seq<char>) -> Seq<char>;

/// The text `0.0`.
pub fn zero_string() -> (r: String)
    ensures
        r@ == zero_text(),
{
    proof {
        reveal_strlit("0.0");
    }
    let r = "0.0".to_owned();
    assert(r@ =~= zero_text());
    r
}

/// An amount of base units of a token with `decimals` decimals, as a
/// decimal number of whole tokens; `0.0` where `decimals` is above 77.
pub fn format_amount(amount: &Uint256, decimals: u8) -> (r: String)
    ensures
        r@ == amount_text(amount@, decimals as nat),
{
    match format_units(*amount, decimals as u32) {
        Ok(text) => text,
        Err(_) => zero_string(),
    }
}

/// The bytes as lower-case hex digits after `0x`.
pub fn prefixed_hex(bytes: &[u8]) -> (r: String)
    ensures
        r@ == seq!['0', 'x'] + hex_text(bytes@),
{
    proof {
        reveal_strlit("0x");
    }
    let mut r = "0x".to_owned();
    assert(r@ =~= seq!['0', 'x']);
    let digits = hex_encode(bytes);
    r.append(digits.as_str());
    r
}

/// `ethers::utils::format_units` on a `U256` and a count of digits: it
/// fails from 78 digits on, and else writes the quotient by the power of
/// ten, a point, and the remainder filled with zeros to the count of digits.
#[verifier::external_body]
pub(crate) fn format_units(amount: Uint256, units: u32) -> (r: Result<String, ConversionError>)
    ensures
        (r is Ok) <==> units <= max_units(),
        r matches Ok(text) ==> text@ == units_text(amount@, units as nat),
{
    ethers::utils::format_units(U256([amount.w0, amount.w1, amount.w2, amount.w3]), units)
}

/// `str::to_lowercase` of the standard library: the text in lower case.
#[verifier::external_body]
pub(crate) fn to_lowercase(text: &str) -> (r: String)
    ensures
        r@ == spec_to_lowercase(text@),
{
    text.to_lowercase()
}

/// `ethers::utils::hex::encode`: two lower-case hex digits for each byte.
#[verifier::external_body]
pub(crate) fn hex_encode(bytes: &[u8]) -> (r: String)
    ensures
        r@ == hex_text(bytes@),
{
    ethers::utils::hex::encode(bytes)
}

} // verus!
