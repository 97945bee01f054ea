//! What this library takes from the `json` crate: its number printing and
//! fixed-point reading, its parser, and the accessors of the values that the
//! parser hands out. The contracts of the wrappers in this file are believed,
//! not proved; each says which function of the crate it describes.

use vstd::prelude::*;
use vstd::utf8::encode_utf8;
use crate::text::decimal;
use crate::value::{Json, Kind, Number};

verus! {

/// The text that the `json` crate prints for a number with an exponent, as a
/// function of the number's parts. The crate removes trailing zeros of a
/// fraction first, then prints digits, a decimal point or an `e` notation as
/// the parts call for.
pub uninterp spec fn number_text(positive: bool, mantissa: u64, exponent: i16) -> Seq<char>;

/// The integer that the `json` crate reads at zero decimal places from a
/// number that is no plain integer, as a function of the number's parts.
pub uninterp spec fn number_fixed_point(positive: bool, mantissa: u64, exponent: i16) -> Option<
    i64,
>;

/// The sign that is printed before the digits: nothing, or a minus.
pub open spec fn sign_text(positive: bool) -> Seq<char> {
    if positive {
        Seq::empty()
    } else {
        seq!['-']
    }
}

/// The integer with this sign and magnitude, for a magnitude that an `i64`
/// holds.
pub open spec fn signed(positive: bool, mantissa: u64) -> i64 {
    if positive {
        mantissa as i64
    } else {
        (-(mantissa as int)) as i64
    }
}

/// The text of a number: for a number without an exponent its sign and the
/// decimal numeral of its mantissa, for any other what the `json` crate
/// prints.
pub open spec fn printed_number(n: Number) -> Seq<char> {
    if n.exponent == 0 {
        sign_text(n.positive) + decimal(n.mantissa as nat)
    } else {
        number_text(n.positive, n.mantissa, n.exponent)
    }
}

/// What a number reads as at zero decimal places: a plain integer that an
/// `i64` holds as itself, any other number as the `json` crate reads it.
pub open spec fn read_number(n: Number) -> Option<i64> {
    if n.exponent == 0 && n.mantissa <= i64::MAX {
        Some(signed(n.positive, n.mantissa))
    } else {
        number_fixed_point(n.positive, n.mantissa, n.exponent)
    }
}

/// `json::number::Number::from_parts` followed by the number's `Display`:
/// a number without an exponent is printed as its sign and the decimal
/// numeral of its mantissa; the text of any other depends on the three parts
/// alone.
#[verifier::external_body]
pub(crate) fn print_number(positive: bool, mantissa: u64, exponent: i16) -> (text: String)
    ensures
        exponent == 0 ==> text@ == sign_text(positive) + decimal(mantissa as nat),
        exponent != 0 ==> text@ == number_text(positive, mantissa, exponent),
{
    json::number::Number::from_parts(positive, mantissa, exponent).to_string()
}

/// `json::number::Number::from_parts` followed by `as_fixed_point_i64` at
/// zero decimal places: a plain integer that an `i64` holds is returned as it
/// is; the result for any other number depends on the three parts alone. The
/// crate negates the exponent and the mantissa on the way, so the smallest
/// exponent and the negative mantissa `2^63` are left out.
#[verifier::external_body]
pub(crate) fn fixed_point(positive: bool, mantissa: u64, exponent: i16) -> (r: Option<i64>)
    requires
        exponent > i16::MIN,
        positive || mantissa != 0x8000_0000_0000_0000,
    ensures
        exponent == 0 && mantissa <= i64::MAX ==> r == Some(signed(positive, mantissa)),
        !(exponent == 0 && mantissa <= i64::MAX) ==> r == number_fixed_point(
            positive,
            mantissa,
            exponent,
        ),
{
    json::number::Number::from_parts(positive, mantissa, exponent).as_fixed_point_i64(0)
}

/// A value of the `json` crate, as its parser hands it out.
#[verifier::external_type_specification]
#[verifier::external_body]
pub struct ExParsedValue(json::JsonValue);

/// The error that the parser of the `json` crate reports.
#[verifier::external_type_specification]
#[verifier::external_body]
pub struct ExParseError(json::Error);

/// The tree that a value of the `json` crate holds: its variant, its payload
/// (for a number its sign, mantissa and exponent; for either kind of string
/// its characters) and its children in their stored order.
pub uninterp spec fn outside_tree(v: json::JsonValue) -> Json;

/// What `json::parse` makes of a text: the tree of the value it returns, or
/// nothing where it reports an error.
pub uninterp spec fn parsed(text: Seq<char>) -> Option<Json>;

/// The most digits of a fraction that the parser of the `json` crate is
/// handed: it counts them down in a 16-bit exponent, without a check, and
/// one digit more would pass the exponent's lower end.
pub const MAX_FRACTION_DIGITS: usize = 32768;

/// Whether the byte is a decimal digit.
pub open spec fn is_digit_byte(byte: u8) -> bool {
    0x30 <= byte <= 0x39
}

/// Whether the byte is a decimal point.
pub open spec fn is_point_byte(byte: u8) -> bool {
    byte == 0x2e
}

/// The number of digits, up to the end of the first `n` bytes, of the run
/// of decimal digits that the first `n` bytes end with, if that run stands
/// directly behind a decimal point; zero otherwise.
pub open spec fn fraction_run(bytes: Seq<u8>, n: nat) -> nat
    decreases n,
{
    if n == 0 || n > bytes.len() || !is_digit_byte(bytes[n - 1]) {
        0
    } else if fraction_run(bytes, (n - 1) as nat) > 0 {
        fraction_run(bytes, (n - 1) as nat) + 1
    } else if n >= 2 && is_point_byte(bytes[n - 2]) {
        1
    } else {
        0
    }
}

/// Whether the text, in its UTF-8 bytes, has no decimal point with more than
/// [`MAX_FRACTION_DIGITS`] decimal digits directly behind it, in a number or
/// anywhere else.
pub open spec fn fractions_fit(text: Seq<char>) -> bool {
    forall|n: nat|
        n <= encode_utf8(text).len() ==> #[trigger] fraction_run(encode_utf8(text), n)
            <= MAX_FRACTION_DIGITS
}

/// `json::parse`: the outcome depends on the text alone. The parser reads
/// a fraction as the digits directly behind a decimal point and subtracts
/// one from a 16-bit exponent, which starts at zero or above, for each of
/// them; where overflow is checked it panics on the digit after
/// [`MAX_FRACTION_DIGITS`]. Texts with so long a run of digits behind a
/// point are left out. Its other sums are checked or saturating.
#[verifier::external_body]
pub(crate) fn parse_text(text: &str) -> (r: Result<json::JsonValue, json::Error>)
    requires
        fractions_fit(text@),
    ensures
        match r {
            Ok(v) => parsed(text@) == Some(outside_tree(v)),
            Err(_) => parsed(text@) is None,
        },
{
    json::parse(text)
}

/// The variant of a value of the `json` crate. Its two kinds of string, the
/// short one stored in place and the one on the heap, are both strings.
#[verifier::external_body]
pub(crate) fn outside_kind(v: &json::JsonValue) -> (k: Kind)
    ensures
        k == outside_tree(*v).kind(),
{
    match v {
        json::JsonValue::Null => Kind::Null,
        json::JsonValue::Short(_) => Kind::String,
        json::JsonValue::String(_) => Kind::String,
        json::JsonValue::Number(_) => Kind::Number,
        json::JsonValue::Boolean(_) => Kind::Boolean,
        json::JsonValue::Object(_) => Kind::Object,
        json::JsonValue::Array(_) => Kind::Array,
    }
}

/// `json::JsonValue::as_bool`: the payload of a boolean, nothing for another
/// variant.
#[verifier::external_body]
pub(crate) fn outside_bool(v: &json::JsonValue) -> (r: Option<bool>)
    ensures
        r == (match outside_tree(*v) {
            Json::Boolean(b) => Some(b),
            _ => None,
        }),
{
    v.as_bool()
}

/// `json::JsonValue::as_str`: the characters of a string of either kind,
/// nothing for another variant.
#[verifier::external_body]
pub(crate) fn outside_str<'a>(v: &'a json::JsonValue) -> (r: Option<&'a str>)
    ensures
        match outside_tree(*v) {
            Json::String(s) => r matches Some(t) && t@ == s,
            _ => r is None,
        },
{
    v.as_str()
}

/// `json::JsonValue::as_number` and `json::number::Number::as_parts`: the
/// sign, mantissa and exponent of a number, nothing for another variant.
#[verifier::external_body]
pub(crate) fn outside_number(v: &json::JsonValue) -> (r: Option<(bool, u64, i16)>)
    ensures
        r == (match outside_tree(*v) {
            Json::Number(n) => Some((n.positive, n.mantissa, n.exponent)),
            _ => None,
        }),
{
    v.as_number().map(|n| n.as_parts())
}

/// `json::JsonValue::len`: the number of items of an array or of members of
/// an object, zero for another variant.
#[verifier::external_body]
pub(crate) fn outside_len(v: &json::JsonValue) -> (n: usize)
    ensures
        n == (match outside_tree(*v) {
            Json::Array(items) => items.len(),
            Json::Object(members) => members.len(),
            _ => 0,
        }),
{
    v.len()
}

/// `json::JsonValue::members`, at one position: the item of an array at
/// `i`, nothing past the end or for another variant.
#[verifier::external_body]
pub(crate) fn outside_item<'a>(v: &'a json::JsonValue, i: usize) -> (r: Option<&'a json::JsonValue>)
    ensures
        match outside_tree(*v) {
            Json::Array(items) if i < items.len() => r matches Some(item) && outside_tree(*item)
                == items[i as int],
            _ => r is None,
        },
{
    v.members().nth(i)
}

/// `json::JsonValue::entries`, at one position: the key and value of an
/// object's member at `i`, nothing past the end or for another variant.
#[verifier::external_body]
pub(crate) fn outside_member<'a>(v: &'a json::JsonValue, i: usize) -> (r: Option<
    (&'a str, &'a json::JsonValue),
>)
    ensures
        match outside_tree(*v) {
            Json::Object(members) if i < members.len() => r matches Some(member) && member.0@
                == members[i as int].0 && outside_tree(*member.1) == members[i as int].1,
            _ => r is None,
        },
{
    v.entries().nth(i)
}

} // verus!
