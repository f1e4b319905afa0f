//! Budget hints: a configuration key `<id>_HOURS` sets a budget of hours for
//! project `<id>`. This module decides which keys are such hints and which
//! project each names; reading the value is left to the caller.
use vstd::prelude::*;

verus! {

/// Whether `s` ends with `suffix`.
pub open spec fn is_suffix_of(suffix: Seq<char>, s: Seq<char>) -> bool {
    suffix.len() <= s.len() && s.subrange(s.len() - suffix.len(), s.len() as int) == suffix
}

/// Relies on `str::ends_with` with a string pattern.
#[verifier::external_body]
fn ends_with(s: &str, suffix: &str) -> (r: bool)
    ensures
        r == is_suffix_of(suffix@, s@),
{
    s.ends_with(suffix)
}

/// `s` with every match of `pattern` removed, matches taken from left to right
/// without overlap.
pub open spec fn without_matches(s: Seq<char>, pattern: Seq<char>) -> Seq<char>
    decreases s.len(),
{
    if s.len() == 0 || pattern.len() == 0 {
        s
    } else if pattern.is_prefix_of(s) {
        without_matches(s.skip(pattern.len() as int), pattern)
    } else {
        seq![s[0]] + without_matches(s.skip(1), pattern)
    }
}

/// Relies on `str::replace` with a string pattern and an empty replacement.
#[verifier::external_body]
fn remove_matches(s: &str, pattern: &str) -> (r: String)
    ensures
        r@ == without_matches(s@, pattern@),
{
    s.replace(pattern, "")
}

/// Whether `c` is one of the ASCII digits.
pub open spec fn is_ascii_digit(c: char) -> bool {
    '0' <= c && c <= '9'
}

/// The number that the decimal digits `digits` write.
pub open spec fn decimal_value(digits: Seq<char>) -> int
    decreases digits.len(),
{
    if digits.len() == 0 {
        0
    } else {
        decimal_value(digits.drop_last()) * 10 + (digits.last() as u32 - '0' as u32)
    }
}

/// `s` without one leading `+`.
pub open spec fn unsigned_digits(s: Seq<char>) -> Seq<char> {
    if s.len() > 0 && s[0] == '+' {
        s.skip(1)
    } else {
        s
    }
}

/// The `u32` that `s` writes: an optional `+`, then one or more ASCII digits
/// whose value fits.
pub open spec fn parsed_u32(s: Seq<char>) -> Option<u32> {
    let digits = unsigned_digits(s);
    if digits.len() > 0 && (forall|i: int| 0 <= i < digits.len() ==> is_ascii_digit(#[trigger] digits[i]))
        && decimal_value(digits) <= u32::MAX {
        Some(decimal_value(digits) as u32)
    } else {
        None
    }
}

/// Relies on `u32`'s `FromStr`, which accepts exactly an optional `+` followed
/// by ASCII digits whose value fits `u32`.
#[verifier::external_body]
fn parse_u32(s: &str) -> (r: Option<u32>)
    ensures
        r == parsed_u32(s@),
{
    s.parse::<u32>().ok()
}

/// The project that a configuration key names a budget for: the key ends with
/// `_HOURS`, and what is left once every `_HOURS` is removed writes a `u32`.
pub open spec fn hint_project(key: Seq<char>) -> Option<u32> {
    if is_suffix_of("_HOURS"@, key) {
        parsed_u32(without_matches(key, "_HOURS"@))
    } else {
        None
    }
}

/// The project whose budget of hours the configuration key `key` sets, if it
/// sets one.
pub fn hours_key_project(key: &str) -> (r: Option<u32>)
    ensures
        r == hint_project(key@),
{
    if !ends_with(key, "_HOURS") {
        return None;
    }
    let rest = remove_matches(key, "_HOURS");
    parse_u32(rest.as_str())
}

} // verus!
