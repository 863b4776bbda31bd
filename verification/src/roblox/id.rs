//! Roblox identifiers.
use vstd::prelude::*;

use crate::text::{chars_of, decimal, digit_char};

verus! {

/// A Roblox asset (or badge, or gamepass) id.
#[derive(Clone, Copy, Debug, PartialEq, Eq, Hash, Structural)]
pub struct AssetId(pub u64);

/// A Roblox group id.
#[derive(Clone, Copy, Debug, Default, PartialEq, Eq, Hash, PartialOrd, Ord, Structural)]
pub struct GroupId(pub u64);

/// A Roblox group role id.
#[derive(Clone, Copy, Debug, PartialEq, Eq, Hash, Structural)]
pub struct RoleId(pub u64);

/// A Roblox user id.
#[derive(Clone, Copy, Debug, PartialEq, Eq, Hash, Structural)]
pub struct UserId(pub u64);

/// A Roblox universe (experience) id.
#[derive(Clone, Copy, Debug, Default, PartialEq, Eq, Hash, PartialOrd, Ord, Structural)]
pub struct UniverseId(pub u64);

impl From<u64> for UserId {
    fn from(value: u64) -> (r: Self) {
        UserId(value)
    }
}

impl vstd::std_specs::convert::FromSpecImpl<u64> for UserId {
    open spec fn obeys_from_spec() -> bool {
        true
    }

    open spec fn from_spec(value: u64) -> Self {
        UserId(value)
    }
}

impl From<u64> for UniverseId {
    fn from(value: u64) -> (r: Self) {
        UniverseId(value)
    }
}

impl vstd::std_specs::convert::FromSpecImpl<u64> for UniverseId {
    open spec fn obeys_from_spec() -> bool {
        true
    }

    open spec fn from_spec(value: u64) -> Self {
        UniverseId(value)
    }
}

pub open spec fn is_decimal_digit(c: char) -> bool {
    '0' <= c <= '9'
}

/// The number that a run of decimal digits writes.
pub open spec fn decimal_value(digits: Seq<char>) -> int
    decreases digits.len(),
{
    if digits.len() == 0 {
        0
    } else {
        decimal_value(digits.drop_last()) * 10 + (digits.last() as int - '0' as int)
    }
}

/// The digits of an id's text: all of it after one optional `+`.
pub open spec fn id_digits(text: Seq<char>) -> Seq<char> {
    if text.len() > 0 && text[0] == '+' {
        text.drop_first()
    } else {
        text
    }
}

/// The id that a text writes in decimal: one or more digits after an optional `+`,
/// whose value fits in 64 bits.
pub open spec fn id_from_text(text: Seq<char>) -> Option<u64> {
    let digits = id_digits(text);
    if digits.len() > 0 && (forall|i: int| 0 <= i < digits.len() ==> is_decimal_digit(#[trigger] digits[i]))
        && decimal_value(digits) <= u64::MAX {
        Some(decimal_value(digits) as u64)
    } else {
        None
    }
}

proof fn lemma_decimal_value_nonnegative(digits: Seq<char>)
    requires
        forall|i: int| 0 <= i < digits.len() ==> is_decimal_digit(#[trigger] digits[i]),
    ensures
        decimal_value(digits) >= 0,
    decreases digits.len(),
{
    if digits.len() > 0 {
        lemma_decimal_value_nonnegative(digits.drop_last());
    }
}

proof fn lemma_decimal_value_grows(digits: Seq<char>, k: int)
    requires
        0 <= k <= digits.len(),
        forall|i: int| 0 <= i < digits.len() ==> is_decimal_digit(#[trigger] digits[i]),
    ensures
        decimal_value(digits.take(k)) <= decimal_value(digits),
    decreases digits.len() - k,
{
    if k < digits.len() {
        lemma_decimal_value_grows(digits, k + 1);
        assert(digits.take(k + 1).drop_last() =~= digits.take(k));
        assert(digits.take(k + 1).last() == digits[k]);
        assert(is_decimal_digit(digits[k]));
        lemma_decimal_value_nonnegative(digits.take(k));
    } else {
        assert(digits.take(k) =~= digits);
    }
}

/// Reads an id written in decimal, as a string holding a number is read into an id.
pub fn parse_id(text: &str) -> (r: Option<u64>)
    ensures
        r == id_from_text(text@),
{
    let cs = chars_of(text);
    let start: usize = if cs.len() > 0 && cs[0] == '+' { 1 } else { 0 };
    let ghost digits = id_digits(text@);
    assert(digits =~= cs@.subrange(start as int, cs@.len() as int));
    if start >= cs.len() {
        return None;
    }
    let mut value: u64 = 0;
    let mut i: usize = start;
    while i < cs.len()
        invariant
            start <= i <= cs.len(),
            digits == cs@.subrange(start as int, cs@.len() as int),
            digits == id_digits(text@),
            forall|k: int| 0 <= k < i - start ==> is_decimal_digit(#[trigger] digits[k]),
            value == decimal_value(digits.take(i - start)),
        decreases cs.len() - i,
    {
        let c = cs[i];
        if !('0' <= c && c <= '9') {
            assert(digits[i - start] == c);
            assert(!is_decimal_digit(digits[i - start]));
            assert(id_from_text(text@) is None);
            return None;
        }
        let d = (c as u32 - '0' as u32) as u64;
        assert(digits[i - start] == c);
        assert(digits.take(i - start + 1).drop_last() =~= digits.take(i - start));
        assert(digits.take(i - start + 1).last() == c);
        let grown = match value.checked_mul(10) {
            Some(v) => v.checked_add(d),
            None => None,
        };
        match grown {
            Some(v) => {
                value = v;
            },
            None => {
                proof {
                    let rest_ok = forall|k: int| 0 <= k < digits.len() ==> is_decimal_digit(#[trigger] digits[k]);
                    if rest_ok {
                        lemma_decimal_value_grows(digits, i - start + 1);
                        lemma_decimal_value_nonnegative(digits.take(i - start));
                        assert(decimal_value(digits.take(i - start + 1)) > u64::MAX);
                    }
                    assert(id_from_text(text@) is None);
                }
                return None;
            },
        }
        i += 1;
    }
    assert(digits.take(digits.len() as int) =~= digits);
    Some(value)
}

proof fn lemma_decimal_text(n: nat)
    ensures
        decimal(n).len() >= 1,
        forall|i: int| 0 <= i < decimal(n).len() ==> is_decimal_digit(#[trigger] decimal(n)[i]),
        decimal_value(decimal(n)) == n,
    decreases n,
{
    assert(digit_char(n % 10) as int == '0' as int + n % 10);
    assert(decimal(n).last() == digit_char(n % 10));
    assert(decimal_value(decimal(n)) == decimal_value(decimal(n).drop_last()) * 10 + (decimal(n).last() as int
        - '0' as int));
    if n < 10 {
        assert(decimal(n).drop_last() =~= Seq::<char>::empty());
        assert(decimal_value(Seq::<char>::empty()) == 0);
    } else {
        lemma_decimal_text(n / 10);
        let d = decimal(n / 10);
        assert(decimal(n).drop_last() =~= d);
        assert((n / 10) * 10 + n % 10 == n);
        assert forall|i: int| 0 <= i < decimal(n).len() implies is_decimal_digit(#[trigger] decimal(n)[i]) by {
            if i < d.len() {
                assert(decimal(n)[i] == d[i]);
            }
        }
    }
}

/// An id written in decimal is read back as the same id.
pub proof fn lemma_id_text_round_trip(n: u64)
    ensures
        id_from_text(decimal(n as nat)) == Some(n),
{
    lemma_decimal_text(n as nat);
    assert(is_decimal_digit(decimal(n as nat)[0]));
}

} // verus!
