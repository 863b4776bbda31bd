//! Licence checks against the Lemon Squeezy API: the answers it gives and the
//! forms the requests send.
use vstd::prelude::*;
use vstd::utf8::encode_utf8;

verus! {

pub struct LicenseActivation {
    pub activated: bool,
    pub error: Option<String>,
    pub instance: Option<LicenseInstance>,
    pub meta: LicenseMeta,
}

pub struct LicenseDeactivation {
    pub deactivated: bool,
}

pub struct LicenseInstance {
    pub id: String,
    pub name: String,
}

pub struct LicenseMeta {
    pub product_id: u64,
}

pub struct LicenseValidation {
    pub valid: bool,
}

/// A byte that the form encoding keeps as it is: `*`, `-`, `.`, `_` and the
/// ASCII digits and letters.
pub open spec fn form_safe(b: u8) -> bool {
    b == 42 || b == 45 || b == 46 || b == 95 || (48 <= b && b <= 57) || (65 <= b && b <= 90) || (97
        <= b && b <= 122)
}

/// The upper-case hexadecimal digit of `n` (below 16).
pub open spec fn hex_upper(n: int) -> char {
    if n < 10 {
        (48 + n) as char
    } else {
        (55 + n) as char
    }
}

/// How the form encoding writes one byte: kept, a space as `+`, anything else
/// as `%` and two upper-case hexadecimal digits.
pub open spec fn form_byte(b: u8) -> Seq<char> {
    if form_safe(b) {
        seq![b as char]
    } else if b == 32 {
        seq!['+']
    } else {
        seq!['%', hex_upper(b as int / 16), hex_upper(b as int % 16)]
    }
}

/// The form encoding of a run of bytes, byte by byte.
pub open spec fn form_bytes(bs: Seq<u8>) -> Seq<char>
    decreases bs.len(),
{
    if bs.len() == 0 {
        seq![]
    } else {
        form_bytes(bs.drop_last()) + form_byte(bs.last())
    }
}

/// The form encoding of a text: that of its UTF-8 bytes.
pub open spec fn form_text(t: Seq<char>) -> Seq<char> {
    form_bytes(encode_utf8(t))
}

/// One name and value of a form: both encoded, joined by `=`.
pub open spec fn form_pair(p: (Seq<char>, Seq<char>)) -> Seq<char> {
    form_text(p.0) + seq!['='] + form_text(p.1)
}

/// The `application/x-www-form-urlencoded` form of the pairs, in order,
/// joined by `&`.
pub open spec fn urlencoded(pairs: Seq<(Seq<char>, Seq<char>)>) -> Seq<char>
    decreases pairs.len(),
{
    if pairs.len() == 0 {
        seq![]
    } else if pairs.len() == 1 {
        form_pair(pairs[0])
    } else {
        urlencoded(pairs.drop_last()) + seq!['&'] + form_pair(pairs.last())
    }
}

/// Calls `serde_urlencoded::to_string` on two pairs of strings. It writes
/// each pair with `form_urlencoded`'s `append_pair` (the name and the value
/// through `byte_serialize`, joined by `=`, pairs separated by `&`) and never
/// fails on strings. Claimed: the result is `urlencoded` of the pairs.
#[verifier::external_body]
fn encode_pairs(k1: &str, v1: &str, k2: &str, v2: &str) -> (s: String)
    ensures
        s@ == urlencoded(seq![(k1@, v1@), (k2@, v2@)]),
{
    serde_urlencoded::to_string([(k1, v1), (k2, v2)]).unwrap()
}

/// The form that activates a licence for an instance name.
pub fn activation_form(license_key: &str, instance_name: &str) -> (s: String)
    ensures
        s@ == urlencoded(seq![("license_key"@, license_key@), ("instance_name"@, instance_name@)]),
{
    encode_pairs("license_key", license_key, "instance_name", instance_name)
}

/// The form that names a licence's instance (to deactivate or validate it).
pub fn instance_form(license_key: &str, instance_id: &str) -> (s: String)
    ensures
        s@ == urlencoded(seq![("license_key"@, license_key@), ("instance_id"@, instance_id@)]),
{
    encode_pairs("license_key", license_key, "instance_id", instance_id)
}

/// Whether an HTTP status is a success (200 to 299).
pub fn is_success(status: u16) -> (r: bool)
    ensures
        r == (200 <= status && status <= 299),
{
    200 <= status && status <= 299
}

} // verus!
