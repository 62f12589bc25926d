//! UUIDs: reading them from text, writing them out, and drawing fresh
//! random ones.

use vstd::prelude::*;

verus! {

/// What `uuid::Uuid::parse_str` reads from `text`, as the 128-bit value.
pub uninterp spec fn parsed_uuid(text: Seq<char>) -> Option<u128>;

/// `uuid::Uuid::parse_str(text).ok()`, as the 128-bit value. The contract
/// names the result; it does not restate the accepted spellings.
#[verifier::external_body]
pub(crate) fn parse_uuid(text: &str) -> (r: Option<u128>)
    ensures
        r == parsed_uuid(text@),
{
    match uuid::Uuid::parse_str(text) {
        Ok(u) => Some(u.as_u128()),
        Err(_) => None,
    }
}

/// `uuid::Uuid::new_v4()`, as the 128-bit value. The value is random; what
/// every outcome has is the version-4 nibble (`4`) and the RFC variant
/// bits (`10`), which `new_v4` sets over the random bits.
#[verifier::external_body]
pub(crate) fn random_uuid() -> (r: u128)
    ensures
        r & 0xf000_c000_0000_0000_0000u128 == 0x4000_8000_0000_0000_0000u128,
{
    uuid::Uuid::new_v4().as_u128()
}


/// The lowercase hexadecimal digit of `d` (below 16).
pub open spec fn hex_char(d: nat) -> char {
    if d < 10 {
        (('0' as u32) + d) as char
    } else {
        (('a' as u32) + d - 10) as char
    }
}

/// The last `n` hexadecimal digits of `x`, most significant first.
pub open spec fn hex_digits(x: nat, n: nat) -> Seq<char>
    decreases n,
{
    if n == 0 {
        Seq::empty()
    } else {
        hex_digits(x / 16, (n - 1) as nat).push(hex_char(x % 16))
    }
}

/// The hyphenated form `Uuid`'s `Display` writes: 32 lowercase hexadecimal
/// digits in groups of 8, 4, 4, 4 and 12.
pub open spec fn uuid_text(id: u128) -> Seq<char> {
    hex_digits(id as nat / 0x1_0000_0000_0000_0000_0000_0000, 8) + seq!['-']
        + hex_digits(id as nat / 0x1_0000_0000_0000_0000_0000, 4) + seq!['-']
        + hex_digits(id as nat / 0x1_0000_0000_0000_0000, 4) + seq!['-']
        + hex_digits(id as nat / 0x1_0000_0000_0000, 4) + seq!['-'] + hex_digits(id as nat, 12)
}

pub proof fn lemma_hex_digits_len(x: nat, n: nat)
    ensures
        hex_digits(x, n).len() == n,
    decreases n,
{
    if n > 0 {
        lemma_hex_digits_len(x / 16, (n - 1) as nat);
    }
}

/// The hexadecimal digit of `d`.
fn hex_char_exec(d: u8) -> (r: char)
    requires
        d < 16,
    ensures
        r == hex_char(d as nat),
{
    if d < 10 {
        (('0' as u8) + d) as char
    } else {
        (('a' as u8) + d - 10) as char
    }
}

/// The last `n` hexadecimal digits of `x`.
fn hex_digits_exec(x: u128, n: usize) -> (r: Vec<char>)
    ensures
        r@ == hex_digits(x as nat, n as nat),
    decreases n,
{
    if n == 0 {
        Vec::new()
    } else {
        let mut r = hex_digits_exec(x / 16, n - 1);
        r.push(hex_char_exec((x % 16) as u8));
        r
    }
}

/// `Uuid::from_u128(id).to_string()`: the hyphenated form.
pub fn uuid_string(id: u128) -> (r: String)
    ensures
        r@ == uuid_text(id),
        r@.len() == 36,
{
    let mut v = hex_digits_exec(id / 0x1_0000_0000_0000_0000_0000_0000, 8);
    v.push('-');
    let a = hex_digits_exec(id / 0x1_0000_0000_0000_0000_0000, 4);
    let b = hex_digits_exec(id / 0x1_0000_0000_0000_0000, 4);
    let c = hex_digits_exec(id / 0x1_0000_0000_0000, 4);
    let d = hex_digits_exec(id, 12);
    let mut w = crate::text::concat_chars(v.as_slice(), a.as_slice());
    w.push('-');
    let mut w = crate::text::concat_chars(w.as_slice(), b.as_slice());
    w.push('-');
    let mut w = crate::text::concat_chars(w.as_slice(), c.as_slice());
    w.push('-');
    let w = crate::text::concat_chars(w.as_slice(), d.as_slice());
    proof {
        lemma_hex_digits_len(id as nat / 0x1_0000_0000_0000_0000_0000_0000, 8);
        lemma_hex_digits_len(id as nat / 0x1_0000_0000_0000_0000_0000, 4);
        lemma_hex_digits_len(id as nat / 0x1_0000_0000_0000_0000, 4);
        lemma_hex_digits_len(id as nat / 0x1_0000_0000_0000, 4);
        lemma_hex_digits_len(id as nat, 12);
        assert(w@ =~= uuid_text(id));
    }
    crate::text::string_of(w.as_slice())
}

} // verus!
