//! Short digests of strings, for naming cache directories.

use vstd::prelude::*;
use std::collections::hash_map::DefaultHasher;
use std::hash::BuildHasher;
use std::hash::BuildHasherDefault;
use crate::text::joined;
use crate::text::push_char;

verus! {

/// The 64-bit hash that the standard library's default hasher, in its first
/// state, gives to a string.
pub uninterp spec fn str_hash(s: Seq<char>) -> u64;

/// The hexadecimal digit of a value below sixteen, in lower case.
pub open spec fn hex_digit(n: int) -> char {
    if n == 0 {
        '0'
    } else if n == 1 {
        '1'
    } else if n == 2 {
        '2'
    } else if n == 3 {
        '3'
    } else if n == 4 {
        '4'
    } else if n == 5 {
        '5'
    } else if n == 6 {
        '6'
    } else if n == 7 {
        '7'
    } else if n == 8 {
        '8'
    } else if n == 9 {
        '9'
    } else if n == 10 {
        'a'
    } else if n == 11 {
        'b'
    } else if n == 12 {
        'c'
    } else if n == 13 {
        'd'
    } else if n == 14 {
        'e'
    } else {
        'f'
    }
}

/// The last `width` hexadecimal digits of `v`, the most significant first.
pub open spec fn hex(v: nat, width: nat) -> Seq<char>
    decreases width,
{
    if width == 0 {
        Seq::empty()
    } else {
        hex(v / 16, (width - 1) as nat).push(hex_digit((v % 16) as int))
    }
}

/// The digest of a string: sixteen hexadecimal digits.
pub open spec fn digest(s: Seq<char>) -> Seq<char> {
    hex(str_hash(s) as nat, 16)
}

/// Written with a width, a number has that many digits.
pub proof fn lemma_hex_len(v: nat, width: nat)
    ensures
        hex(v, width).len() == width,
    decreases width,
{
    if width > 0 {
        lemma_hex_len(v / 16, (width - 1) as nat);
    }
}

/// Hashes a string with `BuildHasher::hash_one` on the builder of default
/// hashers: a `DefaultHasher` in its first state is fed the string and read.
/// The standard library says that all such hashers are the same, so equal
/// strings get equal hashes; which number a string gets is not stated here.
#[verifier::external_body]
fn default_hash(s: &str) -> (h: u64)
    ensures
        h == str_hash(s@),
{
    BuildHasher::hash_one(&BuildHasherDefault::<DefaultHasher>::default(), s)
}

/// Exec form of [`hex_digit`].
fn digit_char(n: u64) -> (c: char)
    requires
        n < 16,
    ensures
        c == hex_digit(n as int),
{
    if n == 0 {
        '0'
    } else if n == 1 {
        '1'
    } else if n == 2 {
        '2'
    } else if n == 3 {
        '3'
    } else if n == 4 {
        '4'
    } else if n == 5 {
        '5'
    } else if n == 6 {
        '6'
    } else if n == 7 {
        '7'
    } else if n == 8 {
        '8'
    } else if n == 9 {
        '9'
    } else if n == 10 {
        'a'
    } else if n == 11 {
        'b'
    } else if n == 12 {
        'c'
    } else if n == 13 {
        'd'
    } else if n == 14 {
        'e'
    } else {
        'f'
    }
}

/// Writes a number as sixteen hexadecimal digits, padded with zeros.
pub fn hex16(v: u64) -> (r: String)
    ensures
        r@ == hex(v as nat, 16),
        r@.len() == 16,
{
    proof {
        lemma_hex_len(v as nat, 16);
    }
    let mut digits: Vec<char> = Vec::new();
    let mut rest: u64 = v;
    let mut k: usize = 0;
    while k < 16
        invariant
            k <= 16,
            digits.len() == k,
            hex(v as nat, 16) == hex(rest as nat, (16 - k) as nat) + digits@.reverse(),
        decreases 16 - k,
    {
        let d = digit_char(rest % 16);
        digits.push(d);
        rest = rest / 16;
        k += 1;
    }
    let mut out = String::new();
    let mut i: usize = 16;
    while i > 0
        invariant
            i <= 16,
            digits.len() == 16,
            out@ == digits@.reverse().take(16 - i),
        decreases i,
    {
        i -= 1;
        push_char(&mut out, digits[i]);
    }
    out
}

/// The digest of a string: its hash as sixteen hexadecimal digits.
pub fn hash_string(string: &str) -> (r: String)
    ensures
        r@ == digest(string@),
        r@.len() == 16,
{
    hex16(default_hash(string))
}

/// The digest of a repository address and a ref, joined by `@`.
pub fn hash_url_ref(url: &str, ref_: &str) -> (r: String)
    ensures
        r@ == digest(url@ + "@"@ + ref_@),
{
    let a = joined(url, "@");
    let b = joined(a.as_str(), ref_);
    hash_string(b.as_str())
}

} // verus!
