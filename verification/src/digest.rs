//! Fingerprints: SHA-256 digests in hexadecimal notation.
use sha2::{Digest, Sha256};
use vstd::prelude::*;

verus! {

/// The SHA-256 digest of some bytes.
pub uninterp spec fn sha256_of(bytes: Seq<u8>) -> Seq<u8>;

/// `sha2::Sha256::digest`: the SHA-256 digest of the bytes, which is 32 bytes
/// long. Which bytes those are is left unsaid.
#[verifier::external_body]
fn sha256(bytes: &Vec<u8>) -> (r: Vec<u8>)
    ensures
        r@ == sha256_of(bytes@),
        r@.len() == 32,
{
    Sha256::digest(bytes).to_vec()
}

/// The hexadecimal digit for a number below sixteen.
pub open spec fn hex_digit(n: int) -> char {
    if n < 10 {
        (('0' as u32) + n as u32) as char
    } else {
        (('a' as u32) + (n - 10) as u32) as char
    }
}

/// The first `n` bytes in hexadecimal notation, two digits for each.
pub open spec fn hex_of(bytes: Seq<u8>, n: int) -> Seq<char>
    decreases n,
{
    if n <= 0 {
        Seq::empty()
    } else {
        hex_of(bytes, n - 1).push(hex_digit(bytes[n - 1] as int / 16)).push(
            hex_digit(bytes[n - 1] as int % 16),
        )
    }
}

/// The SHA-256 digest of some bytes in hexadecimal notation.
pub open spec fn fingerprint(bytes: Seq<u8>) -> Seq<char> {
    hex_of(sha256_of(bytes), sha256_of(bytes).len() as int)
}

proof fn hex_len(bytes: Seq<u8>, n: int)
    requires
        0 <= n,
    ensures
        hex_of(bytes, n).len() == 2 * n,
    decreases n,
{
    if n > 0 {
        hex_len(bytes, n - 1);
    }
}

fn hex_char(n: u8) -> (r: char)
    requires
        n < 16,
    ensures
        r == hex_digit(n as int),
{
    if n < 10 {
        (48 + n) as char
    } else {
        (87 + n) as char
    }
}

/// The SHA-256 digest of some bytes in hexadecimal notation: 64 digits.
pub fn sha256_hex(bytes: &Vec<u8>) -> (r: String)
    ensures
        r@ == fingerprint(bytes@),
        r@.len() == 64,
{
    let digest: Vec<u8> = sha256(bytes);
    let mut out: String = String::new();
    let mut n: usize = 0;
    assert(out@ =~= Seq::empty());
    while n < digest.len()
        invariant
            n <= digest.len(),
            out@ == hex_of(digest@, n as int),
        decreases digest.len() - n,
    {
        let byte: u8 = digest[n];
        out.push(hex_char(byte / 16));
        out.push(hex_char(byte % 16));
        n = n + 1;
    }
    proof {
        hex_len(digest@, 32);
    }
    out
}

} // verus!
