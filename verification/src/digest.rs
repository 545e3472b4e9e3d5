//! Content hashes: SHA-256, written as lowercase hex.
use vstd::prelude::*;

verus! {

/// The SHA-256 digest of `data`.
pub uninterp spec fn sha256(data: Seq<u8>) -> Seq<u8>;

/// `sha2::Sha256::digest`.
///
/// Claims that the result is the named SHA-256 digest of the bytes and that it
/// is 32 bytes long, as the `Sha256` output type fixes.
#[verifier::external_body]
pub(crate) fn sha256_digest(data: &[u8]) -> (r: Vec<u8>)
    ensures
        r@ == sha256(data@),
        r@.len() == 32,
{
    <sha2::Sha256 as sha2::Digest>::digest(data).to_vec()
}

/// The lowercase hex digit for a value below 16.
pub open spec fn hex_digit(n: u8) -> char {
    if n < 10 {
        ((n as u32) + 0x30) as char
    } else {
        ((n as u32) - 10 + 0x61) as char
    }
}

/// Two lowercase hex digits per byte, most significant first.
pub open spec fn hex(bytes: Seq<u8>) -> Seq<char>
    decreases bytes.len(),
{
    if bytes.len() == 0 {
        seq![]
    } else {
        hex(bytes.drop_last()) + seq![
            hex_digit(bytes.last() / 16),
            hex_digit(bytes.last() % 16),
        ]
    }
}

fn hex_digit_exec(n: u8) -> (c: char)
    requires
        n < 16,
    ensures
        c == hex_digit(n),
{
    match n {
        0 => '0',
        1 => '1',
        2 => '2',
        3 => '3',
        4 => '4',
        5 => '5',
        6 => '6',
        7 => '7',
        8 => '8',
        9 => '9',
        10 => 'a',
        11 => 'b',
        12 => 'c',
        13 => 'd',
        14 => 'e',
        _ => 'f',
    }
}

/// Lowercase hex, as `hex::encode` writes it.
pub fn hex_encode(bytes: &[u8]) -> (s: String)
    ensures
        s@ == hex(bytes@),
        s@.len() == 2 * bytes@.len(),
{
    let mut s = String::new();
    let mut i: usize = 0;
    while i < bytes.len()
        invariant
            i <= bytes@.len(),
            s@ == hex(bytes@.take(i as int)),
            s@.len() == 2 * i,
        decreases bytes@.len() - i,
    {
        let b = bytes[i];
        crate::chars::push_char(&mut s, hex_digit_exec(b / 16));
        crate::chars::push_char(&mut s, hex_digit_exec(b % 16));
        assert(bytes@.take(i + 1).drop_last() == bytes@.take(i as int));
        assert(s@ == hex(bytes@.take(i as int)) + seq![hex_digit(b / 16), hex_digit(b % 16)]);
        i += 1;
    }
    assert(bytes@.take(bytes@.len() as int) == bytes@);
    s
}

/// The SHA-256 of `data` in lowercase hex.
pub fn sha256_hex(data: &[u8]) -> (s: String)
    ensures
        s@ == hex(sha256(data@)),
        s@.len() == 64,
{
    let d = sha256_digest(data);
    hex_encode(d.as_slice())
}

/// `n` little-endian bytes of `x`.
pub open spec fn le_bytes(x: nat, n: nat) -> Seq<u8>
    decreases n,
{
    if n == 0 {
        seq![]
    } else {
        seq![(x % 256) as u8] + le_bytes(x / 256, (n - 1) as nat)
    }
}

/// The eight little-endian bytes of `x`, as `u64::to_le_bytes` gives them.
pub fn le_bytes_u64(x: u64) -> (r: Vec<u8>)
    ensures
        r@ == le_bytes(x as nat, 8),
{
    let mut r: Vec<u8> = Vec::new();
    let mut v = x;
    let mut i: usize = 0;
    while i < 8
        invariant
            i <= 8,
            r@ + le_bytes(v as nat, (8 - i) as nat) == le_bytes(x as nat, 8),
        decreases 8 - i,
    {
        let ghost old_r = r@;
        r.push((v % 256) as u8);
        assert(le_bytes(v as nat, (8 - i) as nat) == seq![(v % 256) as u8] + le_bytes(
            (v / 256) as nat,
            (8 - i - 1) as nat,
        ));
        assert(r@ + le_bytes((v / 256) as nat, (8 - i - 1) as nat) == old_r + le_bytes(
            v as nat,
            (8 - i) as nat,
        ));
        v = v / 256;
        i += 1;
    }
    assert(r@ + le_bytes(v as nat, 0) == r@);
    r
}

/// Appends every byte of `bytes` to `v`.
pub fn extend_bytes(v: &mut Vec<u8>, bytes: &[u8])
    ensures
        final(v)@ == old(v)@ + bytes@,
{
    let mut i: usize = 0;
    while i < bytes.len()
        invariant
            i <= bytes@.len(),
            v@ == old(v)@ + bytes@.take(i as int),
        decreases bytes@.len() - i,
    {
        v.push(bytes[i]);
        assert(bytes@.take(i + 1) == bytes@.take(i as int).push(bytes@[i as int]));
        i += 1;
    }
    assert(bytes@.take(bytes@.len() as int) == bytes@);
}

} // verus!
