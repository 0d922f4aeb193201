//! SHA-256 digests rendered as lowercase hexadecimal text.

use sha2::Digest;
use vstd::prelude::*;

use crate::text::string_of;

verus! {

/// The SHA-256 digest of `data`.
pub uninterp spec fn sha256_digest(data: Seq<u8>) -> Seq<u8>;

/// Calls `sha2::Sha256::digest`. Trusted: the result is the digest of `data`
/// (named by `sha256_digest`) and is 32 bytes long, as SHA-256 always is.
#[verifier::external_body]
fn sha256(data: &[u8]) -> (d: Vec<u8>)
    ensures
        d@ == sha256_digest(data@),
        d@.len() == 32,
{
    sha2::Sha256::digest(data).to_vec()
}

/// The lowercase hexadecimal digit for `n` (`0 <= n < 16`).
pub open spec fn hex_digit(n: int) -> char {
    if n < 10 {
        (48 + n) as char
    } else {
        (87 + n) as char
    }
}

/// Two lowercase hexadecimal digits per byte, most significant nibble first.
pub open spec fn lower_hex(b: Seq<u8>) -> Seq<char>
    decreases b.len(),
{
    if b.len() == 0 {
        Seq::empty()
    } else {
        seq![hex_digit((b[0] / 16) as int), hex_digit((b[0] % 16) as int)] + lower_hex(b.drop_first())
    }
}

/// The hexadecimal SHA-256 text of `data`.
pub open spec fn sha256_hex(data: Seq<u8>) -> Seq<char> {
    lower_hex(sha256_digest(data))
}

/// Every character of `s` is a lowercase hexadecimal digit.
pub open spec fn is_lower_hex(s: Seq<char>) -> bool {
    forall|i: int| 0 <= i < s.len() ==> ('0' <= #[trigger] s[i] <= '9' || 'a' <= s[i] <= 'f')
}

/// The hexadecimal text of `b` has two lowercase digits per byte.
pub proof fn lemma_lower_hex_shape(b: Seq<u8>)
    ensures
        lower_hex(b).len() == 2 * b.len(),
        is_lower_hex(lower_hex(b)),
    decreases b.len(),
{
    if b.len() > 0 {
        lemma_lower_hex_shape(b.drop_first());
        let h = seq![hex_digit((b[0] / 16) as int), hex_digit((b[0] % 16) as int)];
        let t = lower_hex(b.drop_first());
        assert(lower_hex(b) == h + t);
        assert forall|i: int| 0 <= i < (h + t).len() implies ('0' <= #[trigger] (h + t)[i] <= '9' || 'a' <= (h + t)[i] <= 'f') by {
            if i >= 2 {
                assert((h + t)[i] == t[i - 2]);
            }
        }
    }
}

fn nibble_char(n: u8) -> (c: char)
    requires
        n < 16,
    ensures
        c == hex_digit(n as int),
{
    match n {
        0 => '0',
        1 => '1',
        2 => '2',
        3 => '3',
        4 => '4',
        5 => '5',
        6 => '6',
        7 => '7',
        8 => '8',
        9 => '9',
        10 => 'a',
        11 => 'b',
        12 => 'c',
        13 => 'd',
        14 => 'e',
        _ => 'f',
    }
}

/// Lowercase hexadecimal text of `data`.
pub fn to_lower_hex(data: &[u8]) -> (s: String)
    ensures
        s@ == lower_hex(data@),
{
    let mut out: Vec<char> = Vec::new();
    let mut i: usize = 0;
    assert(data@.skip(0) == data@);
    while i < data.len()
        invariant
            i <= data@.len(),
            lower_hex(data@) == out@ + lower_hex(data@.skip(i as int)),
        decreases data@.len() - i,
    {
        let b = data[i];
        out.push(nibble_char(b / 16));
        out.push(nibble_char(b % 16));
        assert(data@.skip(i as int).drop_first() == data@.skip(i + 1));
        i = i + 1;
    }
    assert(data@.skip(i as int) == Seq::<u8>::empty());
    string_of(out.as_slice())
}

/// The SHA-256 digest of `data` as 64 lowercase hexadecimal characters.
pub fn sha256_hex_text(data: &[u8]) -> (s: String)
    ensures
        s@ == sha256_hex(data@),
        s@.len() == 64,
        is_lower_hex(s@),
{
    let d = sha256(data);
    proof { lemma_lower_hex_shape(d@); }
    to_lower_hex(d.as_slice())
}

/// Appends every byte of `src` to `dst`.
pub fn push_bytes(dst: &mut Vec<u8>, src: &[u8])
    ensures
        final(dst)@ == old(dst)@ + src@,
{
    let mut i: usize = 0;
    while i < src.len()
        invariant
            i <= src@.len(),
            dst@ == old(dst)@ + src@.take(i as int),
        decreases src@.len() - i,
    {
        dst.push(src[i]);
        assert(src@.take(i + 1) == src@.take(i as int).push(src@[i as int]));
        i = i + 1;
    }
    assert(src@.take(i as int) == src@);
}

} // verus!
