//! SHA-256 digests rendered as lowercase hexadecimal text.
use sha2::Digest;
use vstd::prelude::*;

verus! {

/// The SHA-256 digest of `bytes`, as computed by the `sha2` crate.
pub uninterp spec fn sha256_digest(bytes: Seq<u8>) -> Seq<u8>;

/// `sha2::Sha256::digest`: the 32-byte SHA-256 digest of `bytes`. The contract names the digest
/// and states its length (the output type is a 32-byte array); the hash function itself is not
/// restated.
#[verifier::external_body]
fn sha256(bytes: &[u8]) -> (r: Vec<u8>)
    ensures
        r@ == sha256_digest(bytes@),
        r@.len() == 32,
{
    sha2::Sha256::digest(bytes).to_vec()
}

/// The lowercase hexadecimal digit for `d < 16`.
pub open spec fn hex_digit(d: int) -> char {
    if d < 10 {
        ((d + 48) as u8) as char
    } else {
        ((d + 87) as u8) as char
    }
}

/// Each byte as two lowercase hexadecimal digits, most significant first (`{:02x}` per byte).
pub open spec fn hex(bytes: Seq<u8>) -> Seq<char>
    decreases bytes.len(),
{
    if bytes.len() == 0 {
        Seq::empty()
    } else {
        hex(bytes.drop_last()) + seq![
            hex_digit(bytes.last() as int / 16),
            hex_digit(bytes.last() as int % 16),
        ]
    }
}

/// The hexadecimal SHA-256 digest of `bytes`.
pub open spec fn hex_sha256(bytes: Seq<u8>) -> Seq<char> {
    hex(sha256_digest(bytes))
}

proof fn lemma_hex_len(bytes: Seq<u8>)
    ensures
        hex(bytes).len() == 2 * bytes.len(),
    decreases bytes.len(),
{
    if bytes.len() > 0 {
        lemma_hex_len(bytes.drop_last());
    }
}

fn hex_digit_char(d: u8) -> (c: char)
    requires
        d < 16,
    ensures
        c == hex_digit(d as int),
{
    if d < 10 {
        ((d + 48) as u8) as char
    } else {
        ((d + 87) as u8) as char
    }
}

/// Lowercase hexadecimal text of `bytes`.
pub fn hex_string(bytes: &Vec<u8>) -> (s: String)
    ensures
        s@ == hex(bytes@),
{
    let mut out: Vec<char> = Vec::new();
    let mut i: usize = 0;
    proof {
        assert(bytes@.take(0) =~= Seq::<u8>::empty());
    }
    while i < bytes.len()
        invariant
            i <= bytes.len(),
            out@ == hex(bytes@.take(i as int)),
        decreases bytes.len() - i,
    {
        let b = bytes[i];
        out.push(hex_digit_char(b / 16));
        out.push(hex_digit_char(b % 16));
        proof {
            let t = bytes@.take(i + 1);
            assert(t.drop_last() =~= bytes@.take(i as int));
            assert(t.last() == b);
            assert(out@ =~= hex(bytes@.take(i as int)) + seq![
                hex_digit(b as int / 16),
                hex_digit(b as int % 16),
            ]);
        }
        i = i + 1;
    }
    proof {
        assert(bytes@.take(bytes.len() as int) =~= bytes@);
    }
    crate::text::string_of(&out)
}

/// The UTF-8 bytes of `text`.
pub fn utf8_bytes(text: &str) -> (b: Vec<u8>)
    ensures
        b@ == vstd::utf8::encode_utf8(text@),
{
    let bytes = text.as_bytes();
    let mut b: Vec<u8> = Vec::new();
    let mut i: usize = 0;
    while i < bytes.len()
        invariant
            i <= bytes@.len(),
            bytes@ == vstd::utf8::encode_utf8(text@),
            b@ == bytes@.take(i as int),
        decreases bytes@.len() - i,
    {
        b.push(bytes[i]);
        proof {
            assert(bytes@.take(i + 1) =~= bytes@.take(i as int).push(bytes@[i as int]));
        }
        i = i + 1;
    }
    proof {
        assert(bytes@.take(i as int) =~= bytes@);
    }
    b
}

/// Lowercase hexadecimal SHA-256 digest of `bytes` (64 characters).
pub fn sha256_hex(bytes: &Vec<u8>) -> (s: String)
    ensures
        s@ == hex_sha256(bytes@),
        s@.len() == 64,
{
    let digest = sha256(bytes.as_slice());
    proof {
        lemma_hex_len(digest@);
    }
    hex_string(&digest)
}

/// Lowercase hexadecimal SHA-256 digest of the UTF-8 bytes of `text`.
pub fn text_sha256_hex(text: &str) -> (s: String)
    ensures
        s@ == hex_sha256(vstd::utf8::encode_utf8(text@)),
        s@.len() == 64,
{
    let bytes = utf8_bytes(text);
    sha256_hex(&bytes)
}

} // verus!
