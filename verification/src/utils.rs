//! Password and session-token hashing: SHA-256, then standard base64 without padding.

use base64::engine::general_purpose::STANDARD_NO_PAD;
use base64::Engine;
use sha2::{Digest, Sha256};
use vstd::prelude::*;

verus! {

/// The SHA-256 digest of `data`, as computed by the `sha2` crate.
pub uninterp spec fn sha256_digest(data: Seq<u8>) -> Seq<u8>;

/// The character of the standard base64 alphabet (RFC 4648, table 1) for a 6-bit value.
pub open spec fn base64_char(v: int) -> char {
    if v < 26 {
        ('A' as int + v) as char
    } else if v < 52 {
        ('a' as int + (v - 26)) as char
    } else if v < 62 {
        ('0' as int + (v - 52)) as char
    } else if v == 62 {
        '+'
    } else {
        '/'
    }
}

/// Standard base64 (RFC 4648, section 4) of `data`, without `=` padding.
pub open spec fn base64_no_pad(data: Seq<u8>) -> Seq<char>
    decreases data.len(),
{
    let b0 = data[0] as int;
    let b1 = data[1] as int;
    let b2 = data[2] as int;
    if data.len() == 0 {
        Seq::empty()
    } else if data.len() == 1 {
        seq![base64_char(b0 / 4), base64_char((b0 % 4) * 16)]
    } else if data.len() == 2 {
        seq![base64_char(b0 / 4), base64_char((b0 % 4) * 16 + b1 / 16), base64_char((b1 % 16) * 4)]
    } else {
        seq![
            base64_char(b0 / 4),
            base64_char((b0 % 4) * 16 + b1 / 16),
            base64_char((b1 % 16) * 4 + b2 / 64),
            base64_char(b2 % 64),
        ] + base64_no_pad(data.skip(3))
    }
}

/// Unpadded base64 spends four characters on each three bytes and two or three
/// on a last one or two.
pub proof fn lemma_base64_len(data: Seq<u8>)
    ensures
        base64_no_pad(data).len() == (data.len() / 3) * 4 + if data.len() % 3 == 0 {
            0
        } else {
            data.len() % 3 + 1
        },
    decreases data.len(),
{
    if data.len() >= 3 {
        lemma_base64_len(data.skip(3));
    }
}

/// Distinct 6-bit values have distinct base64 characters.
pub proof fn lemma_base64_char_injective(v: int, w: int)
    requires
        0 <= v < 64,
        0 <= w < 64,
        base64_char(v) == base64_char(w),
    ensures
        v == w,
{
    let cv = base64_char(v) as int;
    let cw = base64_char(w) as int;
    assert(cv == cw);
}

/// Distinct byte sequences have distinct unpadded base64 texts.
pub proof fn lemma_base64_injective(x: Seq<u8>, y: Seq<u8>)
    requires
        base64_no_pad(x) == base64_no_pad(y),
    ensures
        x == y,
    decreases x.len(),
{
    lemma_base64_len(x);
    lemma_base64_len(y);
    assert(x.len() == y.len());
    let ex = base64_no_pad(x);
    let ey = base64_no_pad(y);
    if x.len() == 0 {
        assert(x =~= y);
    } else {
        let (x0, y0) = (x[0] as int, y[0] as int);
        assert(ex[0] == ey[0]);
        lemma_base64_char_injective(x0 / 4, y0 / 4);
        if x.len() == 1 {
            assert(ex[1] == ey[1]);
            lemma_base64_char_injective((x0 % 4) * 16, (y0 % 4) * 16);
            assert(x0 == y0);
            assert(x =~= y);
        } else {
            let (x1, y1) = (x[1] as int, y[1] as int);
            assert(ex[1] == ey[1]);
            lemma_base64_char_injective((x0 % 4) * 16 + x1 / 16, (y0 % 4) * 16 + y1 / 16);
            assert(x0 == y0);
            assert(x1 / 16 == y1 / 16);
            if x.len() == 2 {
                assert(ex[2] == ey[2]);
                lemma_base64_char_injective((x1 % 16) * 4, (y1 % 16) * 4);
                assert(x1 == y1);
                assert(x =~= y);
            } else {
                let (x2, y2) = (x[2] as int, y[2] as int);
                assert(ex[2] == ey[2]);
                lemma_base64_char_injective((x1 % 16) * 4 + x2 / 64, (y1 % 16) * 4 + y2 / 64);
                assert(x1 == y1);
                assert(ex[3] == ey[3]);
                lemma_base64_char_injective(x2 % 64, y2 % 64);
                assert(x2 == y2);
                assert(base64_no_pad(x.skip(3)) =~= ex.subrange(4, ex.len() as int));
                assert(base64_no_pad(y.skip(3)) =~= ey.subrange(4, ey.len() as int));
                lemma_base64_injective(x.skip(3), y.skip(3));
                assert forall|i: int| 0 <= i < x.len() implies x[i] == y[i] by {
                    if i >= 3 {
                        assert(x.skip(3)[i - 3] == y.skip(3)[i - 3]);
                    }
                }
                assert(x =~= y);
            }
        }
    }
}

/// Inputs with equal hash texts have equal SHA-256 digests: the text is a
/// one-to-one rendering of the digest of the whole input.
pub proof fn equal_hashes_mean_equal_digests(a: Seq<u8>, b: Seq<u8>)
    requires
        hash_text(a) == hash_text(b),
    ensures
        sha256_digest(a) == sha256_digest(b),
{
    lemma_base64_injective(sha256_digest(a), sha256_digest(b));
}

/// The text that `generate_hash` produces for `data`.
pub open spec fn hash_text(data: Seq<u8>) -> Seq<char> {
    base64_no_pad(sha256_digest(data))
}

/// Calls `sha2::Sha256::digest`. Trusted: the result is the SHA-256 digest of
/// `data` (named `sha256_digest`), which is always 32 bytes long.
#[verifier::external_body]
fn sha256(data: &[u8]) -> (digest: Vec<u8>)
    requires
        data@.len() < 0x1000_0000_0000_0000,
    ensures
        digest@ == sha256_digest(data@),
        digest@.len() == 32,
{
    Sha256::digest(data).to_vec()
}

/// Calls `base64::Engine::encode` on the `STANDARD_NO_PAD` engine. Trusted: the
/// result is the standard-alphabet base64 text of `data` with no padding, as the
/// crate documents; the length bound keeps its size computation from overflowing.
#[verifier::external_body]
fn encode_base64_no_pad(data: &[u8]) -> (text: String)
    requires
        data@.len() * 4 <= usize::MAX,
    ensures
        text@ == base64_no_pad(data@),
{
    STANDARD_NO_PAD.encode(data)
}

/// Hashes `inp` with SHA-256 and renders the digest as unpadded standard base64.
pub fn generate_hash(inp: &[u8]) -> (hash: String)
    requires
        inp@.len() < 0x1000_0000_0000_0000,
    ensures
        hash@ == hash_text(inp@),
        hash@ == base64_no_pad(sha256_digest(inp@)),
        hash@.len() == 43,
{
    let digest = sha256(inp);
    proof {
        lemma_base64_len(digest@);
    }
    encode_base64_no_pad(digest.as_slice())
}

/// The `len` low-order bytes of `n`, most significant first.
pub open spec fn be_bytes(n: nat, len: nat) -> Seq<u8>
    decreases len,
{
    if len == 0 {
        Seq::empty()
    } else {
        be_bytes(n / 256, (len - 1) as nat).push((n % 256) as u8)
    }
}

/// `be_bytes(n, len)` has `len` bytes.
pub proof fn lemma_be_bytes_len(n: nat, len: nat)
    ensures
        be_bytes(n, len).len() == len,
    decreases len,
{
    if len > 0 {
        lemma_be_bytes_len(n / 256, (len - 1) as nat);
    }
}

/// The `len` low-order bytes of `n`, most significant first.
fn low_bytes_be(n: u128, len: usize) -> (bytes: Vec<u8>)
    requires
        len <= 16,
    ensures
        bytes@ == be_bytes(n as nat, len as nat),
    decreases len,
{
    if len == 0 {
        Vec::new()
    } else {
        let mut bytes = low_bytes_be(n / 256, len - 1);
        bytes.push((n % 256) as u8);
        bytes
    }
}

/// The sixteen big-endian bytes of `n`, as `u128::to_be_bytes` gives them.
pub fn u128_be_bytes(n: u128) -> (bytes: Vec<u8>)
    ensures
        bytes@ == be_bytes(n as nat, 16),
        bytes@.len() == 16,
{
    proof {
        lemma_be_bytes_len(n as nat, 16);
    }
    low_bytes_be(n, 16)
}

} // verus!
