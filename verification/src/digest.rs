//! SHA-256 digests and their lowercase hex form.
use vstd::prelude::*;
use sha2::{Digest, Sha256};

verus! {

/// The SHA-256 digest of `data`, as `sha2::Sha256` computes it.
pub uninterp spec fn sha256_of(data: Seq<u8>) -> Seq<u8>;

/// `sha2::Sha256::digest`: the 32-byte SHA-256 digest of `data`. The contract names the
/// digest [`sha256_of`] and states its length, 32 bytes (the hasher's output size).
#[verifier::external_body]
fn sha256_digest(data: &[u8]) -> (res: Vec<u8>)
    ensures
        res@ == sha256_of(data@),
        res@.len() == 32,
{
    Sha256::digest(data).to_vec()
}

/// The lowercase hex digit for `v < 16`.
pub open spec fn hex_digit(v: nat) -> char {
    if v < 10 {
        (('0' as u32) + v) as char
    } else {
        (('a' as u32) + v - 10) as char
    }
}

/// `data` in lowercase hex, two digits per byte, high nibble first.
pub open spec fn lower_hex(data: Seq<u8>) -> Seq<char>
    decreases data.len(),
{
    if data.len() == 0 {
        seq![]
    } else {
        lower_hex(data.drop_last()) + seq![
            hex_digit((data.last() / 16) as nat),
            hex_digit((data.last() % 16) as nat),
        ]
    }
}

/// `hex::encode`: `data` in lowercase hex. The contract states the whole encoding:
/// for each byte, the digit of its high nibble, then that of its low nibble,
/// from the table `0123456789abcdef`.
#[verifier::external_body]
fn hex_encode(data: &[u8]) -> (res: String)
    ensures
        res@ == lower_hex(data@),
{
    hex::encode(data)
}

/// The SHA-256 of `data` in lowercase hex.
pub open spec fn sha256_hex_of(data: Seq<u8>) -> Seq<char> {
    lower_hex(sha256_of(data))
}

/// The SHA-256 of `data` in lowercase hex.
pub fn sha256_hex(data: &[u8]) -> (res: String)
    ensures
        res@ == sha256_hex_of(data@),
        res@.len() == 64,
{
    let digest = sha256_digest(data);
    proof {
        lemma_lower_hex_len(digest@);
    }
    hex_encode(digest.as_slice())
}

proof fn lemma_lower_hex_len(data: Seq<u8>)
    ensures
        lower_hex(data).len() == 2 * data.len(),
    decreases data.len(),
{
    if data.len() > 0 {
        lemma_lower_hex_len(data.drop_last());
    }
}

proof fn lemma_hex_digit_unique(a: nat, b: nat)
    requires
        a < 16,
        b < 16,
        hex_digit(a) == hex_digit(b),
    ensures
        a == b,
{
    assert(hex_digit(a) as u32 == if a < 10 { 48 + a as int } else { 97 + a as int - 10 });
    assert(hex_digit(b) as u32 == if b < 10 { 48 + b as int } else { 97 + b as int - 10 });
}

/// Lowercase hex loses nothing: equal hex strings come from equal bytes.
pub proof fn lemma_lower_hex_unique(a: Seq<u8>, b: Seq<u8>)
    requires
        lower_hex(a) == lower_hex(b),
    ensures
        a == b,
    decreases a.len(),
{
    lemma_lower_hex_len(a);
    lemma_lower_hex_len(b);
    if a.len() > 0 {
        let n = lower_hex(a).len() as int;
        let pa = lower_hex(a.drop_last());
        let pb = lower_hex(b.drop_last());
        lemma_lower_hex_len(a.drop_last());
        lemma_lower_hex_len(b.drop_last());
        let ta = seq![hex_digit((a.last() / 16) as nat), hex_digit((a.last() % 16) as nat)];
        let tb = seq![hex_digit((b.last() / 16) as nat), hex_digit((b.last() % 16) as nat)];
        assert(lower_hex(a) == pa + ta);
        assert(lower_hex(b) == pb + tb);
        assert(lower_hex(a)[n - 2] == ta[0] && lower_hex(b)[n - 2] == tb[0]);
        assert(lower_hex(a)[n - 1] == ta[1] && lower_hex(b)[n - 1] == tb[1]);
        lemma_hex_digit_unique((a.last() / 16) as nat, (b.last() / 16) as nat);
        lemma_hex_digit_unique((a.last() % 16) as nat, (b.last() % 16) as nat);
        assert(pa =~= lower_hex(a).take(n - 2));
        assert(pb =~= lower_hex(b).take(n - 2));
        lemma_lower_hex_unique(a.drop_last(), b.drop_last());
        assert(a =~= a.drop_last().push(a.last()));
        assert(b =~= b.drop_last().push(b.last()));
    } else {
        assert(a =~= b);
    }
}

} // verus!
