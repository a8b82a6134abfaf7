//! SHA-256 and HMAC-SHA256, computed by the `sha2` and `hmac` crates.
use vstd::prelude::*;
use hmac::{Hmac, Mac};
use sha2::{Digest, Sha256};

verus! {

/// The SHA-256 digest of `data`, as the `sha2` crate computes it.
pub uninterp spec fn sha256_digest(data: Seq<u8>) -> Seq<u8>;

/// The HMAC-SHA256 tag of `data` under `key`, as the `hmac` crate computes it.
pub uninterp spec fn hmac_sha256_tag(key: Seq<u8>, data: Seq<u8>) -> Seq<u8>;

/// Calls `<Sha256 as Digest>::digest`. Trusted: the bytes returned are the
/// digest of `data` (named `sha256_digest`), and there are 32 of them, the
/// output size of the `Sha256` type.
#[verifier::external_body]
fn sha256_vec(data: &[u8]) -> (r: Vec<u8>)
    ensures
        r@ == sha256_digest(data@),
        r@.len() == 32,
{
    Sha256::digest(data).to_vec()
}

/// Calls `Hmac::<Sha256>::new_from_slice`, `Mac::update` and `Mac::finalize`.
/// Trusted: the bytes returned are the tag of `data` under `key` (named
/// `hmac_sha256_tag`), and there are 32 of them, the output size of SHA-256.
/// `new_from_slice` accepts keys of every length (the `hmac` source hashes
/// long keys and pads short ones), so the `unwrap` never panics.
#[verifier::external_body]
fn hmac_sha256_vec(key: &[u8], data: &[u8]) -> (r: Vec<u8>)
    ensures
        r@ == hmac_sha256_tag(key@, data@),
        r@.len() == 32,
{
    let mut mac = <Hmac<Sha256> as Mac>::new_from_slice(key).unwrap();
    mac.update(data);
    mac.finalize().into_bytes().to_vec()
}

/// Copies 32 bytes into an array.
fn to_array32(v: &Vec<u8>) -> (out: [u8; 32])
    requires
        v@.len() == 32,
    ensures
        out@ == v@,
{
    let mut out = [0u8; 32];
    for i in 0..32
        invariant
            v@.len() == 32,
            out@.len() == 32,
            forall|j: int| 0 <= j < i ==> out@[j] == v@[j],
    {
        out[i] = v[i];
    }
    assert(out@ =~= v@);
    out
}

/// The SHA-256 digest of `data`.
pub fn sha256(data: &[u8]) -> (out: [u8; 32])
    ensures
        out@ == sha256_digest(data@),
{
    let v = sha256_vec(data);
    to_array32(&v)
}

/// The HMAC-SHA256 tag of `data` under `key`.
pub fn hmac_sha256_owned(key: &[u8], data: &[u8]) -> (out: [u8; 32])
    ensures
        out@ == hmac_sha256_tag(key@, data@),
{
    let v = hmac_sha256_vec(key, data);
    to_array32(&v)
}

} // verus!
