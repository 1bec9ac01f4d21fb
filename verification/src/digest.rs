use sha2::Digest;
use vstd::prelude::*;

use crate::text::{hex_lower, push_hex_lower};

verus! {

/// The SHA-256 digest of `data`, as computed by the `sha2` crate.
pub uninterp spec fn sha256(data: Seq<u8>) -> Seq<u8>;

/// SHA-256 gives `a` and `b` different digests unless they are the same bytes: the
/// collision resistance that tamper evidence rests on, which no proof can supply.
pub open spec fn no_collision(a: Seq<u8>, b: Seq<u8>) -> bool {
    a != b ==> sha256(a) != sha256(b)
}

/// Trusted: `sha2::Sha256` fed `data` through `update`, then `finalize`.
/// The contract names the digest `sha256(data@)` and states the documented output
/// size of 32 bytes; nothing else about the digest is claimed.
#[verifier::external_body]
fn sha256_digest(data: &[u8]) -> (out: Vec<u8>)
    ensures
        out@ == sha256(data@),
        out@.len() == 32,
{
    let mut hasher = sha2::Sha256::new();
    hasher.update(data);
    hasher.finalize().to_vec()
}

/// A SHA-256 computation fed in pieces (`sha2::Sha256`), held opaquely: Verus cannot
/// take the declaration of the `sha2` hasher type, whose generic parameters carry
/// `typenum` bounds, so the hasher is kept in a private field and described only by the
/// bytes fed to it so far.
#[verifier::external_body]
pub struct ImageHasher {
    state: sha2::Sha256,
}

/// The bytes fed to `h` so far, in order.
pub uninterp spec fn hasher_fed(h: ImageHasher) -> Seq<u8>;

/// Trusted: `sha2::Sha256::new`. A fresh hasher has been fed nothing.
#[verifier::external_body]
pub(crate) fn hasher_new() -> (h: ImageHasher)
    ensures
        hasher_fed(h) == Seq::<u8>::empty(),
{
    ImageHasher { state: sha2::Sha256::new() }
}

/// Trusted: `Digest::update` on `sha2::Sha256`, which feeds `bytes` after everything fed
/// before; the contract says exactly that of the bytes fed so far.
#[verifier::external_body]
pub(crate) fn hasher_update(h: &mut ImageHasher, bytes: &[u8])
    ensures
        hasher_fed(*final(h)) == hasher_fed(*old(h)) + bytes@,
{
    h.state.update(bytes);
}

/// Trusted: `Digest::finalize` on `sha2::Sha256`. Feeding data in pieces and finalizing
/// gives the digest of all the pieces one after another, so the contract names the
/// result `sha256` of the bytes fed, with its documented size of 32 bytes.
#[verifier::external_body]
pub(crate) fn hasher_finalize(h: ImageHasher) -> (out: Vec<u8>)
    ensures
        out@ == sha256(hasher_fed(h)),
        out@.len() == 32,
{
    h.state.finalize().to_vec()
}

/// The lower-case hexadecimal digest of the bytes fed to `h`.
pub fn hasher_hex(h: ImageHasher) -> (r: String)
    ensures
        r@ == hex_lower(sha256(hasher_fed(h))),
{
    let digest = hasher_finalize(h);
    let mut r = String::new();
    push_hex_lower(&mut r, digest.as_slice());
    r
}

/// The lower-case hexadecimal SHA-256 digest of `data` (64 characters).
pub fn sha256_hex(data: &[u8]) -> (r: String)
    ensures
        r@ == hex_lower(sha256(data@)),
{
    let digest = sha256_digest(data);
    let mut r = String::new();
    push_hex_lower(&mut r, digest.as_slice());
    r
}

} // verus!
