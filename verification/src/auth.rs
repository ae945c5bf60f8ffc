//! Bearer authentication for the inference gateway: the credential a request
//! presents, and its constant-time comparison with the configured key.

use vstd::prelude::*;
use vstd::string::StringSliceAdditionalSpecFns;

use sha2::{Digest, Sha256};
use subtle::ConstantTimeEq;

verus! {

/// The SHA-256 digest of a byte string.
pub uninterp spec fn sha256_of(data: Seq<u8>) -> Seq<u8>;

/// `sha2::Sha256::digest`: the SHA-256 digest of `data`, 32 bytes long. The
/// contract names the digest and states its length; nothing else of the hash
/// (such as collision resistance) is claimed.
#[verifier::external_body]
fn sha256_digest(data: &[u8]) -> (digest: Vec<u8>)
    ensures
        digest@ == sha256_of(data@),
        digest@.len() == 32,
{
    Sha256::digest(data).to_vec()
}

/// `subtle`'s `ConstantTimeEq` on byte slices, as a `bool`: true exactly when
/// the slices have the same length and the same bytes.
#[verifier::external_body]
fn constant_time_eq(a: &[u8], b: &[u8]) -> (eq: bool)
    ensures
        eq == (a@ == b@),
{
    a.ct_eq(b).into()
}

/// Whether a presented secret matches the configured one: their SHA-256
/// digests are equal.
pub open spec fn secrets_match(presented: Seq<u8>, configured: Seq<u8>) -> bool {
    sha256_of(presented) == sha256_of(configured)
}

/// Constant-time credential comparison.
///
/// Both inputs are hashed to fixed-length SHA-256 digests before comparison, so
/// the comparison operates on equal-length data (no early length-based
/// short-circuit) and leaks neither the configured key's length nor its bytes.
pub fn secret_eq(presented: &[u8], configured: &[u8]) -> (eq: bool)
    ensures
        eq == secrets_match(presented@, configured@),
{
    let presented = sha256_digest(presented);
    let configured = sha256_digest(configured);
    constant_time_eq(presented.as_slice(), configured.as_slice())
}

/// Equal secrets always match, and matching does not depend on argument order.
pub proof fn lemma_secrets_match(a: Seq<u8>, b: Seq<u8>)
    ensures
        secrets_match(a, a),
        secrets_match(a, b) == secrets_match(b, a),
        a == b ==> secrets_match(a, b),
{
}

/// The bytes of the `Bearer ` scheme prefix.
pub open spec fn bearer_prefix() -> Seq<u8> {
    "Bearer ".spec_bytes()
}

/// The credential an `Authorization` header value presents: what follows the
/// `Bearer ` prefix, or nothing when the header is missing or has another
/// scheme.
pub open spec fn credential_of(header: Option<Seq<u8>>) -> Seq<u8> {
    match header {
        Some(h) => if h.len() >= bearer_prefix().len() && h.take(bearer_prefix().len() as int)
            == bearer_prefix() {
            h.skip(bearer_prefix().len() as int)
        } else {
            Seq::empty()
        },
        None => Seq::empty(),
    }
}

pub open spec fn header_bytes(header: Option<&str>) -> Option<Seq<u8>> {
    match header {
        Some(h) => Some(h.spec_bytes()),
        None => None,
    }
}

/// The credential a request presents in its `Authorization` header value
/// (`None` when the header is missing or not visible ASCII).
pub fn bearer_credential(header: Option<&str>) -> (credential: Vec<u8>)
    ensures
        credential@ == credential_of(header_bytes(header)),
{
    match header {
        None => {
            let empty = Vec::new();
            assert(empty@ == credential_of(header_bytes(header)));
            empty
        },
        Some(h) => {
            let bytes = h.as_bytes();
            let prefix = "Bearer ".as_bytes();
            proof {
                assert(prefix@ == bearer_prefix());
                assert(bytes@ == h.spec_bytes());
            }
            if bytes.len() < prefix.len() {
                let empty = Vec::new();
                assert(empty@ == credential_of(header_bytes(header)));
                return empty;
            }
            let mut index: usize = 0;
            while index < prefix.len()
                invariant
                    index <= prefix@.len() <= bytes@.len(),
                    prefix@ == bearer_prefix(),
                    bytes@ == h.spec_bytes(),
                    header == Some(h),
                    forall|i: int| 0 <= i < index ==> bytes@[i] == prefix@[i],
                decreases prefix@.len() - index,
            {
                if bytes[index] != prefix[index] {
                    proof {
                        assert(bytes@.take(prefix@.len() as int)[index as int] != prefix@[index as int]);
                        assert(bytes@.take(prefix@.len() as int) != prefix@);
                    }
                    let empty = Vec::new();
                    assert(empty@ == credential_of(header_bytes(header)));
                    return empty;
                }
                index = index + 1;
            }
            proof {
                assert(bytes@.take(prefix@.len() as int) =~= prefix@);
            }
            let rest = vstd::slice::slice_subrange(bytes, prefix.len(), bytes.len());
            proof {
                assert(rest@ =~= bytes@.skip(prefix@.len() as int));
            }
            let credential = vstd::slice::slice_to_vec(rest);
            assert(credential@ == credential_of(header_bytes(header)));
            credential
        },
    }
}

/// Why a gateway request was refused.
#[derive(Debug, PartialEq, Eq)]
pub enum AuthError {
    /// The presented bearer token does not match the configured key.
    Unauthorized,
}

/// Compares the request's bearer token against the configured key.
pub fn check_auth(header: Option<&str>, configured: &str) -> (result: Result<(), AuthError>)
    ensures
        result is Ok <==> secrets_match(credential_of(header_bytes(header)), configured.spec_bytes()),
        result is Err ==> result == Err::<(), AuthError>(AuthError::Unauthorized),
{
    let presented = bearer_credential(header);
    if secret_eq(presented.as_slice(), configured.as_bytes()) {
        Ok(())
    } else {
        Err(AuthError::Unauthorized)
    }
}

/// A request bearing the configured key under the `Bearer ` scheme is
/// authorized.
pub proof fn lemma_bearer_key_authorizes(key: Seq<u8>)
    ensures
        credential_of(Some(bearer_prefix() + key)) == key,
        secrets_match(credential_of(Some(bearer_prefix() + key)), key),
{
    let h = bearer_prefix() + key;
    assert(h.take(bearer_prefix().len() as int) =~= bearer_prefix());
    assert(h.skip(bearer_prefix().len() as int) =~= key);
}

} // verus!
