use vstd::prelude::*;
use elliptic_curve::pkcs8::DecodePublicKey;
use p256::ecdsa::signature::Verifier;
use crate::error::VerifyError;
use crate::header::SessionHeader;

verus! {

/// A notary signature, tagged by scheme.
#[derive(Clone, Debug)]
pub enum Signature {
    /// ECDSA over NIST P-256 with SHA-256, as the 64 bytes `r || s`.
    P256(Vec<u8>),
}

/// Whether P-256 ECDSA accepts `sig` over `msg` under the PEM-encoded key.
pub uninterp spec fn p256_accepts(key_pem: Seq<char>, msg: Seq<u8>, sig: Seq<u8>) -> bool;

/// Relies on p256's ECDSA: `VerifyingKey::from_public_key_pem` decodes the
/// key, `Signature::from_slice` reads the fixed-size signature bytes, and
/// `Verifier::verify` checks it over the SHA-256 digest of `msg`. A key or a
/// signature that does not decode is a rejection. The answer depends on the
/// three inputs alone.
#[verifier::external_body]
fn p256_verify(key_pem: &str, msg: &[u8], sig: &[u8]) -> (r: bool)
    ensures
        r == p256_accepts(key_pem@, msg@, sig@),
{
    match (p256::ecdsa::VerifyingKey::from_public_key_pem(key_pem), p256::ecdsa::Signature::from_slice(sig)) {
        (Ok(key), Ok(sig)) => key.verify(msg, &sig).is_ok(),
        _ => false,
    }
}

/// What the signature check decides for a header encoded as `msg`.
pub open spec fn signature_outcome(key_pem: Seq<char>, msg: Seq<u8>, sig: Option<Signature>) -> Result<(), VerifyError> {
    match sig {
        None => Err(VerifyError::SignatureSchemeMismatch),
        Some(Signature::P256(bytes)) => if p256_accepts(key_pem, msg, bytes@) {
            Ok(())
        } else {
            Err(VerifyError::SignatureInvalid)
        },
    }
}

/// Checks the notary's signature over the canonical bytes of `header`.
pub fn verify_notary_signature(
    key_pem: &str,
    header: &SessionHeader,
    signature: &Option<Signature>,
) -> (r: Result<(), VerifyError>)
    ensures
        r == signature_outcome(key_pem@, header.spec_bytes(), *signature),
{
    match signature {
        None => Err(VerifyError::SignatureSchemeMismatch),
        Some(Signature::P256(bytes)) => {
            let msg = header.to_bytes();
            if p256_verify(key_pem, msg.as_slice(), bytes.as_slice()) {
                Ok(())
            } else {
                Err(VerifyError::SignatureInvalid)
            }
        },
    }
}

} // verus!
