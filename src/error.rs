use vstd::prelude::*;

verus! {

/// Why a proof was not accepted. Every verification step fails with one of
/// these, and no partial result is ever returned alongside it.
#[derive(Clone, Copy, Debug, PartialEq, Eq, Structural)]
pub enum VerifyError {
    /// The input document could not be decoded.
    DeserializationError,
    /// The proof carries no signature of the supported scheme.
    SignatureSchemeMismatch,
    /// The notary's signature does not verify over the header bytes.
    SignatureInvalid,
    /// The handshake decommitment does not open the committed digest.
    DecommitmentMismatch,
    /// The presented certificate chain is malformed.
    CertificateParseError,
    /// The chain does not lead to a trusted root.
    UntrustedChain,
    /// The notarized time lies outside a certificate's validity window.
    ChainExpired,
    /// The domain is not named by the leaf certificate.
    DomainMismatch,
    /// The server's key-exchange signature does not verify.
    HandshakeSignatureInvalid,
    /// A disclosed range exceeds its direction's declared length.
    RangeOutOfBounds,
    /// The disclosed ranges do not open the transcript commitment.
    SliceCommitmentInvalid,
    /// No range is disclosed while the configuration asks for one.
    EmptyProof,
    /// Two disclosed ranges of one direction overlap.
    OverlappingRanges,
    /// A transcript was asked for as text and is not UTF-8.
    Utf8DecodeError,
}

} // verus!
