//! Verification of notarized TLS session proofs: the notary's signature over
//! the session header, the opening of the handshake commitment, PKI checks on
//! the server's certificate chain, the disclosed transcript ranges, and the
//! reconstruction of the redacted transcript.

pub mod commitment;
pub mod error;
pub mod header;
pub mod pipeline;
pub mod pki;
pub mod signature;
pub mod substrings;
pub mod transcript;

pub use commitment::{ct_eq, verify_decommitment};
pub use error::VerifyError;
pub use header::{HandshakeSummary, SessionHeader};
pub use pipeline::{
    verify, verify_session, Openings, ProofDocument, SessionProof, TrustConfig, VerifiedTranscript,
};
pub use pki::{
    name_matches_host, validate_handshake, CertificateInfo, HandshakeData, ParsedChain, TrustStore,
};
pub use signature::{verify_notary_signature, Signature};
pub use substrings::SubstringsProof;
pub use transcript::{reconstruct, Direction, TranscriptSlice, SENTINEL};
