use notary_proof::{
    verify, CertificateInfo, Direction, HandshakeData, HandshakeSummary, Openings, ParsedChain,
    ProofDocument, SessionHeader, SessionProof, Signature, SubstringsProof, TranscriptSlice,
    TrustConfig, TrustStore, VerifyError, SENTINEL,
};
use p256::ecdsa::signature::Signer;
use p256::pkcs8::{EncodePublicKey, LineEnding};

const SENT: &[u8] = b"GET / HTTP\n";
const RECV: &[u8] = b"HTTP/1.1 200 OK\r\n\r\nx";

fn signing_key() -> p256::ecdsa::SigningKey {
    p256::ecdsa::SigningKey::from_slice(&[7u8; 32]).unwrap()
}

fn key_pem(key: &p256::ecdsa::SigningKey) -> String {
    key.verifying_key().to_public_key_pem(LineEnding::LF).unwrap()
}

fn header(sent_len: u32, recv_len: u32) -> SessionHeader {
    SessionHeader::new(
        HandshakeSummary::new(1_700_000_000, vec![0xAA; 32]),
        vec![0xBB; 32],
        sent_len,
        recv_len,
    )
}

fn sign(key: &p256::ecdsa::SigningKey, h: &SessionHeader) -> Signature {
    let sig: p256::ecdsa::Signature = key.sign(&h.to_bytes());
    Signature::P256(sig.to_bytes().to_vec())
}

fn leaf(names: &[&str], not_before: u64, not_after: u64) -> CertificateInfo {
    CertificateInfo {
        not_before,
        not_after,
        dns_names: names.iter().map(|n| n.as_bytes().to_vec()).collect(),
    }
}

fn chain(names: &[&str]) -> ParsedChain {
    ParsedChain {
        certificates: vec![leaf(names, 1_600_000_000, 1_800_000_000), leaf(&[], 1_500_000_000, 1_900_000_000)],
        root_key: vec![1, 2, 3, 4],
        path_valid: true,
        handshake_signature_valid: true,
    }
}

fn config(key: &p256::ecdsa::SigningKey) -> TrustConfig {
    TrustConfig {
        notary_key_pem: key_pem(key),
        trust_store: TrustStore::new(vec![vec![9, 9], vec![1, 2, 3, 4]]),
        require_disclosure: false,
    }
}

fn slice(direction: Direction, start: u32, end: u32, data: &[u8]) -> TranscriptSlice {
    TranscriptSlice::new(direction, start, end, data.to_vec())
}

fn document(key: &p256::ecdsa::SigningKey, slices: Vec<TranscriptSlice>) -> ProofDocument {
    let h = header(SENT.len() as u32, RECV.len() as u32);
    let signature = Some(sign(key, &h));
    ProofDocument {
        session_proof: SessionProof {
            header: h,
            signature,
            handshake_data: HandshakeData { chain: Some(chain(&["example.com"])) },
        },
        substrings_proof: SubstringsProof::new(slices),
        domain: "example.com".to_string(),
    }
}

fn openings() -> Openings {
    Openings { handshake_digest: vec![0xAA; 32], transcript_digest: vec![0xBB; 32] }
}

fn full_slices() -> Vec<TranscriptSlice> {
    vec![slice(Direction::Sent, 0, 11, SENT), slice(Direction::Received, 0, 20, RECV)]
}

#[test]
fn full_disclosure_scenario() {
    let key = signing_key();
    let doc = document(&key, full_slices());
    let t = verify(&config(&key), &doc, &openings()).unwrap();
    assert_eq!(t.sent, SENT.to_vec());
    assert_eq!(t.received, RECV.to_vec());
    assert!(!t.sent.contains(&SENTINEL));
    assert_eq!(t.domain, "example.com");
}

#[test]
fn partial_disclosure_fills_sentinel() {
    let key = signing_key();
    let doc = document(
        &key,
        vec![
            slice(Direction::Sent, 0, 3, b"GET"),
            slice(Direction::Received, 9, 12, b"200"),
        ],
    );
    let t = verify(&config(&key), &doc, &openings()).unwrap();
    assert_eq!(t.sent, b"GETXXXXXXXX".to_vec());
    assert_eq!(t.received, b"XXXXXXXXX200XXXXXXXX".to_vec());
}

#[test]
fn no_disclosure_gives_only_sentinels() {
    let key = signing_key();
    let doc = document(&key, vec![]);
    let t = verify(&config(&key), &doc, &openings()).unwrap();
    assert_eq!(t.sent, vec![b'X'; 11]);
    assert_eq!(t.received, vec![b'X'; 20]);
}

#[test]
fn empty_proof_refused_when_disclosure_required() {
    let key = signing_key();
    let doc = document(&key, vec![]);
    let mut cfg = config(&key);
    cfg.require_disclosure = true;
    assert_eq!(verify(&cfg, &doc, &openings()).unwrap_err(), VerifyError::EmptyProof);
}

#[test]
fn flipped_signature_bit_is_refused() {
    let key = signing_key();
    let cfg = config(&key);
    for bit in [0usize, 7, 100, 511] {
        let mut doc = document(&key, full_slices());
        if let Some(Signature::P256(bytes)) = &mut doc.session_proof.signature {
            bytes[bit / 8] ^= 1 << (bit % 8);
        }
        let e = verify(&cfg, &doc, &openings()).unwrap_err();
        assert!(e == VerifyError::SignatureInvalid || e == VerifyError::SignatureSchemeMismatch);
    }
}

#[test]
fn missing_signature_is_scheme_mismatch() {
    let key = signing_key();
    let mut doc = document(&key, full_slices());
    doc.session_proof.signature = None;
    assert_eq!(verify(&config(&key), &doc, &openings()).unwrap_err(), VerifyError::SignatureSchemeMismatch);
}

#[test]
fn other_notary_key_is_refused() {
    let key = signing_key();
    let other = p256::ecdsa::SigningKey::from_slice(&[8u8; 32]).unwrap();
    let doc = document(&key, full_slices());
    assert_eq!(verify(&config(&other), &doc, &openings()).unwrap_err(), VerifyError::SignatureInvalid);
}

#[test]
fn altered_header_is_refused() {
    let key = signing_key();
    let mut doc = document(&key, full_slices());
    doc.session_proof.header.recv_len = 21;
    assert_eq!(verify(&config(&key), &doc, &openings()).unwrap_err(), VerifyError::SignatureInvalid);
}

#[test]
fn altered_decommitment_is_refused() {
    let key = signing_key();
    let doc = document(&key, full_slices());
    let mut o = openings();
    o.handshake_digest[5] ^= 0x10;
    assert_eq!(verify(&config(&key), &doc, &o).unwrap_err(), VerifyError::DecommitmentMismatch);
}

#[test]
fn unparsed_chain_is_refused() {
    let key = signing_key();
    let mut doc = document(&key, full_slices());
    doc.session_proof.handshake_data.chain = None;
    assert_eq!(verify(&config(&key), &doc, &openings()).unwrap_err(), VerifyError::CertificateParseError);
}

#[test]
fn untrusted_root_is_refused() {
    let key = signing_key();
    let mut doc = document(&key, full_slices());
    doc.session_proof.handshake_data.chain.as_mut().unwrap().root_key = vec![5, 5, 5];
    assert_eq!(verify(&config(&key), &doc, &openings()).unwrap_err(), VerifyError::UntrustedChain);
}

#[test]
fn broken_path_is_refused() {
    let key = signing_key();
    let mut doc = document(&key, full_slices());
    doc.session_proof.handshake_data.chain.as_mut().unwrap().path_valid = false;
    assert_eq!(verify(&config(&key), &doc, &openings()).unwrap_err(), VerifyError::UntrustedChain);
}

#[test]
fn certificate_outside_window_is_refused() {
    let key = signing_key();
    let mut doc = document(&key, full_slices());
    let c = doc.session_proof.handshake_data.chain.as_mut().unwrap();
    c.certificates[1].not_after = 1_699_999_999;
    assert_eq!(verify(&config(&key), &doc, &openings()).unwrap_err(), VerifyError::ChainExpired);
}

#[test]
fn wrong_domain_is_refused() {
    let key = signing_key();
    let mut doc = document(&key, full_slices());
    doc.domain = "example.org".to_string();
    assert_eq!(verify(&config(&key), &doc, &openings()).unwrap_err(), VerifyError::DomainMismatch);
}

#[test]
fn bad_handshake_signature_is_refused() {
    let key = signing_key();
    let mut doc = document(&key, full_slices());
    doc.session_proof.handshake_data.chain.as_mut().unwrap().handshake_signature_valid = false;
    assert_eq!(verify(&config(&key), &doc, &openings()).unwrap_err(), VerifyError::HandshakeSignatureInvalid);
}

#[test]
fn range_past_declared_length_is_refused() {
    let key = signing_key();
    let doc = document(&key, vec![slice(Direction::Sent, 5, 12, b"HTTP\n!!")]);
    let mut o = openings();
    o.transcript_digest = vec![0; 32];
    assert_eq!(verify(&config(&key), &doc, &o).unwrap_err(), VerifyError::RangeOutOfBounds);
}

#[test]
fn wrong_transcript_digest_is_refused() {
    let key = signing_key();
    let doc = document(&key, full_slices());
    let mut o = openings();
    o.transcript_digest[0] = 0;
    assert_eq!(verify(&config(&key), &doc, &o).unwrap_err(), VerifyError::SliceCommitmentInvalid);
}

#[test]
fn plaintext_of_wrong_length_is_refused() {
    let key = signing_key();
    let doc = document(&key, vec![slice(Direction::Sent, 0, 4, b"GET")]);
    assert_eq!(verify(&config(&key), &doc, &openings()).unwrap_err(), VerifyError::SliceCommitmentInvalid);
}

#[test]
fn overlapping_ranges_are_refused() {
    let key = signing_key();
    let doc = document(
        &key,
        vec![slice(Direction::Sent, 0, 4, b"GET "), slice(Direction::Sent, 3, 5, b" /")],
    );
    assert_eq!(verify(&config(&key), &doc, &openings()).unwrap_err(), VerifyError::OverlappingRanges);
}

#[test]
fn same_positions_in_two_directions_do_not_overlap() {
    let key = signing_key();
    let doc = document(
        &key,
        vec![slice(Direction::Sent, 0, 4, b"GET "), slice(Direction::Received, 0, 4, b"HTTP")],
    );
    let t = verify(&config(&key), &doc, &openings()).unwrap();
    assert_eq!(t.sent, b"GET XXXXXXX".to_vec());
}

#[test]
fn verifying_twice_gives_the_same_answer() {
    let key = signing_key();
    let cfg = config(&key);
    let doc = document(&key, full_slices());
    let a = verify(&cfg, &doc, &openings()).unwrap();
    let b = verify(&cfg, &doc, &openings()).unwrap();
    assert_eq!((a.sent, a.received, a.domain), (b.sent, b.received, b.domain));
    let mut bad = doc.clone();
    bad.domain = "other.com".to_string();
    assert_eq!(verify(&cfg, &bad, &openings()).unwrap_err(), verify(&cfg, &bad, &openings()).unwrap_err());
}
