use notary_proof::{
    ct_eq, name_matches_host, reconstruct, verify_decommitment, verify_notary_signature,
    Direction, HandshakeSummary, SessionHeader, TranscriptSlice, VerifyError,
};

fn header(time: u64, sent_len: u32, recv_len: u32) -> SessionHeader {
    SessionHeader::new(HandshakeSummary::new(time, vec![1; 32]), vec![2; 32], sent_len, recv_len)
}

#[test]
fn header_bytes_layout() {
    let b = header(0x0102030405060708, 0x0A0B0C0D, 5).to_bytes();
    assert_eq!(b.len(), 88);
    assert_eq!(&b[0..8], &[8, 7, 6, 5, 4, 3, 2, 1]);
    assert_eq!(&b[8..12], &[0x0D, 0x0C, 0x0B, 0x0A]);
    assert_eq!(&b[12..16], &[5, 0, 0, 0]);
    assert_eq!(&b[16..24], &[32, 0, 0, 0, 0, 0, 0, 0]);
    assert_eq!(&b[24..56], &[1u8; 32][..]);
    assert_eq!(&b[56..88], &[2u8; 32][..]);
}

#[test]
fn similar_headers_encode_differently() {
    let a = header(1, 256, 0).to_bytes();
    let b = header(1, 0, 256).to_bytes();
    let c = header(257, 0, 0).to_bytes();
    assert_ne!(a, b);
    assert_ne!(a, c);
    assert_ne!(b, c);
    let split_a = SessionHeader::new(HandshakeSummary::new(1, vec![1, 2]), vec![3], 0, 0).to_bytes();
    let split_b = SessionHeader::new(HandshakeSummary::new(1, vec![1]), vec![2, 3], 0, 0).to_bytes();
    assert_ne!(split_a, split_b);
}

#[test]
fn constant_time_compare() {
    assert!(ct_eq(b"abc", b"abc"));
    assert!(!ct_eq(b"abc", b"abd"));
    assert!(!ct_eq(b"abc", b"ab"));
    assert!(ct_eq(b"", b""));
}

#[test]
fn decommitment_check() {
    assert_eq!(verify_decommitment(&vec![3; 32], &vec![3; 32]), Ok(()));
    assert_eq!(verify_decommitment(&vec![3; 32], &vec![4; 32]), Err(VerifyError::DecommitmentMismatch));
}

#[test]
fn names_match_exactly_or_by_wildcard() {
    assert!(name_matches_host(b"example.com", b"example.com"));
    assert!(name_matches_host(b"Example.COM", b"example.com"));
    assert!(name_matches_host(b"*.example.com", b"www.example.com"));
    assert!(!name_matches_host(b"*.example.com", b"example.com"));
    assert!(!name_matches_host(b"*.example.com", b"a.b.example.com"));
    assert!(!name_matches_host(b"example.com", b"example.org"));
    assert!(!name_matches_host(b"www.example.com", b"example.com"));
}

#[test]
fn reconstruct_writes_ranges_over_sentinels() {
    let slices = vec![
        TranscriptSlice::new(Direction::Sent, 1, 3, b"ab".to_vec()),
        TranscriptSlice::new(Direction::Sent, 4, 5, b"c".to_vec()),
    ];
    assert_eq!(reconstruct(6, &slices), b"XabXcX".to_vec());
    assert_eq!(reconstruct(0, &vec![]), Vec::<u8>::new());
}

#[test]
fn malformed_key_refuses_signature() {
    let h = header(1, 2, 3);
    let sig = Some(notary_proof::Signature::P256(vec![0; 64]));
    assert_eq!(verify_notary_signature("not a key", &h, &sig), Err(VerifyError::SignatureInvalid));
    assert_eq!(verify_notary_signature("not a key", &h, &None), Err(VerifyError::SignatureSchemeMismatch));
}
