use vstd::prelude::*;
use vstd::utf8::encode_utf8;
use crate::commitment::{decommitment_outcome, verify_decommitment};
use crate::error::VerifyError;
use crate::header::SessionHeader;
use crate::pki::{pki_outcome, validate_handshake, HandshakeData, TrustStore};
use crate::signature::{signature_outcome, verify_notary_signature, Signature};
use crate::substrings::{
    declared_len, in_direction, lemma_direction_fits, substrings_outcome, SubstringsProof,
};
use crate::transcript::{
    all_fit, covered, lemma_disclosed_bytes_match, models, reconstruct, reconstructed, Direction,
    SliceModel, SENTINEL,
};

verus! {

/// The session-level proof: the signed header, the notary's signature and the
/// opened handshake data.
#[derive(Clone, Debug)]
pub struct SessionProof {
    pub header: SessionHeader,
    pub signature: Option<Signature>,
    pub handshake_data: HandshakeData,
}

/// A whole proof document: the session proof, the disclosed ranges and the
/// server name they are claimed for.
#[derive(Clone, Debug)]
pub struct ProofDocument {
    pub session_proof: SessionProof,
    pub substrings_proof: SubstringsProof,
    pub domain: String,
}

/// Digests recomputed from the document's opening material: the handshake
/// decommitment, and the openings of the disclosed ranges.
#[derive(Clone, Debug)]
pub struct Openings {
    pub handshake_digest: Vec<u8>,
    pub transcript_digest: Vec<u8>,
}

/// What the verifier trusts, fixed before any proof is read.
#[derive(Clone, Debug)]
pub struct TrustConfig {
    /// The notary's P-256 public key, PEM-encoded.
    pub notary_key_pem: String,
    pub trust_store: TrustStore,
    /// Refuse a proof that discloses no range at all.
    pub require_disclosure: bool,
}

/// The outcome of a successful verification: both directions with every
/// undisclosed byte replaced by the sentinel, and the validated domain.
#[derive(Clone, Debug)]
pub struct VerifiedTranscript {
    pub sent: Vec<u8>,
    pub received: Vec<u8>,
    pub domain: String,
}

/// What the session-level checks decide: the signature, then the handshake
/// decommitment, then PKI; the first failure is the answer.
pub open spec fn session_outcome(
    config: TrustConfig,
    proof: SessionProof,
    domain: Seq<u8>,
    handshake_digest: Seq<u8>,
) -> Result<(), VerifyError> {
    let header = proof.header;
    let sig = signature_outcome(config.notary_key_pem@, header.spec_bytes(), proof.signature);
    let opened = decommitment_outcome(
        header.handshake_summary.handshake_commitment@,
        handshake_digest,
    );
    if sig is Err {
        sig
    } else if opened is Err {
        opened
    } else {
        pki_outcome(config.trust_store, proof.handshake_data, header.handshake_summary.time, domain)
    }
}

/// What the whole pipeline returns: the two reconstructed directions, or the
/// first error met.
pub open spec fn verify_outcome(
    config: TrustConfig,
    doc: ProofDocument,
    openings: Openings,
) -> Result<(Seq<u8>, Seq<u8>), VerifyError> {
    let header = doc.session_proof.header;
    let ms = models(doc.substrings_proof.slices@);
    let session = session_outcome(
        config,
        doc.session_proof,
        encode_utf8(doc.domain@),
        openings.handshake_digest@,
    );
    let substrings = substrings_outcome(
        header,
        ms,
        openings.transcript_digest@,
        config.require_disclosure,
    );
    match session {
        Err(e) => Err(e),
        Ok(_) => match substrings {
            Err(e) => Err(e),
            Ok(_) => Ok(
                (
                    reconstructed(header.sent_len as int, in_direction(ms, Direction::Sent)),
                    reconstructed(header.recv_len as int, in_direction(ms, Direction::Received)),
                ),
            ),
        },
    }
}

/// Runs the session-level checks for `domain`.
pub fn verify_session(
    config: &TrustConfig,
    proof: &SessionProof,
    domain: &str,
    handshake_digest: &Vec<u8>,
) -> (r: Result<(), VerifyError>)
    ensures
        r == session_outcome(*config, *proof, encode_utf8(domain@), handshake_digest@),
{
    let header = &proof.header;
    verify_notary_signature(config.notary_key_pem.as_str(), header, &proof.signature)?;
    verify_decommitment(&header.handshake_summary.handshake_commitment, handshake_digest)?;
    validate_handshake(
        &config.trust_store,
        &proof.handshake_data,
        header.handshake_summary.time,
        domain.as_bytes(),
    )
}

/// Verifies a whole proof document and reconstructs the disclosed transcript.
pub fn verify(config: &TrustConfig, doc: &ProofDocument, openings: &Openings) -> (r: Result<
    VerifiedTranscript,
    VerifyError,
>)
    ensures
        match r {
            Ok(t) => {
                &&& verify_outcome(*config, *doc, *openings) == Ok::<(Seq<u8>, Seq<u8>), VerifyError>(
                    (t.sent@, t.received@),
                )
                &&& t.domain@ == doc.domain@
            },
            Err(e) => verify_outcome(*config, *doc, *openings) == Err::<(Seq<u8>, Seq<u8>), VerifyError>(e),
        },
{
    let header = &doc.session_proof.header;
    verify_session(config, &doc.session_proof, doc.domain.as_str(), &openings.handshake_digest)?;
    let (sent_slices, recv_slices) = doc.substrings_proof.verify(
        header,
        &openings.transcript_digest,
        config.require_disclosure,
    )?;
    let sent = reconstruct(header.sent_len, &sent_slices);
    let received = reconstruct(header.recv_len, &recv_slices);
    Ok(VerifiedTranscript { sent, received, domain: doc.domain.clone() })
}

/// The ranges of one direction are ranges of the whole list, of that direction.
pub proof fn lemma_in_direction_members(s: Seq<SliceModel>, d: Direction)
    ensures
        forall|i: int| 0 <= i < in_direction(s, d).len() ==> {
            &&& (#[trigger] in_direction(s, d)[i]).direction == d
            &&& exists|j: int| 0 <= j < s.len() && s[j] == in_direction(s, d)[i]
        },
    decreases s.len(),
{
    if s.len() > 0 {
        let t = s.drop_last();
        lemma_in_direction_members(t, d);
        let r = in_direction(s, d);
        let q = in_direction(t, d);
        assert forall|i: int| 0 <= i < r.len() implies {
            &&& (#[trigger] r[i]).direction == d
            &&& exists|j: int| 0 <= j < s.len() && s[j] == r[i]
        } by {
            if i < q.len() {
                assert(r[i] == q[i]);
                let j = choose|j: int| 0 <= j < t.len() && t[j] == q[i];
                assert(s[j] == t[j]);
            } else {
                assert(r[i] == s[s.len() - 1]);
            }
        }
    }
}

/// The bytes that direction `d` carried in the session.
pub open spec fn session_bytes_of(d: Direction, sent: Seq<u8>, recv: Seq<u8>) -> Seq<u8> {
    match d {
        Direction::Sent => sent,
        Direction::Received => recv,
    }
}

proof fn lemma_direction_matches_session(
    h: SessionHeader,
    ms: Seq<SliceModel>,
    d: Direction,
    sent: Seq<u8>,
    recv: Seq<u8>,
    k: int,
)
    requires
        sent.len() == h.sent_len,
        recv.len() == h.recv_len,
        all_fit(in_direction(ms, d), declared_len(h, d)),
        forall|i: int| 0 <= i < ms.len() ==> (#[trigger] ms[i]).data == session_bytes_of(ms[i].direction, sent, recv).subrange(ms[i].start, ms[i].end),
        0 <= k < declared_len(h, d),
    ensures
        covered(in_direction(ms, d), k) ==> reconstructed(declared_len(h, d), in_direction(ms, d))[k] == session_bytes_of(d, sent, recv)[k],
        !covered(in_direction(ms, d), k) ==> reconstructed(declared_len(h, d), in_direction(ms, d))[k] == SENTINEL,
{
    let f = in_direction(ms, d);
    let orig = session_bytes_of(d, sent, recv);
    lemma_in_direction_members(ms, d);
    assert forall|i: int| 0 <= i < f.len() implies #[trigger] f[i].data == orig.subrange(f[i].start, f[i].end) by {
        let j = choose|j: int| 0 <= j < ms.len() && ms[j] == f[i];
        assert(ms[j].direction == d);
    }
    lemma_disclosed_bytes_match(orig, f, k);
}

/// A proof made honestly, whose session checks pass and whose disclosed ranges
/// are true ranges of the session's bytes, is accepted; each reconstructed
/// direction holds the session's byte at every disclosed position and the
/// sentinel everywhere else.
pub proof fn lemma_honest_proof_accepted(
    config: TrustConfig,
    doc: ProofDocument,
    openings: Openings,
    sent: Seq<u8>,
    recv: Seq<u8>,
)
    requires
        session_outcome(config, doc.session_proof, encode_utf8(doc.domain@), openings.handshake_digest@) is Ok,
        substrings_outcome(
            doc.session_proof.header,
            models(doc.substrings_proof.slices@),
            openings.transcript_digest@,
            config.require_disclosure,
        ) is Ok,
        sent.len() == doc.session_proof.header.sent_len,
        recv.len() == doc.session_proof.header.recv_len,
        forall|i: int| 0 <= i < models(doc.substrings_proof.slices@).len() ==> {
            let m = #[trigger] models(doc.substrings_proof.slices@)[i];
            m.data == session_bytes_of(m.direction, sent, recv).subrange(m.start, m.end)
        },
    ensures
        verify_outcome(config, doc, openings) matches Ok((s, r)) && {
            &&& s.len() == sent.len()
            &&& r.len() == recv.len()
            &&& forall|k: int| 0 <= k < sent.len() ==> #[trigger] s[k] == if covered(in_direction(models(doc.substrings_proof.slices@), Direction::Sent), k) {
                sent[k]
            } else {
                SENTINEL
            }
            &&& forall|k: int| 0 <= k < recv.len() ==> #[trigger] r[k] == if covered(in_direction(models(doc.substrings_proof.slices@), Direction::Received), k) {
                recv[k]
            } else {
                SENTINEL
            }
        },
{
    let h = doc.session_proof.header;
    let ms = models(doc.substrings_proof.slices@);
    lemma_direction_fits(h, ms, Direction::Sent);
    lemma_direction_fits(h, ms, Direction::Received);
    assert forall|k: int| 0 <= k < sent.len() implies #[trigger] reconstructed(h.sent_len as int, in_direction(ms, Direction::Sent))[k] == if covered(in_direction(ms, Direction::Sent), k) {
        sent[k]
    } else {
        SENTINEL
    } by {
        lemma_direction_matches_session(h, ms, Direction::Sent, sent, recv, k);
    }
    assert forall|k: int| 0 <= k < recv.len() implies #[trigger] reconstructed(h.recv_len as int, in_direction(ms, Direction::Received))[k] == if covered(in_direction(ms, Direction::Received), k) {
        recv[k]
    } else {
        SENTINEL
    } by {
        lemma_direction_matches_session(h, ms, Direction::Received, sent, recv, k);
    }
}

/// Success is never silent: the pipeline accepts only a document whose
/// signature is of the supported scheme and verifies over the header bytes.
pub proof fn lemma_accepted_signature_verifies(config: TrustConfig, doc: ProofDocument, openings: Openings)
    requires
        verify_outcome(config, doc, openings) is Ok,
    ensures
        doc.session_proof.signature matches Some(Signature::P256(b)) && crate::signature::p256_accepts(
            config.notary_key_pem@,
            doc.session_proof.header.spec_bytes(),
            b@,
        ),
{
}

/// Once the signature verifies, a handshake digest that differs from the
/// committed one is refused as a decommitment mismatch.
pub proof fn lemma_decommitment_mismatch_rejected(config: TrustConfig, doc: ProofDocument, openings: Openings)
    requires
        signature_outcome(config.notary_key_pem@, doc.session_proof.header.spec_bytes(), doc.session_proof.signature) is Ok,
        openings.handshake_digest@ != doc.session_proof.header.handshake_summary.handshake_commitment@,
    ensures
        verify_outcome(config, doc, openings) == Err::<(Seq<u8>, Seq<u8>), VerifyError>(VerifyError::DecommitmentMismatch),
{
}

/// Disclosing nothing is accepted when the session checks pass and the
/// configuration does not ask for a disclosure; both directions come back as
/// sentinels only.
pub proof fn lemma_empty_disclosure_accepted(config: TrustConfig, doc: ProofDocument, openings: Openings)
    requires
        session_outcome(config, doc.session_proof, encode_utf8(doc.domain@), openings.handshake_digest@) is Ok,
        doc.substrings_proof.slices@.len() == 0,
        !config.require_disclosure,
        openings.transcript_digest@ == doc.session_proof.header.transcript_commitment@,
    ensures
        verify_outcome(config, doc, openings) == Ok::<(Seq<u8>, Seq<u8>), VerifyError>(
            (
                Seq::new(doc.session_proof.header.sent_len as nat, |k: int| SENTINEL),
                Seq::new(doc.session_proof.header.recv_len as nat, |k: int| SENTINEL),
            ),
        ),
{
    let h = doc.session_proof.header;
    let ms = models(doc.substrings_proof.slices@);
    assert(ms =~= Seq::<SliceModel>::empty());
    assert(in_direction(ms, Direction::Sent) =~= Seq::<SliceModel>::empty());
    assert(in_direction(ms, Direction::Received) =~= Seq::<SliceModel>::empty());
    assert(reconstructed(h.sent_len as int, Seq::<SliceModel>::empty()) =~= Seq::new(h.sent_len as nat, |k: int| SENTINEL));
    assert(reconstructed(h.recv_len as int, Seq::<SliceModel>::empty()) =~= Seq::new(h.recv_len as nat, |k: int| SENTINEL));
}

/// Verification depends on its inputs alone: the same document, openings and
/// trust configuration always give the same answer.
pub proof fn lemma_verify_deterministic(
    c1: TrustConfig,
    c2: TrustConfig,
    d1: ProofDocument,
    d2: ProofDocument,
    o1: Openings,
    o2: Openings,
)
    requires
        c1 == c2,
        d1 == d2,
        o1 == o2,
    ensures
        verify_outcome(c1, d1, o1) == verify_outcome(c2, d2, o2),
{
}

} // verus!
