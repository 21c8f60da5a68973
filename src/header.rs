use vstd::prelude::*;

verus! {

/// What the notary saw of the handshake: the time it signed at (seconds since
/// the Unix epoch) and a commitment to the handshake data.
#[derive(Clone, Debug)]
pub struct HandshakeSummary {
    pub time: u64,
    pub handshake_commitment: Vec<u8>,
}

/// The header that the notary signs.
#[derive(Clone, Debug)]
pub struct SessionHeader {
    pub handshake_summary: HandshakeSummary,
    /// Commitment to the whole application-data transcript, both directions.
    pub transcript_commitment: Vec<u8>,
    pub sent_len: u32,
    pub recv_len: u32,
}

/// Little-endian bytes of a 32-bit value.
pub open spec fn le32(x: u32) -> Seq<u8> {
    seq![x as u8, (x >> 8u32) as u8, (x >> 16u32) as u8, (x >> 24u32) as u8]
}

/// Little-endian bytes of a 64-bit value.
pub open spec fn le64(x: u64) -> Seq<u8> {
    seq![
        x as u8, (x >> 8u64) as u8, (x >> 16u64) as u8, (x >> 24u64) as u8,
        (x >> 32u64) as u8, (x >> 40u64) as u8, (x >> 48u64) as u8, (x >> 56u64) as u8,
    ]
}

impl HandshakeSummary {
    pub fn new(time: u64, handshake_commitment: Vec<u8>) -> (r: HandshakeSummary)
        ensures
            r.time == time,
            r.handshake_commitment@ == handshake_commitment@,
    {
        HandshakeSummary { time, handshake_commitment }
    }

    pub fn time(&self) -> (r: u64)
        ensures
            r == self.time,
    {
        self.time
    }

    pub fn handshake_commitment(&self) -> (r: &Vec<u8>)
        ensures
            r@ == self.handshake_commitment@,
    {
        &self.handshake_commitment
    }
}

impl SessionHeader {
    /// The canonical encoding that the notary signs: time, sent length,
    /// received length and the handshake digest's length in little-endian
    /// order, then the handshake digest and the transcript digest.
    pub open spec fn spec_bytes(&self) -> Seq<u8> {
        let c = self.handshake_summary.handshake_commitment@;
        le64(self.handshake_summary.time) + le32(self.sent_len) + le32(self.recv_len)
            + le64(c.len() as u64) + c + self.transcript_commitment@
    }

    pub fn new(
        handshake_summary: HandshakeSummary,
        transcript_commitment: Vec<u8>,
        sent_len: u32,
        recv_len: u32,
    ) -> (r: SessionHeader)
        ensures
            r.handshake_summary.time == handshake_summary.time,
            r.handshake_summary.handshake_commitment@ == handshake_summary.handshake_commitment@,
            r.transcript_commitment@ == transcript_commitment@,
            r.sent_len == sent_len,
            r.recv_len == recv_len,
    {
        SessionHeader { handshake_summary, transcript_commitment, sent_len, recv_len }
    }

    pub fn handshake_summary(&self) -> (r: &HandshakeSummary)
        ensures
            r == &self.handshake_summary,
    {
        &self.handshake_summary
    }

    pub fn sent_len(&self) -> (r: u32)
        ensures
            r == self.sent_len,
    {
        self.sent_len
    }

    pub fn recv_len(&self) -> (r: u32)
        ensures
            r == self.recv_len,
    {
        self.recv_len
    }

    /// The canonical encoding of the header, the bytes the notary signs.
    pub fn to_bytes(&self) -> (r: Vec<u8>)
        ensures
            r@ == self.spec_bytes(),
    {
        let mut out: Vec<u8> = Vec::new();
        push_le64(&mut out, self.handshake_summary.time);
        push_le32(&mut out, self.sent_len);
        push_le32(&mut out, self.recv_len);
        push_le64(&mut out, self.handshake_summary.handshake_commitment.len() as u64);
        push_all(&mut out, &self.handshake_summary.handshake_commitment);
        push_all(&mut out, &self.transcript_commitment);
        proof {
            assert(out@ =~= self.spec_bytes());
        }
        out
    }
}

fn push_le32(out: &mut Vec<u8>, x: u32)
    ensures
        final(out)@ == old(out)@ + le32(x),
{
    out.push(x as u8);
    out.push((x >> 8u32) as u8);
    out.push((x >> 16u32) as u8);
    out.push((x >> 24u32) as u8);
    assert(final(out)@ =~= old(out)@ + le32(x));
}

fn push_le64(out: &mut Vec<u8>, x: u64)
    ensures
        final(out)@ == old(out)@ + le64(x),
{
    out.push(x as u8);
    out.push((x >> 8u64) as u8);
    out.push((x >> 16u64) as u8);
    out.push((x >> 24u64) as u8);
    out.push((x >> 32u64) as u8);
    out.push((x >> 40u64) as u8);
    out.push((x >> 48u64) as u8);
    out.push((x >> 56u64) as u8);
    assert(final(out)@ =~= old(out)@ + le64(x));
}

fn push_all(out: &mut Vec<u8>, src: &Vec<u8>)
    ensures
        final(out)@ == old(out)@ + src@,
{
    let mut i: usize = 0;
    while i < src.len()
        invariant
            i <= src@.len(),
            out@ == old(out)@ + src@.subrange(0, i as int),
        decreases src@.len() - i,
    {
        out.push(src[i]);
        i = i + 1;
        assert(out@ =~= old(out)@ + src@.subrange(0, i as int));
    }
    assert(src@.subrange(0, i as int) =~= src@);
}

proof fn lemma_le32_injective(x: u32, y: u32)
    requires
        le32(x) == le32(y),
    ensures
        x == y,
{
    assert(le32(x)[0] == le32(y)[0]);
    assert(le32(x)[1] == le32(y)[1]);
    assert(le32(x)[2] == le32(y)[2]);
    assert(le32(x)[3] == le32(y)[3]);
    assert(x == y) by (bit_vector)
        requires
            x as u8 == y as u8,
            (x >> 8u32) as u8 == (y >> 8u32) as u8,
            (x >> 16u32) as u8 == (y >> 16u32) as u8,
            (x >> 24u32) as u8 == (y >> 24u32) as u8,
    ;
}

proof fn lemma_le64_injective(x: u64, y: u64)
    requires
        le64(x) == le64(y),
    ensures
        x == y,
{
    assert(le64(x)[0] == le64(y)[0]);
    assert(le64(x)[1] == le64(y)[1]);
    assert(le64(x)[2] == le64(y)[2]);
    assert(le64(x)[3] == le64(y)[3]);
    assert(le64(x)[4] == le64(y)[4]);
    assert(le64(x)[5] == le64(y)[5]);
    assert(le64(x)[6] == le64(y)[6]);
    assert(le64(x)[7] == le64(y)[7]);
    assert(x == y) by (bit_vector)
        requires
            x as u8 == y as u8,
            (x >> 8u64) as u8 == (y >> 8u64) as u8,
            (x >> 16u64) as u8 == (y >> 16u64) as u8,
            (x >> 24u64) as u8 == (y >> 24u64) as u8,
            (x >> 32u64) as u8 == (y >> 32u64) as u8,
            (x >> 40u64) as u8 == (y >> 40u64) as u8,
            (x >> 48u64) as u8 == (y >> 48u64) as u8,
            (x >> 56u64) as u8 == (y >> 56u64) as u8,
    ;
}

/// The canonical encoding is injective: two headers with the same bytes agree
/// on every field, so a signature over one header's bytes never covers a
/// different header. (A vector's length never exceeds `usize::MAX`.)
pub proof fn lemma_header_bytes_injective(a: SessionHeader, b: SessionHeader)
    requires
        a.handshake_summary.handshake_commitment@.len() <= usize::MAX,
        b.handshake_summary.handshake_commitment@.len() <= usize::MAX,
        a.spec_bytes() == b.spec_bytes(),
    ensures
        a.handshake_summary.time == b.handshake_summary.time,
        a.sent_len == b.sent_len,
        a.recv_len == b.recv_len,
        a.handshake_summary.handshake_commitment@ == b.handshake_summary.handshake_commitment@,
        a.transcript_commitment@ == b.transcript_commitment@,
{
    let (x, y) = (a.spec_bytes(), b.spec_bytes());
    let (ca, cb) = (a.handshake_summary.handshake_commitment@, b.handshake_summary.handshake_commitment@);
    assert(x.subrange(0, 8) =~= le64(a.handshake_summary.time));
    assert(y.subrange(0, 8) =~= le64(b.handshake_summary.time));
    lemma_le64_injective(a.handshake_summary.time, b.handshake_summary.time);
    assert(x.subrange(8, 12) =~= le32(a.sent_len));
    assert(y.subrange(8, 12) =~= le32(b.sent_len));
    lemma_le32_injective(a.sent_len, b.sent_len);
    assert(x.subrange(12, 16) =~= le32(a.recv_len));
    assert(y.subrange(12, 16) =~= le32(b.recv_len));
    lemma_le32_injective(a.recv_len, b.recv_len);
    assert(x.subrange(16, 24) =~= le64(ca.len() as u64));
    assert(y.subrange(16, 24) =~= le64(cb.len() as u64));
    lemma_le64_injective(ca.len() as u64, cb.len() as u64);
    assert(ca.len() == cb.len());
    let n = ca.len() as int;
    assert(x.subrange(24, 24 + n) =~= ca);
    assert(y.subrange(24, 24 + n) =~= cb);
    assert(x.subrange(24 + n, x.len() as int) =~= a.transcript_commitment@);
    assert(y.subrange(24 + n, y.len() as int) =~= b.transcript_commitment@);
}

} // verus!
