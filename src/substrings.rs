use vstd::prelude::*;
use crate::commitment::ct_eq;
use crate::error::VerifyError;
use crate::header::SessionHeader;
use crate::transcript::{all_fit, models, Direction, SliceModel, TranscriptSlice};

verus! {

/// The ranges the prover discloses, in the order given.
#[derive(Clone, Debug)]
pub struct SubstringsProof {
    pub slices: Vec<TranscriptSlice>,
}

/// Declared length of one direction.
pub open spec fn declared_len(h: SessionHeader, d: Direction) -> int {
    match d {
        Direction::Sent => h.sent_len as int,
        Direction::Received => h.recv_len as int,
    }
}

pub open spec fn in_bounds(h: SessionHeader, m: SliceModel) -> bool {
    0 <= m.start <= m.end <= declared_len(h, m.direction)
}

pub open spec fn all_in_bounds(h: SessionHeader, s: Seq<SliceModel>) -> bool {
    forall|i: int| 0 <= i < s.len() ==> #[trigger] in_bounds(h, s[i])
}

pub open spec fn all_sized(s: Seq<SliceModel>) -> bool {
    forall|i: int| 0 <= i < s.len() ==> (#[trigger] s[i]).data.len() == s[i].end - s[i].start
}

pub open spec fn disjoint(a: SliceModel, b: SliceModel) -> bool {
    a.direction != b.direction || a.end <= b.start || b.end <= a.start
}

/// No two ranges of one direction share a position.
pub open spec fn no_overlap(s: Seq<SliceModel>) -> bool {
    forall|i: int, j: int| 0 <= i < j < s.len() ==> #[trigger] disjoint(s[i], s[j])
}

/// The ranges of direction `d`, in their order.
pub open spec fn in_direction(s: Seq<SliceModel>, d: Direction) -> Seq<SliceModel>
    decreases s.len(),
{
    if s.len() == 0 {
        Seq::empty()
    } else if s.last().direction == d {
        in_direction(s.drop_last(), d).push(s.last())
    } else {
        in_direction(s.drop_last(), d)
    }
}

/// What the substrings check decides, in the order the checks are made:
/// the emptiness policy, range bounds, plaintext lengths, the transcript
/// commitment, then overlaps.
pub open spec fn substrings_outcome(
    h: SessionHeader,
    s: Seq<SliceModel>,
    recomputed: Seq<u8>,
    require_disclosure: bool,
) -> Result<(), VerifyError> {
    if require_disclosure && s.len() == 0 {
        Err(VerifyError::EmptyProof)
    } else if !all_in_bounds(h, s) {
        Err(VerifyError::RangeOutOfBounds)
    } else if !all_sized(s) {
        Err(VerifyError::SliceCommitmentInvalid)
    } else if recomputed != h.transcript_commitment@ {
        Err(VerifyError::SliceCommitmentInvalid)
    } else if !no_overlap(s) {
        Err(VerifyError::OverlappingRanges)
    } else {
        Ok(())
    }
}

fn collect_direction(slices: &Vec<TranscriptSlice>, d: Direction) -> (r: Vec<TranscriptSlice>)
    ensures
        models(r@) == in_direction(models(slices@), d),
{
    let ghost ms = models(slices@);
    let mut out: Vec<TranscriptSlice> = Vec::new();
    let mut i: usize = 0;
    assert(ms.subrange(0, 0) =~= Seq::<SliceModel>::empty());
    assert(models(out@) =~= Seq::<SliceModel>::empty());
    while i < slices.len()
        invariant
            ms == models(slices@),
            i <= slices@.len(),
            models(out@) == in_direction(ms.subrange(0, i as int), d),
        decreases slices@.len() - i,
    {
        let ghost prev = out@;
        let ghost next = ms.subrange(0, i + 1);
        assert(next.drop_last() =~= ms.subrange(0, i as int));
        assert(next.last() == slices@[i as int]@);
        if slices[i].direction == d {
            let s = TranscriptSlice {
                direction: slices[i].direction,
                start: slices[i].start,
                end: slices[i].end,
                data: copy_bytes(&slices[i].data),
            };
            out.push(s);
            assert(models(out@) =~= models(prev).push(s@));
        }
        i = i + 1;
    }
    assert(ms.subrange(0, i as int) =~= ms);
    out
}

fn copy_bytes(v: &Vec<u8>) -> (r: Vec<u8>)
    ensures
        r@ == v@,
{
    let mut out: Vec<u8> = Vec::with_capacity(v.len());
    let mut i: usize = 0;
    while i < v.len()
        invariant
            i <= v@.len(),
            out@ =~= v@.subrange(0, i as int),
        decreases v@.len() - i,
    {
        out.push(v[i]);
        i = i + 1;
    }
    assert(v@.subrange(0, i as int) =~= v@);
    out
}

/// The ranges of one direction all fit that direction's declared length.
pub proof fn lemma_direction_fits(h: SessionHeader, s: Seq<SliceModel>, d: Direction)
    requires
        all_in_bounds(h, s),
        all_sized(s),
    ensures
        all_fit(in_direction(s, d), declared_len(h, d)),
    decreases s.len(),
{
    if s.len() > 0 {
        let t = s.drop_last();
        assert forall|i: int| 0 <= i < t.len() implies #[trigger] in_bounds(h, t[i]) by {
            assert(t[i] == s[i]);
        }
        assert forall|i: int| 0 <= i < t.len() implies (#[trigger] t[i]).data.len() == t[i].end - t[i].start by {
            assert(t[i] == s[i]);
        }
        lemma_direction_fits(h, t, d);
        assert(in_bounds(h, s[s.len() - 1]));
        assert(s[s.len() - 1].data.len() == s[s.len() - 1].end - s[s.len() - 1].start);
        let r = in_direction(s, d);
        let q = in_direction(t, d);
        if s.last().direction == d {
            assert forall|i: int| 0 <= i < r.len() implies #[trigger] r[i].fits(declared_len(h, d)) by {
                if i < q.len() {
                    assert(r[i] == q[i]);
                }
            }
        }
    }
}

impl SubstringsProof {
    pub fn new(slices: Vec<TranscriptSlice>) -> (r: SubstringsProof)
        ensures
            r.slices@ == slices@,
    {
        SubstringsProof { slices }
    }

    /// Checks the disclosed ranges against the verified header and returns them
    /// split by direction. `recomputed` is the transcript digest recomputed from
    /// the ranges' openings.
    pub fn verify(
        &self,
        header: &SessionHeader,
        recomputed: &Vec<u8>,
        require_disclosure: bool,
    ) -> (r: Result<(Vec<TranscriptSlice>, Vec<TranscriptSlice>), VerifyError>)
        ensures
            r.is_ok() == (substrings_outcome(*header, models(self.slices@), recomputed@, require_disclosure) is Ok),
            r matches Err(e) ==> substrings_outcome(*header, models(self.slices@), recomputed@, require_disclosure) == Err::<(), VerifyError>(e),
            r matches Ok((sent, recv)) ==> {
                &&& models(sent@) == in_direction(models(self.slices@), Direction::Sent)
                &&& models(recv@) == in_direction(models(self.slices@), Direction::Received)
                &&& all_fit(models(sent@), header.sent_len as int)
                &&& all_fit(models(recv@), header.recv_len as int)
            },
    {
        let ghost ms = models(self.slices@);
        let n = self.slices.len();
        if require_disclosure && n == 0 {
            return Err(VerifyError::EmptyProof);
        }
        let mut i: usize = 0;
        while i < n
            invariant
                n == self.slices@.len(),
                ms == models(self.slices@),
                i <= n,
                forall|j: int| 0 <= j < i ==> #[trigger] in_bounds(*header, ms[j]),
            decreases n - i,
        {
            let s = &self.slices[i];
            let limit = match s.direction {
                Direction::Sent => header.sent_len,
                Direction::Received => header.recv_len,
            };
            assert(ms[i as int] == s@);
            if s.start > s.end || s.end > limit {
                assert(!in_bounds(*header, ms[i as int]));
                return Err(VerifyError::RangeOutOfBounds);
            }
            i = i + 1;
        }
        let mut i: usize = 0;
        while i < n
            invariant
                n == self.slices@.len(),
                ms == models(self.slices@),
                i <= n,
                all_in_bounds(*header, ms),
                forall|j: int| 0 <= j < i ==> (#[trigger] ms[j]).data.len() == ms[j].end - ms[j].start,
            decreases n - i,
        {
            let s = &self.slices[i];
            assert(ms[i as int] == s@);
            assert(in_bounds(*header, ms[i as int]));
            if s.data.len() != (s.end - s.start) as usize {
                return Err(VerifyError::SliceCommitmentInvalid);
            }
            i = i + 1;
        }
        if !ct_eq(recomputed.as_slice(), header.transcript_commitment.as_slice()) {
            return Err(VerifyError::SliceCommitmentInvalid);
        }
        let mut i: usize = 0;
        while i < n
            invariant
                n == self.slices@.len(),
                ms == models(self.slices@),
                i <= n,
                forall|a: int, b: int| 0 <= a < b < n && a < i ==> #[trigger] disjoint(ms[a], ms[b]),
                all_in_bounds(*header, ms),
                all_sized(ms),
                recomputed@ == header.transcript_commitment@,
                !(require_disclosure && n == 0),
            decreases n - i,
        {
            let mut j: usize = i + 1;
            while j < n
                invariant
                    n == self.slices@.len(),
                    ms == models(self.slices@),
                    i < n,
                    i + 1 <= j <= n,
                    forall|a: int, b: int| 0 <= a < b < n && a < i ==> #[trigger] disjoint(ms[a], ms[b]),
                    forall|b: int| i < b < j ==> #[trigger] disjoint(ms[i as int], ms[b]),
                    all_in_bounds(*header, ms),
                    all_sized(ms),
                    recomputed@ == header.transcript_commitment@,
                    !(require_disclosure && n == 0),
                decreases n - j,
            {
                let x = &self.slices[i];
                let y = &self.slices[j];
                assert(ms[i as int] == x@ && ms[j as int] == y@);
                if x.direction == y.direction && x.start < y.end && y.start < x.end {
                    assert(!disjoint(ms[i as int], ms[j as int]));
                    return Err(VerifyError::OverlappingRanges);
                }
                j = j + 1;
            }
            i = i + 1;
        }
        let sent = collect_direction(&self.slices, Direction::Sent);
        let recv = collect_direction(&self.slices, Direction::Received);
        proof {
            lemma_direction_fits(*header, ms, Direction::Sent);
            lemma_direction_fits(*header, ms, Direction::Received);
        }
        Ok((sent, recv))
    }
}

/// A range that ends past its direction's declared length is refused as out of
/// bounds, whatever its opening and the other ranges are.
pub proof fn lemma_out_of_bounds_rejected(
    h: SessionHeader,
    s: Seq<SliceModel>,
    recomputed: Seq<u8>,
    require_disclosure: bool,
    i: int,
)
    requires
        0 <= i < s.len(),
        s[i].end > declared_len(h, s[i].direction),
    ensures
        substrings_outcome(h, s, recomputed, require_disclosure) == Err::<(), VerifyError>(VerifyError::RangeOutOfBounds),
{
    assert(!in_bounds(h, s[i]));
}

} // verus!
