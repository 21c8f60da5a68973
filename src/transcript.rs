use vstd::prelude::*;

verus! {

/// Byte that marks a position the prover did not disclose (ASCII `X`).
pub const SENTINEL: u8 = 88;

/// Direction of application data in the TLS session.
#[derive(Clone, Copy, Debug, PartialEq, Eq, Structural)]
pub enum Direction {
    Sent,
    Received,
}

/// A disclosed range `[start, end)` of one direction with its plaintext.
#[derive(Clone, Debug)]
pub struct TranscriptSlice {
    pub direction: Direction,
    pub start: u32,
    pub end: u32,
    pub data: Vec<u8>,
}

/// Mathematical model of a disclosed range.
pub ghost struct SliceModel {
    pub direction: Direction,
    pub start: int,
    pub end: int,
    pub data: Seq<u8>,
}

impl View for TranscriptSlice {
    type V = SliceModel;

    open spec fn view(&self) -> SliceModel {
        SliceModel {
            direction: self.direction,
            start: self.start as int,
            end: self.end as int,
            data: self.data@,
        }
    }
}

impl SliceModel {
    /// The range lies within `[0, len)` and its plaintext has the range's length.
    pub open spec fn fits(self, len: int) -> bool {
        &&& 0 <= self.start <= self.end <= len
        &&& self.data.len() == self.end - self.start
    }

    pub open spec fn covers(self, k: int) -> bool {
        self.start <= k < self.end
    }
}

impl TranscriptSlice {
    pub fn new(direction: Direction, start: u32, end: u32, data: Vec<u8>) -> (r: TranscriptSlice)
        ensures
            r@ == (SliceModel { direction, start: start as int, end: end as int, data: data@ }),
    {
        TranscriptSlice { direction, start, end, data }
    }

    pub fn direction(&self) -> (r: Direction)
        ensures
            r == self.direction,
    {
        self.direction
    }

    pub fn data(&self) -> (r: &Vec<u8>)
        ensures
            r@ == self.data@,
    {
        &self.data
    }
}

pub open spec fn models(s: Seq<TranscriptSlice>) -> Seq<SliceModel> {
    s.map_values(|x: TranscriptSlice| x@)
}

/// Every range fits a direction of length `len`.
pub open spec fn all_fit(s: Seq<SliceModel>, len: int) -> bool {
    forall|i: int| 0 <= i < s.len() ==> #[trigger] s[i].fits(len)
}

/// Position `k` lies in one of the ranges.
pub open spec fn covered(s: Seq<SliceModel>, k: int) -> bool {
    exists|i: int| 0 <= i < s.len() && #[trigger] s[i].covers(k)
}

/// The byte shown at position `k` once the ranges are written over a
/// sentinel-filled buffer in order.
pub open spec fn byte_at(s: Seq<SliceModel>, k: int) -> u8
    decreases s.len(),
{
    if s.len() == 0 {
        SENTINEL
    } else if s.last().covers(k) {
        s.last().data[k - s.last().start]
    } else {
        byte_at(s.drop_last(), k)
    }
}

/// The reconstructed buffer of one direction.
pub open spec fn reconstructed(len: int, s: Seq<SliceModel>) -> Seq<u8> {
    Seq::new(len as nat, |k: int| byte_at(s, k))
}

/// A buffer of `len` bytes filled with the sentinel, then each range's
/// plaintext written at its positions, in order.
pub fn reconstruct(len: u32, slices: &Vec<TranscriptSlice>) -> (r: Vec<u8>)
    requires
        all_fit(models(slices@), len as int),
    ensures
        r@ == reconstructed(len as int, models(slices@)),
{
    let ghost ms = models(slices@);
    let n = len as usize;
    let mut out: Vec<u8> = Vec::with_capacity(n);
    let mut k: usize = 0;
    while k < n
        invariant
            n == len as usize,
            k <= n,
            out@ =~= Seq::new(k as nat, |j: int| SENTINEL),
        decreases n - k,
    {
        out.push(SENTINEL);
        k = k + 1;
    }
    assert(out@ =~= reconstructed(len as int, ms.subrange(0, 0)));
    let mut i: usize = 0;
    while i < slices.len()
        invariant
            ms == models(slices@),
            all_fit(ms, len as int),
            n == len as usize,
            i <= slices@.len(),
            out@ =~= reconstructed(len as int, ms.subrange(0, i as int)),
        decreases slices@.len() - i,
    {
        let slice = &slices[i];
        assert(ms[i as int] == slice@);
        assert(ms[i as int].fits(len as int));
        let ghost before = out@;
        let start = slice.start as usize;
        let m = (slice.end - slice.start) as usize;
        let mut j: usize = 0;
        while j < m
            invariant
                slice@.fits(len as int),
                start == slice.start as usize,
                m == slice.end - slice.start,
                j <= m,
                out@.len() == before.len(),
                before.len() == len,
                forall|p: int|
                    0 <= p < before.len() ==> #[trigger] out@[p] == if start <= p < start + j {
                        slice.data@[p - start]
                    } else {
                        before[p]
                    },
            decreases m - j,
        {
            out.set(start + j, slice.data[j]);
            j = j + 1;
        }
        let ghost next = ms.subrange(0, i + 1);
        assert(next.drop_last() =~= ms.subrange(0, i as int));
        assert(next.last() == slice@);
        i = i + 1;
    }
    assert(ms.subrange(0, i as int) =~= ms);
    out
}

/// A prover that discloses true ranges of `orig` gets back `orig` at every
/// disclosed position and the sentinel at every other one.
pub proof fn lemma_disclosed_bytes_match(orig: Seq<u8>, s: Seq<SliceModel>, k: int)
    requires
        all_fit(s, orig.len() as int),
        forall|i: int| 0 <= i < s.len() ==> #[trigger] s[i].data == orig.subrange(s[i].start, s[i].end),
        0 <= k < orig.len(),
    ensures
        covered(s, k) ==> reconstructed(orig.len() as int, s)[k] == orig[k],
        !covered(s, k) ==> reconstructed(orig.len() as int, s)[k] == SENTINEL,
    decreases s.len(),
{
    if s.len() > 0 {
        let t = s.drop_last();
        assert forall|i: int| 0 <= i < t.len() implies #[trigger] t[i].fits(orig.len() as int) by {
            assert(t[i] == s[i]);
        }
        assert forall|i: int| 0 <= i < t.len() implies #[trigger] t[i].data == orig.subrange(t[i].start, t[i].end) by {
            assert(t[i] == s[i]);
            assert(s[i].fits(orig.len() as int));
        }
        lemma_disclosed_bytes_match(orig, t, k);
        let l = s.last();
        assert(s[s.len() - 1] == l);
        if l.covers(k) {
            assert(covered(s, k));
            assert(l.fits(orig.len() as int));
            assert(l.data == orig.subrange(l.start, l.end));
            assert(orig.subrange(l.start, l.end)[k - l.start] == orig[k]);
        } else {
            if covered(s, k) {
                let i = choose|i: int| 0 <= i < s.len() && #[trigger] s[i].covers(k);
                assert(t[i].covers(k));
            }
            if covered(t, k) {
                let i = choose|i: int| 0 <= i < t.len() && #[trigger] t[i].covers(k);
                assert(s[i].covers(k));
            }
        }
    }
}

/// Disclosing every position of a direction with its true bytes reconstructs
/// that direction exactly.
pub proof fn lemma_full_disclosure(orig: Seq<u8>, s: Seq<SliceModel>)
    requires
        all_fit(s, orig.len() as int),
        forall|i: int| 0 <= i < s.len() ==> #[trigger] s[i].data == orig.subrange(s[i].start, s[i].end),
        forall|k: int| 0 <= k < orig.len() ==> covered(s, k),
    ensures
        reconstructed(orig.len() as int, s) == orig,
{
    assert forall|k: int| 0 <= k < orig.len() implies reconstructed(orig.len() as int, s)[k] == orig[k] by {
        lemma_disclosed_bytes_match(orig, s, k);
    }
    assert(reconstructed(orig.len() as int, s) =~= orig);
}

} // verus!
