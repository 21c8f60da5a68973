use vstd::prelude::*;
use crate::error::VerifyError;

verus! {

/// Compares two byte strings in time that depends only on their lengths: every
/// byte pair is visited, whatever differences come first.
pub fn ct_eq(a: &[u8], b: &[u8]) -> (r: bool)
    ensures
        r == (a@ == b@),
{
    if a.len() != b.len() {
        return false;
    }
    let mut diff: u8 = 0;
    let mut i: usize = 0;
    assert(a@.subrange(0, 0) =~= b@.subrange(0, 0));
    while i < a.len()
        invariant
            a@.len() == b@.len(),
            i <= a@.len(),
            (diff == 0) == (a@.subrange(0, i as int) == b@.subrange(0, i as int)),
        decreases a@.len() - i,
    {
        let x = a[i];
        let y = b[i];
        let d = diff;
        let nd = d | (x ^ y);
        assert((nd == 0) == (d == 0 && x == y)) by (bit_vector)
            requires
                nd == d | (x ^ y),
        ;
        assert(a@.subrange(0, i + 1) =~= a@.subrange(0, i as int).push(x));
        assert(b@.subrange(0, i + 1) =~= b@.subrange(0, i as int).push(y));
        proof {
            if a@.subrange(0, i + 1) == b@.subrange(0, i + 1) {
                assert(a@.subrange(0, i + 1)[i as int] == b@.subrange(0, i + 1)[i as int]);
                assert(a@.subrange(0, i as int) =~= a@.subrange(0, i + 1).drop_last());
                assert(b@.subrange(0, i as int) =~= b@.subrange(0, i + 1).drop_last());
            }
        }
        diff = nd;
        i = i + 1;
    }
    assert(a@.subrange(0, i as int) =~= a@);
    assert(b@.subrange(0, i as int) =~= b@);
    diff == 0
}

/// Checks that the digest recomputed from a decommitment (the opened data and
/// its blinding) equals the committed digest.
pub fn verify_decommitment(committed: &Vec<u8>, recomputed: &Vec<u8>) -> (r: Result<(), VerifyError>)
    ensures
        r == decommitment_outcome(committed@, recomputed@),
{
    if ct_eq(committed.as_slice(), recomputed.as_slice()) {
        Ok(())
    } else {
        Err(VerifyError::DecommitmentMismatch)
    }
}

pub open spec fn decommitment_outcome(committed: Seq<u8>, recomputed: Seq<u8>) -> Result<(), VerifyError> {
    if committed == recomputed {
        Ok(())
    } else {
        Err(VerifyError::DecommitmentMismatch)
    }
}

} // verus!
