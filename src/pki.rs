use vstd::prelude::*;
use crate::commitment::ct_eq;
use crate::error::VerifyError;

verus! {

/// What the verifier reads of one certificate once the chain is parsed.
#[derive(Clone, Debug)]
pub struct CertificateInfo {
    /// Start of the validity window, seconds since the Unix epoch.
    pub not_before: u64,
    /// End of the validity window, inclusive.
    pub not_after: u64,
    /// DNS names of the subject and its alternative names.
    pub dns_names: Vec<Vec<u8>>,
}

/// A parsed certificate chain, leaf first, with the results of the signature
/// checks made while parsing it.
#[derive(Clone, Debug)]
pub struct ParsedChain {
    pub certificates: Vec<CertificateInfo>,
    /// Public key of the root the chain ends at.
    pub root_key: Vec<u8>,
    /// Each certificate is signed by the next one's key.
    pub path_valid: bool,
    /// The server's key-exchange parameters are signed by the leaf's key.
    pub handshake_signature_valid: bool,
}

/// Opened handshake data: the server's chain, or `None` when it did not parse.
#[derive(Clone, Debug)]
pub struct HandshakeData {
    pub chain: Option<ParsedChain>,
}

/// The public keys of the trusted root certificates.
#[derive(Clone, Debug)]
pub struct TrustStore {
    pub anchors: Vec<Vec<u8>>,
}

pub open spec fn is_anchored(store: TrustStore, key: Seq<u8>) -> bool {
    exists|i: int| 0 <= i < store.anchors@.len() && (#[trigger] store.anchors@[i])@ == key
}

pub open spec fn valid_at(c: CertificateInfo, time: u64) -> bool {
    c.not_before <= time <= c.not_after
}

pub open spec fn chain_valid_at(certs: Seq<CertificateInfo>, time: u64) -> bool {
    forall|i: int| 0 <= i < certs.len() ==> #[trigger] valid_at(certs[i], time)
}

pub open spec fn ascii_lower(b: u8) -> u8 {
    if 65 <= b <= 90 {
        (b + 32) as u8
    } else {
        b
    }
}

/// Equal up to ASCII case.
pub open spec fn eq_ignore_case(a: Seq<u8>, b: Seq<u8>) -> bool {
    a.len() == b.len() && forall|i: int| 0 <= i < a.len() ==> #[trigger] ascii_lower(a[i]) == ascii_lower(b[i])
}

/// `*.rest` matches a host made of one non-empty label followed by `.rest`.
pub open spec fn wildcard_matches(pattern: Seq<u8>, host: Seq<u8>) -> bool {
    let suffix = pattern.subrange(1, pattern.len() as int);
    let label = host.len() - suffix.len();
    &&& pattern.len() >= 3
    &&& pattern[0] == 42
    &&& pattern[1] == 46
    &&& label > 0
    &&& eq_ignore_case(host.subrange(label, host.len() as int), suffix)
    &&& forall|i: int| 0 <= i < label ==> host[i] != 46
}

/// TLS name matching of one certificate name against a host name.
pub open spec fn name_matches(pattern: Seq<u8>, host: Seq<u8>) -> bool {
    eq_ignore_case(pattern, host) || wildcard_matches(pattern, host)
}

pub open spec fn names_domain(c: CertificateInfo, host: Seq<u8>) -> bool {
    exists|i: int| 0 <= i < c.dns_names@.len() && name_matches((#[trigger] c.dns_names@[i])@, host)
}

/// What the PKI checks decide, in order: parsing, the path to a trusted root,
/// validity at the notarized time, the domain, the handshake signature.
pub open spec fn pki_outcome(
    store: TrustStore,
    data: HandshakeData,
    time: u64,
    domain: Seq<u8>,
) -> Result<(), VerifyError> {
    match data.chain {
        None => Err(VerifyError::CertificateParseError),
        Some(c) => if c.certificates@.len() == 0 {
            Err(VerifyError::CertificateParseError)
        } else if !c.path_valid || !is_anchored(store, c.root_key@) {
            Err(VerifyError::UntrustedChain)
        } else if !chain_valid_at(c.certificates@, time) {
            Err(VerifyError::ChainExpired)
        } else if !names_domain(c.certificates@[0], domain) {
            Err(VerifyError::DomainMismatch)
        } else if !c.handshake_signature_valid {
            Err(VerifyError::HandshakeSignatureInvalid)
        } else {
            Ok(())
        },
    }
}

fn lower(b: u8) -> (r: u8)
    ensures
        r == ascii_lower(b),
{
    if 65 <= b && b <= 90 {
        b + 32
    } else {
        b
    }
}

/// Compares `a` with `b[from..]` up to ASCII case.
fn eq_ignore_case_at(a: &[u8], b: &[u8], from: usize) -> (r: bool)
    requires
        from <= b@.len(),
    ensures
        r == eq_ignore_case(a@, b@.subrange(from as int, b@.len() as int)),
{
    let tail = Ghost(b@.subrange(from as int, b@.len() as int));
    let bl = b.len();
    if a.len() != bl - from {
        return false;
    }
    let mut i: usize = 0;
    while i < a.len()
        invariant
            from <= b@.len(),
            tail@ == b@.subrange(from as int, b@.len() as int),
            a@.len() == tail@.len(),
            from + a@.len() == bl,
            bl == b@.len(),
            i <= a@.len(),
            forall|j: int| 0 <= j < i ==> #[trigger] ascii_lower(a@[j]) == ascii_lower(tail@[j]),
        decreases a@.len() - i,
    {
        if lower(a[i]) != lower(b[from + i]) {
            assert(tail@[i as int] == b@[from + i]);
            return false;
        }
        assert(tail@[i as int] == b@[from + i]);
        i = i + 1;
    }
    true
}

/// TLS name matching: an exact match up to ASCII case, or a wildcard for the
/// leftmost label.
pub fn name_matches_host(pattern: &[u8], host: &[u8]) -> (r: bool)
    ensures
        r == name_matches(pattern@, host@),
{
    assert(host@.subrange(0, host@.len() as int) =~= host@);
    if eq_ignore_case_at(pattern, host, 0) {
        return true;
    }
    if pattern.len() < 3 || pattern[0] != 42 || pattern[1] != 46 {
        return false;
    }
    let suffix_len = pattern.len() - 1;
    if host.len() <= suffix_len {
        return false;
    }
    let label = host.len() - suffix_len;
    assert(pattern@.subrange(1, pattern@.len() as int).len() == suffix_len);
    let mut i: usize = 0;
    while i < label
        invariant
            label <= host@.len(),
            label == host@.len() - (pattern@.len() - 1),
            !eq_ignore_case(pattern@, host@),
            i <= label,
            forall|j: int| 0 <= j < i ==> host@[j] != 46,
        decreases label - i,
    {
        if host[i] == 46 {
            assert(!wildcard_matches(pattern@, host@));
            return false;
        }
        i = i + 1;
    }
    let suffix = slice_from(pattern, 1);
    eq_ignore_case_at(suffix, host, label)
}

fn slice_from(s: &[u8], from: usize) -> (r: &[u8])
    requires
        from <= s@.len(),
    ensures
        r@ == s@.subrange(from as int, s@.len() as int),
{
    let (_, tail) = s.split_at(from);
    tail
}

fn leaf_names_domain(leaf: &CertificateInfo, domain: &[u8]) -> (r: bool)
    ensures
        r == names_domain(*leaf, domain@),
{
    let mut i: usize = 0;
    while i < leaf.dns_names.len()
        invariant
            i <= leaf.dns_names@.len(),
            forall|j: int| 0 <= j < i ==> !name_matches((#[trigger] leaf.dns_names@[j])@, domain@),
        decreases leaf.dns_names@.len() - i,
    {
        if name_matches_host(leaf.dns_names[i].as_slice(), domain) {
            return true;
        }
        i = i + 1;
    }
    false
}

impl TrustStore {
    pub fn new(anchors: Vec<Vec<u8>>) -> (r: TrustStore)
        ensures
            r.anchors@ == anchors@,
    {
        TrustStore { anchors }
    }

    /// Whether `key` is the key of a trusted root.
    pub fn contains(&self, key: &[u8]) -> (r: bool)
        ensures
            r == is_anchored(*self, key@),
    {
        let mut i: usize = 0;
        while i < self.anchors.len()
            invariant
                i <= self.anchors@.len(),
                forall|j: int| 0 <= j < i ==> (#[trigger] self.anchors@[j])@ != key@,
            decreases self.anchors@.len() - i,
        {
            if ct_eq(self.anchors[i].as_slice(), key) {
                return true;
            }
            i = i + 1;
        }
        false
    }
}

/// Validates opened handshake data for `domain` at the notarized `time`,
/// stopping at the first failed check.
pub fn validate_handshake(
    store: &TrustStore,
    data: &HandshakeData,
    time: u64,
    domain: &[u8],
) -> (r: Result<(), VerifyError>)
    ensures
        r == pki_outcome(*store, *data, time, domain@),
{
    let chain = match &data.chain {
        None => return Err(VerifyError::CertificateParseError),
        Some(c) => c,
    };
    let n = chain.certificates.len();
    if n == 0 {
        return Err(VerifyError::CertificateParseError);
    }
    if !chain.path_valid || !store.contains(chain.root_key.as_slice()) {
        return Err(VerifyError::UntrustedChain);
    }
    let mut i: usize = 0;
    while i < n
        invariant
            n == chain.certificates@.len(),
            i <= n,
            forall|j: int| 0 <= j < i ==> #[trigger] valid_at(chain.certificates@[j], time),
            chain.path_valid,
            is_anchored(*store, chain.root_key@),
            data.chain == Some(*chain),
        decreases n - i,
    {
        let c = &chain.certificates[i];
        if time < c.not_before || time > c.not_after {
            assert(!valid_at(chain.certificates@[i as int], time));
            return Err(VerifyError::ChainExpired);
        }
        i = i + 1;
    }
    if !leaf_names_domain(&chain.certificates[0], domain) {
        return Err(VerifyError::DomainMismatch);
    }
    if !chain.handshake_signature_valid {
        return Err(VerifyError::HandshakeSignatureInvalid);
    }
    Ok(())
}

/// A chain whose root is not in the trust store is refused as untrusted,
/// whatever else holds of it.
pub proof fn lemma_untrusted_root_rejected(store: TrustStore, data: HandshakeData, time: u64, domain: Seq<u8>)
    requires
        data.chain matches Some(c) && c.certificates@.len() > 0 && !is_anchored(store, c.root_key@),
    ensures
        pki_outcome(store, data, time, domain) == Err::<(), VerifyError>(VerifyError::UntrustedChain),
{
}

/// A trusted chain with a certificate not valid at the notarized time is
/// refused as expired.
pub proof fn lemma_expired_rejected(store: TrustStore, data: HandshakeData, time: u64, domain: Seq<u8>, i: int)
    requires
        data.chain matches Some(c) && {
            &&& c.path_valid
            &&& is_anchored(store, c.root_key@)
            &&& 0 <= i < c.certificates@.len()
            &&& !valid_at(c.certificates@[i], time)
        },
    ensures
        pki_outcome(store, data, time, domain) == Err::<(), VerifyError>(VerifyError::ChainExpired),
{
}

/// A domain that no name of the leaf certificate matches is refused, even when
/// every other check passes.
pub proof fn lemma_domain_mismatch_rejected(store: TrustStore, data: HandshakeData, time: u64, domain: Seq<u8>)
    requires
        data.chain matches Some(c) && {
            &&& c.certificates@.len() > 0
            &&& c.path_valid
            &&& c.handshake_signature_valid
            &&& is_anchored(store, c.root_key@)
            &&& chain_valid_at(c.certificates@, time)
            &&& forall|i: int| 0 <= i < c.certificates@[0].dns_names@.len() ==>
                !name_matches(#[trigger] c.certificates@[0].dns_names@[i]@, domain)
        },
    ensures
        pki_outcome(store, data, time, domain) == Err::<(), VerifyError>(VerifyError::DomainMismatch),
{
}

} // verus!
