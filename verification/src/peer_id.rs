//! Globally unique peer identifiers: up to sixteen bytes, compared by their
//! active prefix, shown as uppercase hexadecimal.
use vstd::prelude::*;
use vstd::array::array_as_slice;
use vstd::slice::slice_subrange;

use crate::strfmt::{hex_encode_upper, spec_hex_upper};

verus! {

/// Greatest number of identifier bytes a [`PeerId`] may hold.
pub const PEER_ID_MAX_SIZE: usize = 16;

/// The global unique id of a peer.
///
/// Only the first `size` bytes of `id` are significant; equality and the
/// textual form go by that active prefix alone.
#[derive(Debug, Clone, Copy)]
pub struct PeerId {
    size: usize,
    id: [u8; PEER_ID_MAX_SIZE],
}

impl PeerId {
    /// The identifier is well formed: its active prefix fits the storage.
    pub closed spec fn wf(&self) -> bool {
        self.size <= PEER_ID_MAX_SIZE
    }

    pub closed spec fn spec_size(&self) -> usize {
        self.size
    }

    /// The active bytes of the identifier.
    pub closed spec fn spec_bytes(&self) -> Seq<u8> {
        self.id@.take(
            if self.size <= PEER_ID_MAX_SIZE {
                self.size as int
            } else {
                PEER_ID_MAX_SIZE as int
            },
        )
    }

    pub fn new(size: usize, id: [u8; PEER_ID_MAX_SIZE]) -> (r: PeerId)
        requires
            size <= PEER_ID_MAX_SIZE,
        ensures
            r.wf(),
            r.spec_size() == size,
            r.spec_bytes() == id@.take(size as int),
            r.spec_bytes().len() == size,
    {
        PeerId { size, id }
    }

    pub fn size(&self) -> (r: usize)
        ensures
            r == self.spec_size(),
    {
        self.size
    }

    pub fn as_slice(&self) -> (r: &[u8])
        requires
            self.wf(),
        ensures
            r@ == self.spec_bytes(),
    {
        slice_subrange(array_as_slice(&self.id), 0, self.size)
    }

    /// The uppercase hexadecimal form of the active bytes.
    pub fn to_string(&self) -> (r: String)
        requires
            self.wf(),
        ensures
            r@ == spec_hex_upper(self.spec_bytes()),
    {
        hex_encode_upper(self.as_slice())
    }

    /// Builds a sixteen-byte identifier from a UUID.
    pub fn from_uuid(u: &uuid::Uuid) -> (r: PeerId)
        ensures
            r.wf(),
            r.spec_size() == PEER_ID_MAX_SIZE,
            r.spec_bytes().len() == PEER_ID_MAX_SIZE,
    {
        PeerId { size: PEER_ID_MAX_SIZE, id: uuid_octets(u) }
    }

    /// Strict lexicographic order on the active bytes, with a strict prefix
    /// ordered first.
    pub fn lt(&self, other: &PeerId) -> (r: bool)
        requires
            self.wf(),
            other.wf(),
        ensures
            r == spec_bytes_lt(self.spec_bytes(), other.spec_bytes()),
    {
        let r = bytes_lt_from(self.as_slice(), other.as_slice(), 0);
        proof {
            assert(self.spec_bytes().skip(0) =~= self.spec_bytes());
            assert(other.spec_bytes().skip(0) =~= other.spec_bytes());
        }
        r
    }
}

impl PartialEq for PeerId {
    fn eq(&self, other: &PeerId) -> (r: bool) {
        if self.size != other.size {
            return false;
        }
        let n = if self.size <= PEER_ID_MAX_SIZE {
            self.size
        } else {
            PEER_ID_MAX_SIZE
        };
        let mut i: usize = 0;
        let mut same = true;
        while i < n
            invariant
                self.size == other.size,
                n <= PEER_ID_MAX_SIZE,
                n == self.spec_bytes().len(),
                i <= n,
                same == (forall|k: int| 0 <= k < i ==> self.id@[k] == other.id@[k]),
            decreases n - i,
        {
            if self.id[i] != other.id[i] {
                same = false;
            }
            i += 1;
        }
        proof {
            if same {
                assert(self.spec_bytes() =~= other.spec_bytes());
            } else {
                let j = choose|j: int| 0 <= j < n && self.id@[j] != other.id@[j];
                assert(self.spec_bytes()[j] != other.spec_bytes()[j]);
            }
        }
        same
    }
}

impl vstd::std_specs::cmp::PartialEqSpecImpl for PeerId {
    open spec fn obeys_eq_spec() -> bool {
        true
    }

    open spec fn eq_spec(&self, other: &PeerId) -> bool {
        self.spec_size() == other.spec_size() && self.spec_bytes() == other.spec_bytes()
    }
}

/// Strict lexicographic order on byte sequences.
pub open spec fn spec_bytes_lt(a: Seq<u8>, b: Seq<u8>) -> bool
    decreases a.len(),
{
    if b.len() == 0 {
        false
    } else if a.len() == 0 {
        true
    } else if a[0] < b[0] {
        true
    } else if a[0] > b[0] {
        false
    } else {
        spec_bytes_lt(a.drop_first(), b.drop_first())
    }
}

/// The active bytes of a well-formed identifier are exactly its size.
pub proof fn lemma_peer_bytes_len(p: &PeerId)
    requires
        p.wf(),
    ensures
        p.spec_bytes().len() == p.spec_size(),
{
}

/// The lexicographic order is irreflexive.
pub proof fn lemma_bytes_lt_irrefl(s: Seq<u8>)
    ensures
        !spec_bytes_lt(s, s),
    decreases s.len(),
{
    if s.len() > 0 {
        lemma_bytes_lt_irrefl(s.drop_first());
    }
}

/// The lexicographic order is transitive.
pub proof fn lemma_bytes_lt_trans(a: Seq<u8>, b: Seq<u8>, c: Seq<u8>)
    requires
        spec_bytes_lt(a, b),
        spec_bytes_lt(b, c),
    ensures
        spec_bytes_lt(a, c),
    decreases a.len() + b.len() + c.len(),
{
    if b.len() == 0 {
        assert(a.len() == 0);
    } else if a.len() == 0 || c.len() == 0 {
    } else {
        if a[0] == b[0] && b[0] == c[0] {
            lemma_bytes_lt_trans(a.drop_first(), b.drop_first(), c.drop_first());
        }
    }
}

/// The lexicographic order never holds both ways.
pub proof fn lemma_bytes_asym(a: Seq<u8>, b: Seq<u8>)
    ensures
        !(spec_bytes_lt(a, b) && spec_bytes_lt(b, a)),
{
    if spec_bytes_lt(a, b) && spec_bytes_lt(b, a) {
        lemma_bytes_lt_trans(a, b, a);
        lemma_bytes_lt_irrefl(a);
    }
}

/// Two byte sequences are equal or ordered one way.
pub proof fn lemma_bytes_trichotomy(a: Seq<u8>, b: Seq<u8>)
    ensures
        a == b || spec_bytes_lt(a, b) || spec_bytes_lt(b, a),
    decreases a.len() + b.len(),
{
    if a.len() == 0 && b.len() == 0 {
        assert(a =~= b);
    } else if a.len() > 0 && b.len() > 0 && a[0] == b[0] {
        lemma_bytes_trichotomy(a.drop_first(), b.drop_first());
        if a.drop_first() == b.drop_first() {
            assert(a.drop_first().len() == a.len() - 1);
            assert(b.drop_first().len() == b.len() - 1);
            assert forall|i: int| 0 <= i < a.len() implies a[i] == b[i] by {
                if i > 0 {
                    assert(a[i] == a.drop_first()[i - 1]);
                    assert(b[i] == b.drop_first()[i - 1]);
                }
            }
            assert(a =~= b);
        }
    }
}

fn bytes_lt_from(a: &[u8], b: &[u8], i: usize) -> (r: bool)
    requires
        i <= a@.len(),
        i <= b@.len(),
    ensures
        r == spec_bytes_lt(a@.skip(i as int), b@.skip(i as int)),
    decreases a@.len() - i,
{
    proof {
        assert(a@.skip(i as int).len() == a@.len() - i);
        assert(b@.skip(i as int).len() == b@.len() - i);
    }
    if i == b.len() {
        false
    } else if i == a.len() {
        true
    } else {
        let x = *vstd::slice::slice_index_get(a, i);
        let y = *vstd::slice::slice_index_get(b, i);
        proof {
            assert(a@.skip(i as int)[0] == a@[i as int]);
            assert(b@.skip(i as int)[0] == b@[i as int]);
        }
        if x < y {
            true
        } else if x > y {
            false
        } else {
            let r = bytes_lt_from(a, b, i + 1);
            proof {
                assert(a@.skip(i as int).drop_first() =~= a@.skip(i + 1));
                assert(b@.skip(i as int).drop_first() =~= b@.skip(i + 1));
            }
            r
        }
    }
}

#[verifier::external_type_specification]
#[verifier::external_body]
pub struct ExUuid(uuid::Uuid);

/// Relies on `uuid::Uuid::as_bytes`: the sixteen bytes of the identifier.
#[verifier::external_body]
fn uuid_octets(u: &uuid::Uuid) -> (r: [u8; PEER_ID_MAX_SIZE]) {
    *u.as_bytes()
}

} // verus!
