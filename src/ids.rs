use vstd::prelude::*;

verus! {

/// Name of a request/response or notifications protocol (for example
/// `"/sync/2"`).
pub type ProtocolName = String;

/// Identifier of one discovery namespace: each namespace runs its own DHT.
pub type ProtocolId = String;

/// Identity of a peer: the bytes of the multihash of its public key.
#[derive(Debug)]
pub struct PeerId {
    pub bytes: Vec<u8>,
}

impl View for PeerId {
    type V = Seq<u8>;

    open spec fn view(&self) -> Seq<u8> {
        self.bytes@
    }
}

impl PeerId {
    pub fn from_bytes(bytes: Vec<u8>) -> (r: PeerId)
        ensures
            r@ == bytes@,
    {
        PeerId { bytes }
    }

    /// An owned copy of this identity.
    pub fn duplicate(&self) -> (r: PeerId)
        ensures
            r@ == self@,
    {
        PeerId { bytes: copy_bytes(&self.bytes) }
    }

    pub fn same_as(&self, other: &PeerId) -> (r: bool)
        ensures
            r == (self@ == other@),
    {
        if self.bytes.len() != other.bytes.len() {
            return false;
        }
        let mut i: usize = 0;
        while i < self.bytes.len()
            invariant
                i <= self.bytes@.len(),
                self.bytes@.len() == other.bytes@.len(),
                forall|k: int| 0 <= k < i ==> self.bytes@[k] == other.bytes@[k],
            decreases self.bytes@.len() - i,
        {
            if self.bytes[i] != other.bytes[i] {
                return false;
            }
            i = i + 1;
        }
        assert(self.bytes@ =~= other.bytes@);
        true
    }
}

impl Clone for PeerId {
    fn clone(&self) -> (r: PeerId) {
        self.duplicate()
    }
}

impl PartialEq for PeerId {
    fn eq(&self, other: &PeerId) -> (r: bool) {
        self.same_as(other)
    }
}

impl vstd::std_specs::cmp::PartialEqSpecImpl for PeerId {
    open spec fn obeys_eq_spec() -> bool {
        true
    }

    open spec fn eq_spec(&self, other: &PeerId) -> bool {
        self@ == other@
    }
}

impl Eq for PeerId {
}

/// A network address in its binary multiaddress encoding.
#[derive(Clone, Debug, PartialEq, Eq)]
pub struct Multiaddr {
    pub bytes: Vec<u8>,
}

impl Multiaddr {
    pub fn duplicate(&self) -> (r: Multiaddr)
        ensures
            r@ == self@,
    {
        Multiaddr { bytes: copy_bytes(&self.bytes) }
    }
}

impl View for Multiaddr {
    type V = Seq<u8>;

    open spec fn view(&self) -> Seq<u8> {
        self.bytes@
    }
}

/// Key of a record stored in the DHT.
#[derive(Clone, Debug, PartialEq, Eq)]
pub struct RecordKey {
    pub bytes: Vec<u8>,
}

impl View for RecordKey {
    type V = Seq<u8>;

    open spec fn view(&self) -> Seq<u8> {
        self.bytes@
    }
}

/// The identities of a list of peers.
pub open spec fn peers_view(peers: Seq<PeerId>) -> Seq<Seq<u8>> {
    peers.map_values(|p: PeerId| p@)
}


/// `k` is the first position of `x` in `s`.
pub open spec fn first_index_of<A>(s: Seq<A>, x: A, k: int) -> bool {
    &&& 0 <= k < s.len()
    &&& s[k] == x
    &&& forall|i: int| 0 <= i < k ==> s[i] != x
}

/// The text of each name in `list`.
pub open spec fn names_view(list: Seq<String>) -> Seq<Seq<char>> {
    list.map_values(|s: String| s@)
}

/// Whether `list` holds a name equal to `name`.
pub fn contains_name(list: &Vec<String>, name: &String) -> (r: bool)
    ensures
        r == names_view(list@).contains(name@),
{
    let mut i: usize = 0;
    while i < list.len()
        invariant
            i <= list@.len(),
            forall|k: int| 0 <= k < i ==> names_view(list@)[k] != name@,
        decreases list@.len() - i,
    {
        assert(names_view(list@)[i as int] == list@[i as int]@);
        if list[i] == *name {
            return true;
        }
        i = i + 1;
    }
    false
}

/// A copy of `v`.
pub fn copy_bytes(v: &Vec<u8>) -> (r: Vec<u8>)
    ensures
        r@ == v@,
{
    let mut out: Vec<u8> = Vec::new();
    let mut i: usize = 0;
    while i < v.len()
        invariant
            i <= v@.len(),
            out@ == v@.subrange(0, i as int),
        decreases v@.len() - i,
    {
        out.push(v[i]);
        i = i + 1;
        assert(out@ =~= v@.subrange(0, i as int));
    }
    assert(out@ =~= v@);
    out
}

/// Index of the first peer in `peers` with the identity of `p`.
pub fn position_of_peer(peers: &Vec<PeerId>, p: &PeerId) -> (r: Option<usize>)
    ensures
        match r {
            Some(k) => {
                &&& k < peers@.len()
                &&& peers@[k as int]@ == p@
                &&& forall|i: int| 0 <= i < k ==> peers@[i]@ != p@
            },
            None => forall|i: int| 0 <= i < peers@.len() ==> peers@[i]@ != p@,
        },
{
    let mut i: usize = 0;
    while i < peers.len()
        invariant
            i <= peers@.len(),
            forall|k: int| 0 <= k < i ==> peers@[k]@ != p@,
        decreases peers@.len() - i,
    {
        if peers[i].same_as(p) {
            return Some(i);
        }
        i = i + 1;
    }
    None
}

} // verus!
