use vstd::prelude::*;

verus! {

/// An account or contract address, held as the bytes of its canonical
/// string form.
#[derive(Clone, PartialEq, Eq, Debug)]
pub struct Address {
    pub bytes: Vec<u8>,
}

/// The 32-byte identifier of an AutoShare group.
#[derive(Clone, PartialEq, Eq, Debug)]
pub struct GroupId {
    pub bytes: Vec<u8>,
}

impl View for Address {
    type V = Seq<u8>;

    open spec fn view(&self) -> Seq<u8> {
        self.bytes@
    }
}

impl View for GroupId {
    type V = Seq<u8>;

    open spec fn view(&self) -> Seq<u8> {
        self.bytes@
    }
}

/// Byte-wise equality of two byte strings.
pub fn bytes_equal(a: &Vec<u8>, b: &Vec<u8>) -> (r: bool)
    ensures
        r == (a@ == b@),
{
    if a.len() != b.len() {
        return false;
    }
    let n = a.len();
    let mut i: usize = 0;
    while i < n
        invariant
            n == a.len(),
            n == b.len(),
            i <= n,
            forall|j: int| 0 <= j < i ==> a@[j] == b@[j],
        decreases n - i,
    {
        if a[i] != b[i] {
            return false;
        }
        i = i + 1;
    }
    assert(a@ =~= b@);
    true
}

/// A copy of a byte string with the same contents.
pub fn bytes_copy(a: &Vec<u8>) -> (r: Vec<u8>)
    ensures
        r@ == a@,
{
    let mut r: Vec<u8> = Vec::new();
    let n = a.len();
    let mut i: usize = 0;
    while i < n
        invariant
            n == a.len(),
            i <= n,
            r@ == a@.subrange(0, i as int),
        decreases n - i,
    {
        r.push(a[i]);
        i = i + 1;
        assert(r@ =~= a@.subrange(0, i as int));
    }
    assert(r@ =~= a@);
    r
}

impl Address {
    /// Builds an address from the bytes of its canonical string form.
    pub fn from_bytes(bytes: Vec<u8>) -> (r: Address)
        ensures
            r@ == bytes@,
    {
        Address { bytes }
    }

    /// Whether two addresses are the same.
    pub fn equals(&self, other: &Address) -> (r: bool)
        ensures
            r == (self@ == other@),
    {
        bytes_equal(&self.bytes, &other.bytes)
    }

    /// A copy of this address.
    pub fn duplicate(&self) -> (r: Address)
        ensures
            r@ == self@,
    {
        Address { bytes: bytes_copy(&self.bytes) }
    }
}

impl GroupId {
    /// Builds a group identifier from its bytes.
    pub fn from_bytes(bytes: Vec<u8>) -> (r: GroupId)
        ensures
            r@ == bytes@,
    {
        GroupId { bytes }
    }

    /// Whether two identifiers are the same.
    pub fn equals(&self, other: &GroupId) -> (r: bool)
        ensures
            r == (self@ == other@),
    {
        bytes_equal(&self.bytes, &other.bytes)
    }

    /// A copy of this identifier.
    pub fn duplicate(&self) -> (r: GroupId)
        ensures
            r@ == self@,
    {
        GroupId { bytes: bytes_copy(&self.bytes) }
    }
}

} // verus!
