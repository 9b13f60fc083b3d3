//! Plain values shared by every contract of the protocol.
use vstd::prelude::*;

verus! {

/// A 32-byte value: an intent id, a Wasm hash, an emitter or a public key.
#[derive(Clone, Copy, Debug, Eq)]
pub struct Bytes32(pub [u8; 32]);

impl Bytes32 {
    /// Whether two values hold the same bytes.
    pub fn same_as(&self, other: &Self) -> (r: bool)
        ensures
            r == (*self == *other),
    {
        let mut i: usize = 0;
        while i < 32
            invariant
                i <= 32,
                forall|j: int| 0 <= j < i ==> self.0@[j] == other.0@[j],
            decreases 32 - i,
        {
            if self.0[i] != other.0[i] {
                return false;
            }
            i += 1;
        }
        assert(self.0@ =~= other.0@);
        assert(self.0 =~= other.0);
        true
    }
}

impl View for Bytes32 {
    type V = Bytes32;

    open spec fn view(&self) -> Bytes32 {
        *self
    }
}

/// The value whose bytes are `bytes`.
pub open spec fn bytes32(bytes: Seq<u8>) -> Bytes32 {
    choose|b: Bytes32| b.0@ == bytes
}

/// A value is the one with its bytes.
pub proof fn lemma_bytes32(b: Bytes32)
    ensures
        bytes32(b.0@) == b,
{
    let c = bytes32(b.0@);
    assert(c.0@ == b.0@);
    assert(c.0 =~= b.0);
}

/// The 32 bytes of `bytes` from position `from` on.
pub fn read_bytes32(bytes: &Vec<u8>, from: usize) -> (r: Bytes32)
    requires
        from + 32 <= bytes@.len(),
    ensures
        r == bytes32(bytes@.subrange(from as int, from + 32)),
        r.0@ == bytes@.subrange(from as int, from + 32),
{
    let len: usize = bytes.len();
    let mut out: [u8; 32] = [0u8;32];
    let mut i: usize = 0;
    while i < 32
        invariant
            i <= 32,
            from + 32 <= len == bytes@.len(),
            forall|j: int| 0 <= j < i ==> out@[j] == bytes@[from + j],
        decreases 32 - i,
    {
        out[i] = bytes[from + i];
        i += 1;
    }
    let r = Bytes32(out);
    proof {
        assert(r.0@ =~= bytes@.subrange(from as int, from + 32));
        lemma_bytes32(r);
    }
    r
}

impl PartialEq for Bytes32 {
    fn eq(&self, other: &Self) -> (r: bool) {
        self.same_as(other)
    }
}

impl vstd::std_specs::cmp::PartialEqSpecImpl for Bytes32 {
    open spec fn obeys_eq_spec() -> bool {
        true
    }

    open spec fn eq_spec(&self, other: &Self) -> bool {
        *self == *other
    }
}

/// A Stellar address: a classic account, named by its Ed25519 public key, or
/// a contract, named by its hash.
#[derive(Clone, Copy, Debug, Eq)]
pub enum Address {
    Account(Bytes32),
    Contract(Bytes32),
}

impl Address {
    /// Whether two addresses are the same.
    pub fn same_as(&self, other: &Self) -> (r: bool)
        ensures
            r == (*self == *other),
    {
        match (self, other) {
            (Address::Account(a), Address::Account(b)) => a.same_as(b),
            (Address::Contract(a), Address::Contract(b)) => a.same_as(b),
            _ => false,
        }
    }
}

impl PartialEq for Address {
    fn eq(&self, other: &Self) -> (r: bool) {
        self.same_as(other)
    }
}

impl vstd::std_specs::cmp::PartialEqSpecImpl for Address {
    open spec fn obeys_eq_spec() -> bool {
        true
    }

    open spec fn eq_spec(&self, other: &Self) -> bool {
        *self == *other
    }
}

/// Whether two byte strings hold the same bytes.
pub fn same_bytes(a: &Vec<u8>, b: &Vec<u8>) -> (r: bool)
    ensures
        r == (a@ == b@),
{
    if a.len() != b.len() {
        return false;
    }
    let mut i: usize = 0;
    while i < a.len()
        invariant
            i <= a@.len(),
            a@.len() == b@.len(),
            forall|j: int| 0 <= j < i ==> a@[j] == b@[j],
        decreases a@.len() - i,
    {
        if a[i] != b[i] {
            return false;
        }
        i += 1;
    }
    assert(a@ =~= b@);
    true
}

/// A copy of a byte string.
pub fn copy_bytes(a: &Vec<u8>) -> (r: Vec<u8>)
    ensures
        r@ == a@,
{
    let r = a.clone();
    assert(r@ =~= a@);
    r
}

} // verus!
