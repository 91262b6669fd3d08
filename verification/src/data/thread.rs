use vstd::prelude::*;

verus! {

/// A Signal account, by its service identifier: an account identifier (ACI)
/// or a phone number identifier (PNI). The UUID is held as its 128-bit value.
#[derive(Debug, Clone, Copy, PartialEq, Eq, Hash)]
pub enum ContactId {
    Aci(u128),
    Pni(u128),
}

impl ContactId {
    /// The UUID of the account, whatever its kind.
    pub fn uuid(&self) -> (uuid: u128)
        ensures
            uuid == self.spec_uuid(),
    {
        match self {
            ContactId::Aci(uuid) => *uuid,
            ContactId::Pni(uuid) => *uuid,
        }
    }

    pub open spec fn spec_uuid(&self) -> u128 {
        match self {
            ContactId::Aci(uuid) => *uuid,
            ContactId::Pni(uuid) => *uuid,
        }
    }

    /// Whether two identifiers are the same.
    pub fn same(&self, other: &ContactId) -> (same: bool)
        ensures
            same == (*self == *other),
    {
        match (self, other) {
            (ContactId::Aci(a), ContactId::Aci(b)) => *a == *b,
            (ContactId::Pni(a), ContactId::Pni(b)) => *a == *b,
            _ => false,
        }
    }
}

/// A conversation: with one contact, or with a group, named by its master key.
#[derive(Debug, Clone, Copy, PartialEq, Eq, Hash)]
pub enum Thread {
    Contact(ContactId),
    Group([u8; 32]),
}

/// Whether two group master keys are the same.
pub fn same_key(a: &[u8; 32], b: &[u8; 32]) -> (same: bool)
    ensures
        same == (*a == *b),
{
    let mut i: usize = 0;
    while i < 32
        invariant
            i <= 32,
            forall|j: int| 0 <= j < i ==> a[j] == b[j],
        decreases 32 - i,
    {
        if a[i] != b[i] {
            return false;
        }
        i = i + 1;
    }
    proof {
        broadcast use vstd::array::axiom_array_ext_equal, vstd::array::lemma_array_index;
        assert(*a =~= *b);
    }
    true
}

impl Thread {
    /// Whether two threads are the same conversation.
    pub fn same(&self, other: &Thread) -> (same: bool)
        ensures
            same == (*self == *other),
    {
        match (self, other) {
            (Thread::Contact(a), Thread::Contact(b)) => a.same(b),
            (Thread::Group(a), Thread::Group(b)) => same_key(a, b),
            _ => false,
        }
    }
}

} // verus!
