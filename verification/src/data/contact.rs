use vstd::prelude::*;

verus! {

/// A contact of the account: its UUID and the name it is known by, which may
/// be empty.
#[derive(Debug, Clone)]
pub struct Contact {
    pub uuid: u128,
    pub name: String,
}

/// A group the account belongs to: its master key and its title.
#[derive(Debug, Clone)]
pub struct Group {
    pub master_key: [u8; 32],
    pub title: String,
}

/// Whether `i` is the first position in `contacts` of a contact with `uuid`.
pub open spec fn first_contact_at(contacts: Seq<Contact>, uuid: u128, i: int) -> bool {
    &&& 0 <= i < contacts.len()
    &&& contacts[i].uuid == uuid
    &&& forall|j: int| 0 <= j < i ==> contacts[j].uuid != uuid
}

/// The name that `contacts` gives to `uuid`: that of the first contact with
/// that UUID, unless it is empty; `None` when there is none.
pub open spec fn spec_contact_name(contacts: Seq<Contact>, uuid: u128) -> Option<Seq<char>> {
    if exists|i: int| first_contact_at(contacts, uuid, i) {
        let i = choose|i: int| first_contact_at(contacts, uuid, i);
        if contacts[i].name@.len() > 0 {
            Some(contacts[i].name@)
        } else {
            None
        }
    } else {
        None
    }
}

/// The first position of a contact with `uuid`, at most one such position.
pub proof fn lemma_first_contact_unique(contacts: Seq<Contact>, uuid: u128, i: int, k: int)
    requires
        first_contact_at(contacts, uuid, i),
        first_contact_at(contacts, uuid, k),
    ensures
        i == k,
{
    if i < k {
        assert(contacts[i].uuid != uuid);
    } else if k < i {
        assert(contacts[k].uuid != uuid);
    }
}

/// The name of the contact with `uuid`: that of the first contact in
/// `contacts` with that UUID, or `None` when there is none or its name is
/// empty.
pub fn contact_name(contacts: &[Contact], uuid: u128) -> (name: Option<&str>)
    ensures
        match name {
            Some(n) => spec_contact_name(contacts@, uuid) == Some(n@),
            None => spec_contact_name(contacts@, uuid) is None,
        },
{
    let mut i: usize = 0;
    while i < contacts.len()
        invariant
            i <= contacts@.len(),
            forall|j: int| 0 <= j < i ==> contacts@[j].uuid != uuid,
        decreases contacts.len() - i,
    {
        if contacts[i].uuid == uuid {
            proof {
                assert(first_contact_at(contacts@, uuid, i as int));
                let k = choose|k: int| first_contact_at(contacts@, uuid, k);
                lemma_first_contact_unique(contacts@, uuid, i as int, k);
            }
            let name = contacts[i].name.as_str();
            if name.is_empty() {
                return None;
            } else {
                return Some(name);
            }
        }
        i = i + 1;
    }
    None
}

} // verus!
