use vstd::prelude::*;

use crate::data::ident::{uuid_byte, uuid_bytes};
use crate::data::Thread;

verus! {

/// The number of accent colours of the palette.
pub const ACCENT_COUNT: usize = 8;

/// The sum of the bytes of `seed`.
pub open spec fn byte_sum(seed: Seq<u8>) -> nat
    decreases seed.len(),
{
    if seed.len() == 0 {
        0
    } else {
        byte_sum(seed.drop_last()) + seed.last() as nat
    }
}

/// Taking out the byte at `i` takes it out of the sum.
proof fn lemma_byte_sum_remove(seed: Seq<u8>, i: int)
    requires
        0 <= i < seed.len(),
    ensures
        byte_sum(seed) == byte_sum(seed.remove(i)) + seed[i] as nat,
    decreases seed.len(),
{
    if i == seed.len() - 1 {
        assert(seed.remove(i) =~= seed.drop_last());
    } else {
        let rest = seed.remove(i);
        assert(rest.drop_last() =~= seed.drop_last().remove(i));
        assert(rest.last() == seed.last());
        lemma_byte_sum_remove(seed.drop_last(), i);
    }
}

/// The law of accent colours: the sum of a seed's bytes, and so the accent
/// picked for it, does not depend on the order of the bytes.
pub proof fn lemma_accent_ignores_order(first: Seq<u8>, second: Seq<u8>)
    requires
        first.to_multiset() == second.to_multiset(),
    ensures
        byte_sum(first) == byte_sum(second),
        byte_sum(first) % (ACCENT_COUNT as nat) == byte_sum(second) % (ACCENT_COUNT as nat),
    decreases first.len(),
{
    broadcast use vstd::seq_lib::group_to_multiset_ensures;

    if first.len() == 0 {
        assert(second.to_multiset().len() == 0);
        assert(second =~= first);
    } else {
        let x = first.last();
        assert(first.to_multiset().count(x) > 0) by {
            assert(first.contains(x)) by {
                assert(first[first.len() - 1] == x);
            }
        }
        assert(second.contains(x));
        let i = second.index_of(x);
        vstd::seq_lib::to_multiset_remove(second, i);
        vstd::seq_lib::to_multiset_remove(first, first.len() - 1);
        assert(first.remove(first.len() - 1) =~= first.drop_last());
        lemma_accent_ignores_order(first.drop_last(), second.remove(i));
        lemma_byte_sum_remove(second, i);
    }
}

/// The accent colour picked for `seed`, by its position in the palette: the
/// sum of its bytes modulo the number of accents.
pub fn accent_index(seed: &[u8]) -> (index: usize)
    ensures
        index as nat == byte_sum(seed@) % (ACCENT_COUNT as nat),
        index < ACCENT_COUNT,
{
    let mut rest: usize = 0;
    let mut i: usize = 0;
    while i < seed.len()
        invariant
            i <= seed@.len(),
            rest < ACCENT_COUNT,
            rest as nat == byte_sum(seed@.take(i as int)) % (ACCENT_COUNT as nat),
        decreases seed.len() - i,
    {
        proof {
            assert(seed@.take(i + 1).drop_last() =~= seed@.take(i as int));
            let before = byte_sum(seed@.take(i as int));
            vstd::arithmetic::div_mod::lemma_add_mod_noop(before as int, seed@[i as int] as int, 8);
        }
        rest = (rest + seed[i] as usize) % ACCENT_COUNT;
        i = i + 1;
    }
    proof {
        assert(seed@.take(seed@.len() as int) =~= seed@);
    }
    rest
}

/// The bytes whose sum picks a conversation's accent: the UUID of the
/// contact in big-endian order, or the group's master key.
pub open spec fn accent_seed(thread: Thread) -> Seq<u8> {
    match thread {
        Thread::Contact(contact) => Seq::new(16, |i: int| uuid_byte(contact.spec_uuid(), i)),
        Thread::Group(master_key) => master_key@,
    }
}

/// The accent colour of a conversation, by its position in the palette.
pub fn thread_accent(thread: &Thread) -> (index: usize)
    ensures
        index as nat == byte_sum(accent_seed(*thread)) % (ACCENT_COUNT as nat),
        index < ACCENT_COUNT,
{
    match thread {
        Thread::Contact(contact) => {
            let bytes = uuid_bytes(contact.uuid());
            assert(bytes@ =~= accent_seed(*thread));
            accent_index(&bytes)
        },
        Thread::Group(master_key) => accent_index(master_key),
    }
}

} // verus!
