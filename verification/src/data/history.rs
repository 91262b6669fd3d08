//! Operations on the message history of a conversation: merging, ordering
//! by time, and statuses.

use vstd::prelude::*;

use super::message::{Message, Status};

verus! {

/// Whether two messages are the same message: the same timestamp and sender.
pub open spec fn same_message(a: Message, b: Message) -> bool {
    a.timestamp == b.timestamp && a.sender == b.sender
}

/// Whether `i` is the first position in `history` of the message `m`.
pub open spec fn first_same_at(history: Seq<Message>, m: Message, i: int) -> bool {
    &&& 0 <= i < history.len()
    &&& same_message(history[i], m)
    &&& forall|j: int| 0 <= j < i ==> !same_message(history[j], m)
}

/// `history` after taking in `m`: it replaces the first copy of the same
/// message, or comes last when there is none.
pub open spec fn absorb(history: Seq<Message>, m: Message) -> Seq<Message> {
    if exists|i: int| first_same_at(history, m, i) {
        history.update(choose|i: int| first_same_at(history, m, i), m)
    } else {
        history.push(m)
    }
}

/// `history` after taking in each message of `live` in order.
pub open spec fn absorb_all(history: Seq<Message>, live: Seq<Message>) -> Seq<Message>
    decreases live.len(),
{
    if live.len() == 0 {
        history
    } else {
        absorb(absorb_all(history, live.drop_last()), live.last())
    }
}

proof fn lemma_first_same_unique(history: Seq<Message>, m: Message, i: int, k: int)
    requires
        first_same_at(history, m, i),
        first_same_at(history, m, k),
    ensures
        i == k,
{
    if i < k {
        assert(!same_message(history[i], m));
    } else if k < i {
        assert(!same_message(history[k], m));
    }
}

/// Takes `m` into `history`: replaces the first copy of the same message,
/// or appends it.
pub fn absorb_message(history: &mut Vec<Message>, m: Message)
    ensures
        final(history)@ == absorb(old(history)@, m),
{
    let mut i: usize = 0;
    while i < history.len()
        invariant
            i <= history@.len(),
            history@ == old(history)@,
            forall|j: int| 0 <= j < i ==> !same_message(history@[j], m),
        decreases history.len() - i,
    {
        if history[i].timestamp == m.timestamp && history[i].sender == m.sender {
            proof {
                assert(first_same_at(history@, m, i as int));
                let k = choose|k: int| first_same_at(history@, m, k);
                lemma_first_same_unique(history@, m, i as int, k);
            }
            history.set(i, m);
            return;
        }
        i = i + 1;
    }
    history.push(m);
}

/// Whether `live[j]` is the last arrival of its message in `live`.
pub open spec fn last_arrival(live: Seq<Message>, j: int) -> bool {
    &&& 0 <= j < live.len()
    &&& forall|k: int| j < k < live.len() ==> !same_message(#[trigger] live[k], live[j])
}

/// The law of merging: every message that arrived is in the merged history,
/// unless a later arrival of the same message replaced it.
pub proof fn lemma_absorb_all_keeps(history: Seq<Message>, live: Seq<Message>, j: int)
    requires
        last_arrival(live, j),
    ensures
        absorb_all(history, live).contains(live[j]),
    decreases live.len(),
{
    let rest = live.drop_last();
    let m = live.last();
    let before = absorb_all(history, rest);
    if j == live.len() - 1 {
        if exists|i: int| first_same_at(before, m, i) {
            let i = choose|i: int| first_same_at(before, m, i);
            assert(absorb(before, m)[i] == m);
        } else {
            assert(absorb(before, m)[before.len() as int] == m);
        }
    } else {
        assert(last_arrival(rest, j)) by {
            assert forall|k: int| j < k < rest.len() implies !same_message(#[trigger] rest[k], rest[j]) by {
                assert(rest[k] == live[k]);
            };
        };
        lemma_absorb_all_keeps(history, rest, j);
        assert(rest[j] == live[j]);
        let x = live[j];
        let p = choose|p: int| 0 <= p < before.len() && before[p] == x;
        assert(!same_message(m, x));
        if exists|i: int| first_same_at(before, m, i) {
            let i = choose|i: int| first_same_at(before, m, i);
            assert(i != p);
            assert(absorb(before, m)[p] == x);
        } else {
            assert(absorb(before, m)[p] == x);
        }
    }
}

/// The position at which a message sent at `t` goes into `s` to keep a
/// stable order by time: before the first message sent later than `t`.
pub open spec fn insert_pos(s: Seq<Message>, t: u64) -> int
    decreases s.len(),
{
    if s.len() == 0 {
        0
    } else if s[0].timestamp > t {
        0
    } else {
        1 + insert_pos(s.drop_first(), t)
    }
}

/// `s`, in which `m` goes before the first message sent later than it.
pub open spec fn insert_by_time(s: Seq<Message>, m: Message) -> Seq<Message> {
    s.insert(insert_pos(s, m.timestamp), m)
}

/// `s` ordered by time, messages sent at the same time kept in the order in
/// which they come in `s` (a stable sort by timestamp).
pub open spec fn sort_by_time(s: Seq<Message>) -> Seq<Message>
    decreases s.len(),
{
    if s.len() == 0 {
        s
    } else {
        insert_by_time(sort_by_time(s.drop_last()), s.last())
    }
}

/// Whether `s` is ordered by time.
pub open spec fn ordered_by_time(s: Seq<Message>) -> bool {
    forall|i: int, j: int| 0 <= i <= j < s.len() ==> s[i].timestamp <= s[j].timestamp
}

/// The position before the first message sent later than `t` is the one
/// that `insert_pos` gives.
pub proof fn lemma_insert_pos(s: Seq<Message>, t: u64, p: int)
    requires
        0 <= p <= s.len(),
        forall|j: int| 0 <= j < p ==> s[j].timestamp <= t,
        p == s.len() || s[p].timestamp > t,
    ensures
        insert_pos(s, t) == p,
    decreases p,
{
    if p > 0 {
        lemma_insert_pos(s.drop_first(), t, p - 1);
    }
}

/// `insert_pos` lies within the sequence; before it every message was sent
/// no later than `t`.
pub proof fn lemma_insert_pos_bounds(s: Seq<Message>, t: u64)
    ensures
        0 <= insert_pos(s, t) <= s.len(),
        forall|j: int| 0 <= j < insert_pos(s, t) ==> s[j].timestamp <= t,
        insert_pos(s, t) < s.len() ==> s[insert_pos(s, t)].timestamp > t,
    decreases s.len(),
{
    if s.len() > 0 && s[0].timestamp <= t {
        lemma_insert_pos_bounds(s.drop_first(), t);
        assert forall|j: int| 0 <= j < insert_pos(s, t) implies s[j].timestamp <= t by {
            if j > 0 {
                assert(s[j] == s.drop_first()[j - 1]);
            }
        };
    }
}

/// Inserting by time into an ordered sequence keeps it ordered.
pub proof fn lemma_insert_by_time_ordered(s: Seq<Message>, m: Message)
    requires
        ordered_by_time(s),
    ensures
        ordered_by_time(insert_by_time(s, m)),
        insert_by_time(s, m).to_multiset() == s.to_multiset().insert(m),
{
    lemma_insert_pos_bounds(s, m.timestamp);
    let p = insert_pos(s, m.timestamp);
    let r = insert_by_time(s, m);
    assert forall|i: int, j: int| 0 <= i <= j < r.len() implies r[i].timestamp
        <= r[j].timestamp by {
        if i < p && j < p {
        } else if i < p && j == p {
        } else if i < p {
            assert(r[j] == s[j - 1]);
        } else if i == p && j == p {
        } else if i == p {
            assert(r[j] == s[j - 1]);
            assert(s[p].timestamp > m.timestamp);
        } else {
            assert(r[i] == s[i - 1]);
            assert(r[j] == s[j - 1]);
        }
    };
    vstd::seq_lib::to_multiset_insert(s, p, m);
}

/// The law of `sort_by_time`: its result is ordered by time and holds the
/// same messages, as many times each, as its argument.
pub proof fn lemma_sort_by_time(s: Seq<Message>)
    ensures
        ordered_by_time(sort_by_time(s)),
        sort_by_time(s).to_multiset() == s.to_multiset(),
        sort_by_time(s).len() == s.len(),
    decreases s.len(),
{
    if s.len() > 0 {
        let rest = s.drop_last();
        lemma_sort_by_time(rest);
        lemma_insert_by_time_ordered(sort_by_time(rest), s.last());
        assert(s =~= rest.push(s.last()));
        vstd::seq_lib::to_multiset_build(rest, s.last());
        vstd::seq_lib::to_multiset_len(s);
        vstd::seq_lib::to_multiset_len(sort_by_time(s));
    } else {
        assert(sort_by_time(s) == s);
    }
}

/// Whether `m` was sent at `t`.
pub open spec fn sent_at(t: u64) -> spec_fn(Message) -> bool {
    |m: Message| m.timestamp == t
}

/// Inserting by time into an ordered sequence puts the message after every
/// message sent at the same time.
proof fn lemma_insert_by_time_filter(s: Seq<Message>, m: Message, t: u64)
    requires
        ordered_by_time(s),
    ensures
        insert_by_time(s, m).filter(sent_at(t)) == if m.timestamp == t {
            s.filter(sent_at(t)).push(m)
        } else {
            s.filter(sent_at(t))
        },
{
    lemma_insert_pos_bounds(s, m.timestamp);
    let p = insert_pos(s, m.timestamp);
    let head = s.take(p);
    let tail = s.skip(p);
    assert(s =~= head + tail);
    assert(insert_by_time(s, m) =~= head + seq![m] + tail);
    Seq::filter_distributes_over_add(head + seq![m], tail, sent_at(t));
    Seq::filter_distributes_over_add(head, seq![m], sent_at(t));
    Seq::filter_distributes_over_add(head, tail, sent_at(t));
    assert(seq![m] =~= Seq::<Message>::empty().push(m));
    Seq::<Message>::empty().lemma_filter_push(m, sent_at(t));
    assert(Seq::<Message>::empty().filter(sent_at(t)) =~= Seq::<Message>::empty());
    if m.timestamp == t {
        assert forall|i: int| 0 <= i < tail.len() implies !sent_at(t)(tail[i]) by {
            assert(tail[i] == s[p + i]);
            assert(s[p].timestamp <= s[p + i].timestamp);
        };
        tail.lemma_all_neg_filter_empty(sent_at(t));
        assert(head.filter(sent_at(t)) + seq![m] =~= head.filter(sent_at(t)).push(m));
        assert(head.filter(sent_at(t)) + tail.filter(sent_at(t)) =~= head.filter(sent_at(t)));
    } else {
        assert(head.filter(sent_at(t)) + Seq::<Message>::empty() =~= head.filter(sent_at(t)));
    }
}

/// The law of stability of `sort_by_time`: the messages sent at any one
/// time keep the order in which they came.
pub proof fn lemma_sort_by_time_stable(s: Seq<Message>, t: u64)
    ensures
        sort_by_time(s).filter(sent_at(t)) == s.filter(sent_at(t)),
    decreases s.len(),
{
    if s.len() > 0 {
        let rest = s.drop_last();
        lemma_sort_by_time_stable(rest, t);
        lemma_sort_by_time(rest);
        lemma_insert_by_time_filter(sort_by_time(rest), s.last(), t);
        assert(s =~= rest.push(s.last()));
        rest.lemma_filter_push(s.last(), sent_at(t));
    }
}

/// The law of status reports: a message keeps its timestamp, sender and
/// body, and its status never moves back; a message of one's own among
/// those reported ends at the reported status or a later one.
pub proof fn lemma_upgraded_advances(m: Message, aci: u128, timestamps: Seq<u64>, status: Status)
    ensures
        upgraded(m, aci, timestamps, status).timestamp == m.timestamp,
        upgraded(m, aci, timestamps, status).sender == m.sender,
        upgraded(m, aci, timestamps, status).body == m.body,
        m.status matches Some(before) ==> (upgraded(m, aci, timestamps, status).status matches Some(
            after,
        ) && after.rank() >= before.rank()),
        m.sender == aci && timestamps.contains(m.timestamp) ==> (upgraded(
            m,
            aci,
            timestamps,
            status,
        ).status matches Some(after) && after.rank() >= status.rank()),
        m.sender != aci ==> upgraded(m, aci, timestamps, status) == m,
{
}

/// The law of status reports on a message: a message that was not reported
/// (its timestamp is not among `timestamps`), or that is not one's own, is
/// left as it was; a reported message of one's own takes the reported status
/// when it had none or an earlier one, and otherwise keeps its own.
pub proof fn lemma_report_changes_only_reported(
    m: Message,
    aci: u128,
    timestamps: Seq<u64>,
    status: Status,
)
    ensures
        !timestamps.contains(m.timestamp) ==> upgraded(m, aci, timestamps, status) == m,
        m.sender != aci ==> upgraded(m, aci, timestamps, status) == m,
        m.sender == aci && timestamps.contains(m.timestamp) && m.status is None ==> upgraded(
            m,
            aci,
            timestamps,
            status,
        ) == (Message { status: Some(status), ..m }),
        m.sender == aci && timestamps.contains(m.timestamp) && (m.status matches Some(current)
            && current.rank() < status.rank()) ==> upgraded(m, aci, timestamps, status) == (
        Message { status: Some(status), ..m }),
        (m.status matches Some(current) && current.rank() >= status.rank()) ==> upgraded(
            m,
            aci,
            timestamps,
            status,
        ) == m,
{
}

/// Orders `messages` by time, keeping the order of those sent at the same
/// time (a stable sort by timestamp).
pub fn sort_by_timestamp(messages: Vec<Message>) -> (sorted: Vec<Message>)
    ensures
        sorted@ == sort_by_time(messages@),
{
    let mut sorted: Vec<Message> = Vec::new();
    let mut i: usize = 0;
    while i < messages.len()
        invariant
            i <= messages@.len(),
            sorted@ == sort_by_time(messages@.take(i as int)),
        decreases messages.len() - i,
    {
        let m = messages[i].duplicate();
        let ghost before = sorted@;
        proof {
            assert(messages@.take(i + 1).drop_last() =~= messages@.take(i as int));
            lemma_insert_pos_bounds(before, m.timestamp);
        }
        let mut p: usize = 0;
        while p < sorted.len() && sorted[p].timestamp <= m.timestamp
            invariant
                p <= sorted@.len(),
                sorted@ == before,
                forall|j: int| 0 <= j < p ==> sorted@[j].timestamp <= m.timestamp,
            decreases sorted.len() - p,
        {
            p = p + 1;
        }
        proof {
            lemma_insert_pos(before, m.timestamp, p as int);
        }
        sorted.insert(p, m);
        i = i + 1;
    }
    proof {
        assert(messages@.take(messages@.len() as int) =~= messages@);
    }
    sorted
}

/// The messages of one's own, by their timestamps, in order.
pub open spec fn own_timestamps(s: Seq<Message>, aci: u128) -> Seq<u64>
    decreases s.len(),
{
    if s.len() == 0 {
        Seq::empty()
    } else if s.last().sender == aci {
        own_timestamps(s.drop_last(), aci).push(s.last().timestamp)
    } else {
        own_timestamps(s.drop_last(), aci)
    }
}

/// The timestamps of the messages that `aci` sent, in order: those whose
/// stored status is asked for.
pub fn own_message_timestamps(messages: &[Message], aci: u128) -> (timestamps: Vec<u64>)
    ensures
        timestamps@ == own_timestamps(messages@, aci),
{
    let mut timestamps: Vec<u64> = Vec::new();
    let mut i: usize = 0;
    while i < messages.len()
        invariant
            i <= messages@.len(),
            timestamps@ == own_timestamps(messages@.take(i as int), aci),
        decreases messages.len() - i,
    {
        proof {
            assert(messages@.take(i + 1).drop_last() =~= messages@.take(i as int));
        }
        if messages[i].sender == aci {
            timestamps.push(messages[i].timestamp);
        }
        i = i + 1;
    }
    proof {
        assert(messages@.take(messages@.len() as int) =~= messages@);
    }
    timestamps
}

/// `m` after a report that the messages sent at `timestamps` reached
/// `status`: a message of one's own among them takes the status if it had
/// none or an earlier one; other messages are unchanged.
pub open spec fn upgraded(m: Message, aci: u128, timestamps: Seq<u64>, status: Status) -> Message {
    if m.sender == aci && timestamps.contains(m.timestamp) && (match m.status {
        None => true,
        Some(current) => current.rank() < status.rank(),
    }) {
        Message { status: Some(status), ..m }
    } else {
        m
    }
}

/// Whether `timestamps` holds `t`.
pub fn contains_timestamp(timestamps: &[u64], t: u64) -> (found: bool)
    ensures
        found == timestamps@.contains(t),
{
    let mut i: usize = 0;
    while i < timestamps.len()
        invariant
            i <= timestamps@.len(),
            forall|j: int| 0 <= j < i ==> timestamps@[j] != t,
        decreases timestamps.len() - i,
    {
        if timestamps[i] == t {
            assert(timestamps@[i as int] == t);
            return true;
        }
        i = i + 1;
    }
    false
}

/// Applies a status report to each message of `history`.
pub fn upgrade_statuses(history: &mut Vec<Message>, aci: u128, timestamps: &[u64], status: Status)
    ensures
        final(history)@ == old(history)@.map_values(
            |m: Message| upgraded(m, aci, timestamps@, status),
        ),
{
    let ghost start = history@;
    let mut i: usize = 0;
    while i < history.len()
        invariant
            i <= history@.len(),
            history@.len() == start.len(),
            forall|j: int| 0 <= j < i ==> history@[j] == upgraded(start[j], aci, timestamps@, status),
            forall|j: int| i <= j < history@.len() ==> history@[j] == start[j],
        decreases history.len() - i,
    {
        let m = &history[i];
        let raise = m.sender == aci && contains_timestamp(timestamps, m.timestamp) && match m.status {
            None => true,
            Some(current) => current.precedes(status),
        };
        if raise {
            let mut updated = history[i].duplicate();
            updated.status = Some(status);
            history.set(i, updated);
        }
        i = i + 1;
    }
    assert(history@ =~= start.map_values(|m: Message| upgraded(m, aci, timestamps@, status)));
}

/// The message that was sent last: of those with the greatest timestamp,
/// the one that comes last.
pub open spec fn latest(s: Seq<Message>) -> Option<Message>
    decreases s.len(),
{
    if s.len() == 0 {
        None
    } else {
        match latest(s.drop_last()) {
            None => Some(s.last()),
            Some(m) => if s.last().timestamp >= m.timestamp {
                Some(s.last())
            } else {
                Some(m)
            },
        }
    }
}

/// The latest message of `messages`, as `Iterator::max_by_key` on the
/// timestamp picks it: the last of those with the greatest timestamp.
pub fn latest_message(messages: &[Message]) -> (last: Option<Message>)
    ensures
        last == latest(messages@),
{
    let mut best: Option<Message> = None;
    let mut i: usize = 0;
    while i < messages.len()
        invariant
            i <= messages@.len(),
            best == latest(messages@.take(i as int)),
        decreases messages.len() - i,
    {
        proof {
            assert(messages@.take(i + 1).drop_last() =~= messages@.take(i as int));
        }
        let take = match &best {
            None => true,
            Some(m) => messages[i].timestamp >= m.timestamp,
        };
        if take {
            best = Some(messages[i].duplicate());
        }
        i = i + 1;
    }
    proof {
        assert(messages@.take(messages@.len() as int) =~= messages@);
    }
    best
}

} // verus!
