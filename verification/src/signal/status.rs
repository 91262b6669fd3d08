use std::collections::HashMap;

use vstd::prelude::*;

use crate::data::Status;

verus! {

broadcast use vstd::std_specs::hash::group_hash_axioms;

/// The number of timestamps that one query of the status table asks for.
pub const STATUS_CHUNK: usize = 500;

/// The integer that stands for `status` in the status table: its position in
/// the order in which a message advances.
pub fn to_int(status: Status) -> (value: i64)
    ensures
        value == status.rank(),
{
    match status {
        Status::Sending => 0,
        Status::Failed => 1,
        Status::Sent => 2,
        Status::Delivered => 3,
        Status::Read => 4,
    }
}

/// The status that `value` stands for in the status table, if any.
pub open spec fn spec_from_int(value: i64) -> Option<Status> {
    if value == 0 {
        Some(Status::Sending)
    } else if value == 1 {
        Some(Status::Failed)
    } else if value == 2 {
        Some(Status::Sent)
    } else if value == 3 {
        Some(Status::Delivered)
    } else if value == 4 {
        Some(Status::Read)
    } else {
        None
    }
}

/// The status that an integer of the status table stands for; `None` for an
/// integer that stands for none.
pub fn from_int(value: i64) -> (status: Option<Status>)
    ensures
        status == spec_from_int(value),
{
    match value {
        0 => Some(Status::Sending),
        1 => Some(Status::Failed),
        2 => Some(Status::Sent),
        3 => Some(Status::Delivered),
        4 => Some(Status::Read),
        _ => None,
    }
}

/// Reading back the integer that a status is stored as gives the status; and
/// the table's `MAX` over the integers is the later of two statuses.
pub proof fn lemma_status_int_round_trip(status: Status, other: Status)
    ensures
        spec_from_int(status.rank() as i64) == Some(status),
        (status.rank() < other.rank()) == ((status.rank() as i64) < (other.rank() as i64)),
        status.rank() == other.rank() ==> status == other,
{
}

/// `n` question marks separated by commas: the placeholders of a list of
/// `n` values in a query.
pub open spec fn spec_placeholders(n: nat) -> Seq<char>
    decreases n,
{
    if n == 0 {
        Seq::empty()
    } else if n == 1 {
        seq!['?']
    } else {
        spec_placeholders((n - 1) as nat) + seq![',', '?']
    }
}

/// The placeholders of a list of `n` values in a query: `?,?,…,?`.
pub fn placeholders(n: usize) -> (text: String)
    ensures
        text@ == spec_placeholders(n as nat),
{
    let mut text = String::new();
    let mut i: usize = 0;
    while i < n
        invariant
            i <= n,
            text@ == spec_placeholders(i as nat),
        decreases n - i,
    {
        if i == 0 {
            text.append("?");
        } else {
            text.append(",?");
        }
        proof {
            reveal_strlit("?");
            reveal_strlit(",?");
        }
        i = i + 1;
    }
    text
}

/// The head of the query that reads the stored statuses of some timestamps.
pub open spec fn status_query_head() -> Seq<char> {
    "SELECT timestamp, status FROM petunia_message_status\n                WHERE timestamp IN ("@
}

/// The query that reads the stored statuses of `n` timestamps, bound in
/// order to its placeholders.
pub fn status_query(n: usize) -> (sql: String)
    ensures
        sql@ == status_query_head() + spec_placeholders(n as nat) + seq![')'],
{
    let mut sql = String::from_str(
        "SELECT timestamp, status FROM petunia_message_status\n                WHERE timestamp IN (",
    );
    let list = placeholders(n);
    sql.append(list.as_str());
    sql.append(")");
    proof {
        reveal_strlit(")");
    }
    sql
}

/// The statuses after taking in the rows `(timestamp, integer)` of the
/// status table in order: a row whose integer stands for a status records it
/// for its timestamp, read as unsigned; other rows are skipped.
pub open spec fn spec_take_rows(statuses: Map<u64, Status>, rows: Seq<(i64, i64)>) -> Map<
    u64,
    Status,
>
    decreases rows.len(),
{
    if rows.len() == 0 {
        statuses
    } else {
        let before = spec_take_rows(statuses, rows.drop_last());
        let (timestamp, value) = rows.last();
        match spec_from_int(value) {
            Some(status) => before.insert(timestamp as u64, status),
            None => before,
        }
    }
}

/// Records in `statuses` the statuses that the rows of the status table
/// hold, skipping rows whose integer stands for no status.
pub fn take_rows(statuses: &mut HashMap<u64, Status>, rows: &[(i64, i64)])
    ensures
        final(statuses)@ == spec_take_rows(old(statuses)@, rows@),
{
    let ghost start = statuses@;
    let mut i: usize = 0;
    while i < rows.len()
        invariant
            i <= rows@.len(),
            statuses@ == spec_take_rows(start, rows@.take(i as int)),
        decreases rows.len() - i,
    {
        let (timestamp, value) = rows[i];
        proof {
            assert(rows@.take(i + 1).drop_last() =~= rows@.take(i as int));
        }
        match from_int(value) {
            Some(status) => {
                statuses.insert(timestamp as u64, status);
            },
            None => {},
        }
        i = i + 1;
    }
    proof {
        assert(rows@.take(rows@.len() as int) =~= rows@);
    }
}

} // verus!
