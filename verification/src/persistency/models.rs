use vstd::prelude::*;

verus! {

/// Default page size when a listing request gives none.
pub fn default_limit() -> (r: usize)
    ensures
        r == 10,
{
    10
}

/// Default page offset when a listing request gives none.
pub fn default_offset() -> (r: usize)
    ensures
        r == 0,
{
    0
}

/// Options shared by every paginated listing: how many rows to return at
/// most, and how many matching rows to skip first.
#[derive(Clone, Copy, Debug)]
pub struct FindAllOptions {
    pub limit: usize,
    pub offset: usize,
}

impl Default for FindAllOptions {
    fn default() -> (r: Self)
        ensures
            r.limit == 10,
            r.offset == 0,
    {
        FindAllOptions { limit: default_limit(), offset: default_offset() }
    }
}

/// One record of a count query result set.
#[derive(Clone, Copy, Debug)]
pub struct SurrealCountRecord {
    pub count: usize,
}

impl Default for SurrealCountRecord {
    fn default() -> (r: Self)
        ensures
            r.count == 0,
    {
        SurrealCountRecord { count: 0 }
    }
}

/// A bare record identifier, as returned by queries that yield only ids.
#[derive(Debug)]
pub struct SurrealRecord {
    pub id: String,
}

/// The total a count query reports: the first record's count, or zero when
/// the engine returned an empty result set.
pub fn count_from_records(records: &Vec<SurrealCountRecord>) -> (r: usize)
    ensures
        r == if records@.len() > 0 {
            records@[0].count
        } else {
            0
        },
{
    if records.len() > 0 {
        records[0].count
    } else {
        0
    }
}

/// The page a bounded listing returns: up to `limit` rows of `s`, starting
/// at row `offset`.
pub open spec fn spec_page<T>(s: Seq<T>, limit: nat, offset: nat) -> Seq<T> {
    if offset >= s.len() {
        Seq::empty()
    } else if offset + limit >= s.len() {
        s.subrange(offset as int, s.len() as int)
    } else {
        s.subrange(offset as int, (offset + limit) as int)
    }
}

/// Pagination bound: a page never holds more than `limit` rows, whatever the
/// offset, and every row on it is drawn unchanged, in order, from the
/// collection it was cut from.
pub proof fn lemma_page_bound<T>(s: Seq<T>, limit: nat, offset: nat)
    ensures
        spec_page(s, limit, offset).len() <= limit,
        forall|i: int|
            0 <= i < spec_page(s, limit, offset).len() ==> spec_page(s, limit, offset)[i] == s[i
                + offset],
{
}

} // verus!
