use vstd::prelude::*;
use vstd::string::*;
use crate::text::str_eq;

verus! {

/// The marker kept for one watch-list entry: the entry's title and the title
/// of the feed item that was handled last for it.
#[derive(Debug, Clone, PartialEq, Eq)]
pub struct TrackingRecord {
    pub key: String,
    pub latest: String,
}

/// The tracking state of a run: at most one record for each key.
#[derive(Debug, Clone)]
pub struct TrackingTable {
    records: Vec<TrackingRecord>,
}

/// What a tracking state holds for `key`: the latest item, or the empty
/// string where the key was never tracked.
pub open spec fn latest_of(tracking: Map<Seq<char>, Seq<char>>, key: Seq<char>) -> Seq<char> {
    if tracking.contains_key(key) {
        tracking[key]
    } else {
        Seq::empty()
    }
}

/// An item is a repeat for `key` when it is the one that was handled last.
pub open spec fn is_repeat(
    tracking: Map<Seq<char>, Seq<char>>,
    key: Seq<char>,
    item: Seq<char>,
) -> bool {
    latest_of(tracking, key) == item
}

/// The tracking state after `item` was looked at for `key`: a repeat leaves
/// it as it is, anything else becomes the latest item of `key`.
pub open spec fn after_check(
    tracking: Map<Seq<char>, Seq<char>>,
    key: Seq<char>,
    item: Seq<char>,
) -> Map<Seq<char>, Seq<char>> {
    if is_repeat(tracking, key, item) {
        tracking
    } else {
        tracking.insert(key, item)
    }
}

spec fn key_at(records: Seq<TrackingRecord>, i: int) -> Seq<char> {
    records[i].key@
}

spec fn holds_key(records: Seq<TrackingRecord>, key: Seq<char>) -> bool {
    exists|i: int| 0 <= i < records.len() && #[trigger] key_at(records, i) == key
}

spec fn index_of(records: Seq<TrackingRecord>, key: Seq<char>) -> int {
    choose|i: int| 0 <= i < records.len() && #[trigger] key_at(records, i) == key
}

spec fn keys_distinct(records: Seq<TrackingRecord>) -> bool {
    forall|i: int, j: int|
        0 <= i < j < records.len() ==> #[trigger] key_at(records, i) != #[trigger] key_at(
            records,
            j,
        )
}

spec fn table_of(records: Seq<TrackingRecord>) -> Map<Seq<char>, Seq<char>> {
    Map::new(
        |key: Seq<char>| holds_key(records, key),
        |key: Seq<char>| records[index_of(records, key)].latest@,
    )
}

proof fn lemma_found(records: Seq<TrackingRecord>, i: int)
    requires
        keys_distinct(records),
        0 <= i < records.len(),
    ensures
        table_of(records).contains_key(records[i].key@),
        table_of(records)[records[i].key@] == records[i].latest@,
        index_of(records, records[i].key@) == i,
{
    let key = records[i].key@;
    assert(key_at(records, i) == key);
    let j = index_of(records, key);
    assert(0 <= j < records.len() && key_at(records, j) == key);
    if j != i {
        if j < i {
            assert(key_at(records, j) != key_at(records, i));
        } else {
            assert(key_at(records, i) != key_at(records, j));
        }
    }
}

proof fn lemma_replaced(records: Seq<TrackingRecord>, i: int, record: TrackingRecord)
    requires
        keys_distinct(records),
        0 <= i < records.len(),
        record.key@ == records[i].key@,
    ensures
        keys_distinct(records.update(i, record)),
        table_of(records.update(i, record)) == table_of(records).insert(
            record.key@,
            record.latest@,
        ),
{
    let after = records.update(i, record);
    assert forall|a: int| 0 <= a < records.len() implies key_at(after, a) == key_at(
        records,
        a,
    ) by {}
    assert(keys_distinct(after)) by {
        assert forall|a: int, b: int| 0 <= a < b < after.len() implies key_at(after, a) != key_at(
            after,
            b,
        ) by {
            assert(key_at(records, a) != key_at(records, b));
        }
    }
    let want = table_of(records).insert(record.key@, record.latest@);
    assert forall|key: Seq<char>| table_of(after).contains_key(key) <==> want.contains_key(
        key,
    ) by {
        if holds_key(after, key) {
            let a = index_of(after, key);
            assert(key_at(records, a) == key);
        }
        if holds_key(records, key) {
            let a = index_of(records, key);
            assert(key_at(after, a) == key);
        }
        if key == record.key@ {
            assert(key_at(after, i) == key);
        }
    }
    assert forall|key: Seq<char>| table_of(after).contains_key(key) implies table_of(after)[key]
        == want[key] by {
        let a = index_of(after, key);
        assert(0 <= a < after.len() && key_at(after, a) == key);
        lemma_found(after, a);
        if a == i {
        } else {
            assert(key_at(records, a) == key);
            lemma_found(records, a);
            lemma_found(records, i);
        }
    }
    assert(table_of(after) =~= want);
}

proof fn lemma_appended(records: Seq<TrackingRecord>, record: TrackingRecord)
    requires
        keys_distinct(records),
        !holds_key(records, record.key@),
    ensures
        keys_distinct(records.push(record)),
        table_of(records.push(record)) == table_of(records).insert(record.key@, record.latest@),
{
    let after = records.push(record);
    let last = records.len() as int;
    assert forall|a: int| 0 <= a < records.len() implies key_at(after, a) == key_at(
        records,
        a,
    ) by {}
    assert(key_at(after, last) == record.key@);
    assert(keys_distinct(after)) by {
        assert forall|a: int, b: int| 0 <= a < b < after.len() implies key_at(after, a) != key_at(
            after,
            b,
        ) by {
            if b < last {
                assert(key_at(records, a) != key_at(records, b));
            } else {
                assert(key_at(records, a) == key_at(after, a));
            }
        }
    }
    let want = table_of(records).insert(record.key@, record.latest@);
    assert forall|key: Seq<char>| table_of(after).contains_key(key) <==> want.contains_key(
        key,
    ) by {
        if holds_key(after, key) {
            let a = index_of(after, key);
            if a < last {
                assert(key_at(records, a) == key);
            }
        }
        if holds_key(records, key) {
            let a = index_of(records, key);
            assert(key_at(after, a) == key);
        }
    }
    assert forall|key: Seq<char>| table_of(after).contains_key(key) implies table_of(after)[key]
        == want[key] by {
        let a = index_of(after, key);
        assert(0 <= a < after.len() && key_at(after, a) == key);
        lemma_found(after, a);
        if a < last {
            assert(key_at(records, a) == key);
            lemma_found(records, a);
        }
    }
    assert(table_of(after) =~= want);
}

impl TrackingTable {
    /// No key has two records.
    pub closed spec fn wf(&self) -> bool {
        keys_distinct(self.records@)
    }

    /// A table that tracks nothing.
    pub fn new() -> (table: TrackingTable)
        ensures
            table.wf(),
            table@ == Map::<Seq<char>, Seq<char>>::empty(),
    {
        let table = TrackingTable { records: Vec::new() };
        assert(table_of(table.records@) =~= Map::<Seq<char>, Seq<char>>::empty());
        table
    }

    /// The records of the table, in the order in which their keys were
    /// first tracked: one for each key, with the latest item of that key.
    pub fn records(&self) -> (rows: &Vec<TrackingRecord>)
        requires
            self.wf(),
        ensures
            forall|i: int|
                0 <= i < rows.len() ==> self@.contains_key((#[trigger] rows[i]).key@)
                    && self@[rows[i].key@] == rows[i].latest@,
            forall|key: Seq<char>|
                self@.contains_key(key) ==> exists|i: int|
                    0 <= i < rows.len() && (#[trigger] rows[i]).key@ == key,
            forall|i: int, j: int|
                0 <= i < j < rows.len() ==> (#[trigger] rows[i]).key@ != (#[trigger] rows[j]).key@,
    {
        proof {
            let all = self.records@;
            assert forall|i: int| 0 <= i < all.len() implies table_of(all).contains_key(
                (#[trigger] all[i]).key@,
            ) && table_of(all)[all[i].key@] == all[i].latest@ by {
                lemma_found(all, i);
            }
            assert forall|key: Seq<char>| table_of(all).contains_key(key) implies exists|i: int|
                0 <= i < all.len() && (#[trigger] all[i]).key@ == key by {
                let i = index_of(all, key);
                assert(key_at(all, i) == key);
            }
            assert forall|i: int, j: int| 0 <= i < j < all.len() implies (#[trigger] all[i]).key@
                != (#[trigger] all[j]).key@ by {
                assert(key_at(all, i) != key_at(all, j));
            }
        }
        &self.records
    }

    fn position(&self, key: &str) -> (found: Option<usize>)
        ensures
            match found {
                Some(i) => i < self.records@.len() && self.records@[i as int].key@ == key@,
                None => !holds_key(self.records@, key@),
            },
    {
        let mut i: usize = 0;
        while i < self.records.len()
            invariant
                i <= self.records@.len(),
                forall|a: int| 0 <= a < i ==> key_at(self.records@, a) != key@,
            decreases self.records@.len() - i,
        {
            if str_eq(self.records[i].key.as_str(), key) {
                return Some(i);
            }
            assert(key_at(self.records@, i as int) != key@);
            i = i + 1;
        }
        None
    }
}

impl View for TrackingTable {
    type V = Map<Seq<char>, Seq<char>>;

    closed spec fn view(&self) -> Map<Seq<char>, Seq<char>> {
        table_of(self.records@)
    }
}

/// How a value is written under a key that was looked up first.
#[derive(Debug, Clone, Copy, PartialEq, Eq, Structural)]
pub enum Upsert {
    /// No row has the key: a new row is added.
    Insert,
    /// The key has a row: its value is replaced.
    Update,
}

/// Picks the way to write a value, given how many rows the lookup of its
/// key gave.
pub fn upsert_choice(num_match: usize) -> (choice: Upsert)
    ensures
        num_match == 0 ==> choice == Upsert::Insert,
        num_match != 0 ==> choice == Upsert::Update,
{
    if num_match != 0 {
        Upsert::Update
    } else {
        Upsert::Insert
    }
}

/// The latest item tracked for `key`; empty where the key was never tracked.
pub fn get_tracking(table: &TrackingTable, key: &str) -> (latest: String)
    requires
        table.wf(),
    ensures
        latest@ == latest_of(table@, key@),
{
    match table.position(key) {
        Some(i) => {
            proof {
                lemma_found(table.records@, i as int);
            }
            table.records[i].latest.clone()
        },
        None => String::new(),
    }
}

/// Makes `item` the latest item of `key`: the record of `key` is replaced
/// where there is one, and added where there is none.
pub fn update_tracking(table: &mut TrackingTable, key: &str, item: &str)
    requires
        old(table).wf(),
    ensures
        final(table).wf(),
        final(table)@ == old(table)@.insert(key@, item@),
{
    let record = TrackingRecord { key: key.to_owned(), latest: item.to_owned() };
    match table.position(key) {
        Some(i) => {
            proof {
                lemma_replaced(table.records@, i as int, record);
            }
            table.records.set(i, record);
        },
        None => {
            proof {
                lemma_appended(table.records@, record);
            }
            table.records.push(record);
        },
    }
}

/// Decides whether `item` is to be skipped for the entry `wl_title`, and
/// records it as the entry's latest item where it is not.
pub fn tracking_check(table: &mut TrackingTable, item: &str, wl_title: &str) -> (skip: bool)
    requires
        old(table).wf(),
    ensures
        final(table).wf(),
        skip == is_repeat(old(table)@, wl_title@, item@),
        final(table)@ == after_check(old(table)@, wl_title@, item@),
{
    let latest = get_tracking(table, wl_title);
    if str_eq(latest.as_str(), item) {
        true
    } else {
        update_tracking(table, wl_title, item);
        false
    }
}

} // verus!
