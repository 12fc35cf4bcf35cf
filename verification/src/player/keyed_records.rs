//! Records that stand by a key, least key first.

use vstd::prelude::*;

verus! {

/// What a media payload is known by.
#[derive(Clone, Copy, Debug, PartialEq, Eq, Structural)]
pub struct PayloadKey {
    pub kind: u8,
    pub generation: u64,
    pub sequence: u64,
}

impl PayloadKey {
    /// The order of keys: by kind, then generation, then sequence.
    pub open spec fn before(self, other: PayloadKey) -> bool {
        self.kind < other.kind || (self.kind == other.kind && (self.generation < other.generation
            || (self.generation == other.generation && self.sequence < other.sequence)))
    }

    pub fn is_before(self, other: PayloadKey) -> (result: bool)
        ensures
            result == self.before(other),
    {
        self.kind < other.kind || (self.kind == other.kind && (self.generation < other.generation
            || (self.generation == other.generation && self.sequence < other.sequence)))
    }
}

/// A record under its key.
#[derive(Clone, Copy, Debug)]
pub struct Keyed<T> {
    pub key: PayloadKey,
    pub value: T,
}

pub open spec fn is_ascending<T>(records: Seq<Keyed<T>>) -> bool {
    forall|i: int, j: int|
        0 <= i < j < records.len() ==> (#[trigger] records[i]).key.before(
            (#[trigger] records[j]).key,
        )
}

/// `place` records come before `key`.
pub open spec fn is_place<T>(records: Seq<Keyed<T>>, key: PayloadKey, place: int) -> bool {
    &&& 0 <= place <= records.len()
    &&& forall|i: int| 0 <= i < place ==> (#[trigger] records[i]).key.before(key)
    &&& forall|i: int| place <= i < records.len() ==> !(#[trigger] records[i]).key.before(key)
}

pub open spec fn place<T>(records: Seq<Keyed<T>>, key: PayloadKey) -> int {
    choose|place: int| is_place(records, key, place)
}

pub open spec fn holds<T>(records: Seq<Keyed<T>>, key: PayloadKey) -> bool {
    place(records, key) < records.len() && records[place(records, key)].key == key
}

/// The record under `key`.
pub open spec fn value_of<T>(records: Seq<Keyed<T>>, key: PayloadKey) -> T {
    records[place(records, key)].value
}

/// The records with one more, which takes the place of one under its key.
pub open spec fn inserted<T>(records: Seq<Keyed<T>>, record: Keyed<T>) -> Seq<Keyed<T>> {
    if holds(records, record.key) {
        records.update(place(records, record.key), record)
    } else {
        records.insert(place(records, record.key), record)
    }
}

/// The records without the one under `key`.
pub open spec fn without<T>(records: Seq<Keyed<T>>, key: PayloadKey) -> Seq<Keyed<T>> {
    records.remove(place(records, key))
}

pub proof fn lemma_place<T>(records: Seq<Keyed<T>>, key: PayloadKey, at: int)
    requires
        is_place(records, key, at),
    ensures
        place(records, key) == at,
{
    let other = place(records, key);
    assert(is_place(records, key, other));
    if other < at {
        assert(records[other].key.before(key));
    } else if at < other {
        assert(records[at].key.before(key));
    }
}

/// How many records come before `key`.
pub fn find_place<T>(records: &Vec<Keyed<T>>, key: PayloadKey) -> (at: usize)
    requires
        is_ascending(records@),
    ensures
        is_place(records@, key, at as int),
        at == place(records@, key),
{
    let mut at: usize = 0;
    while at < records.len() && records[at].key.is_before(key)
        invariant
            at <= records@.len(),
            forall|i: int| 0 <= i < at ==> (#[trigger] records@[i]).key.before(key),
        decreases records@.len() - at,
    {
        at = at + 1;
    }
    proof {
        assert forall|i: int| at <= i < records@.len() implies !(#[trigger] records@[i]).key.before(
            key,
        ) by {
            if i > at {
                assert(records@[at as int].key.before(records@[i].key));
            }
        }
        lemma_place(records@, key, at as int);
    }
    at
}

/// Whether there is a record under `key`.
pub fn has_key<T>(records: &Vec<Keyed<T>>, key: PayloadKey) -> (result: bool)
    requires
        is_ascending(records@),
    ensures
        result == holds(records@, key),
{
    let at = find_place(records, key);
    at < records.len() && records[at].key == key
}

/// Adds a record: whether it took the place of another.
pub fn insert<T>(records: &mut Vec<Keyed<T>>, record: Keyed<T>) -> (replaced: bool)
    requires
        is_ascending(old(records)@),
    ensures
        replaced == holds(old(records)@, record.key),
        final(records)@ == inserted(old(records)@, record),
        final(records)@.len() <= old(records)@.len() + 1,
        is_ascending(final(records)@),
{
    let ghost before = records@;
    let at = find_place(records, record.key);
    if at < records.len() && records[at].key == record.key {
        records.set(at, record);
        return true;
    }
    records.insert(at, record);
    proof {
        let after = records@;
        assert forall|i: int, j: int| 0 <= i < j < after.len() implies (
        #[trigger] after[i]).key.before((#[trigger] after[j]).key) by {
            if i < at && j > at {
                assert(before[i].key.before(before[j - 1].key));
            } else if i < at && j < at {
                assert(before[i].key.before(before[j].key));
            } else if i > at {
                assert(before[i - 1].key.before(before[j - 1].key));
            } else if i == at {
                assert(!before[j - 1].key.before(record.key));
                if j - 1 > at {
                    assert(before[at as int].key.before(before[j - 1].key));
                }
            }
        }
    }
    false
}

/// Takes the record under `key` out.
pub fn take<T>(records: &mut Vec<Keyed<T>>, key: PayloadKey) -> (value: T)
    requires
        is_ascending(old(records)@),
        holds(old(records)@, key),
    ensures
        value == value_of(old(records)@, key),
        final(records)@ == without(old(records)@, key),
        final(records)@.len() < old(records)@.len(),
        is_ascending(final(records)@),
{
    let ghost before = records@;
    let at = find_place(records, key);
    let record = records.remove(at);
    proof {
        lemma_still_ascending(before, at as int);
    }
    record.value
}

/// Takes the record of the least key out.
pub fn take_first<T>(records: &mut Vec<Keyed<T>>)
    requires
        is_ascending(old(records)@),
        old(records)@.len() > 0,
    ensures
        final(records)@ == old(records)@.skip(1),
        is_ascending(final(records)@),
{
    let ghost before = records@;
    records.remove(0);
    assert(records@ =~= before.skip(1));
    proof {
        assert(before.remove(0) =~= before.skip(1));
        lemma_still_ascending(before, 0);
    }
}

proof fn lemma_still_ascending<T>(records: Seq<Keyed<T>>, at: int)
    requires
        is_ascending(records),
        0 <= at < records.len(),
    ensures
        is_ascending(records.remove(at)),
{
    let after = records.remove(at);
    assert forall|i: int, j: int| 0 <= i < j < after.len() implies (#[trigger] after[i]).key.before(
        (#[trigger] after[j]).key,
    ) by {
        let p = if i < at {
            i
        } else {
            i + 1
        };
        let q = if j < at {
            j
        } else {
            j + 1
        };
        assert(records[p].key.before(records[q].key));
    }
}

/// Every key has a place among ascending records.
pub proof fn lemma_some_place<T>(records: Seq<Keyed<T>>, key: PayloadKey)
    requires
        is_ascending(records),
    ensures
        is_place(records, key, place(records, key)),
    decreases records.len(),
{
    if records.len() == 0 {
        assert(is_place(records, key, 0));
    } else if records.last().key.before(key) {
        assert forall|i: int| 0 <= i < records.len() implies (#[trigger] records[i]).key.before(
            key,
        ) by {
            if i < records.len() - 1 {
                assert(records[i].key.before(records[records.len() - 1].key));
            }
        }
        assert(is_place(records, key, records.len() as int));
    } else {
        let front = records.drop_last();
        lemma_some_place(front, key);
        let at = place(front, key);
        assert forall|i: int| 0 <= i < at implies (#[trigger] records[i]).key.before(key) by {
            assert(front[i] == records[i]);
        }
        assert forall|i: int| at <= i < records.len() implies !(#[trigger] records[i]).key.before(
            key,
        ) by {
            if i < records.len() - 1 {
                assert(front[i] == records[i]);
            }
        }
        assert(is_place(records, key, at));
    }
}

/// Keys are ordered by kind, generation and sequence, in that order: of two
/// different keys exactly one comes first, and the order is transitive.
pub proof fn law_keys_are_ordered(first: PayloadKey, second: PayloadKey, third: PayloadKey)
    ensures
        !first.before(first),
        first != second ==> (first.before(second) <==> !second.before(first)),
        first.before(second) && second.before(third) ==> first.before(third),
        first.kind < second.kind ==> first.before(second),
        first.kind == second.kind && first.generation < second.generation ==> first.before(second),
        first.kind == second.kind && first.generation == second.generation ==> (first.before(second)
            <==> first.sequence < second.sequence),
{
}

/// A key is held where some record has it, and its value is that record's.
pub proof fn law_a_held_key_has_its_record<T>(records: Seq<Keyed<T>>, key: PayloadKey, index: int)
    requires
        is_ascending(records),
        0 <= index < records.len(),
    ensures
        records[index].key == key ==> holds(records, key) && value_of(records, key)
            == records[index].value,
        !holds(records, key) ==> records[index].key != key,
{
    lemma_some_place(records, key);
    let at = place(records, key);
    if records[index].key == key {
        if at < index {
            assert(records[at].key.before(records[index].key));
            assert(!records[at].key.before(key));
        }
        if index < at {
            assert(records[index].key.before(key));
        }
    }
}

/// An inserted record is held under its key in place of what was there, and
/// every other record stays.
pub proof fn law_an_inserted_record_is_held<T>(
    records: Seq<Keyed<T>>,
    record: Keyed<T>,
    other: Keyed<T>,
)
    requires
        is_ascending(records),
    ensures
        inserted(records, record).contains(record),
        other.key != record.key ==> (inserted(records, record).contains(other)
            <==> records.contains(other)),
        inserted(records, record).contains(other) && other.key == record.key ==> other == record,
{
    lemma_some_place(records, record.key);
    let at = place(records, record.key);
    let after = inserted(records, record);
    assert(after[at] == record);
    if other.key != record.key && records.contains(other) {
        let i = records.index_of(other);
        if holds(records, record.key) || i < at {
            assert(after[i] == other);
        } else {
            assert(after[i + 1] == other);
        }
    }
    if after.contains(other) {
        let i = after.index_of(other);
        if i != at {
            if holds(records, record.key) || i < at {
                assert(records[i] == other);
                if holds(records, record.key) && other.key == record.key {
                    law_keys_are_ordered(records[at].key, records[i].key, records[at].key);
                }
            } else {
                assert(records[i - 1] == other);
                if other.key == record.key {
                    law_a_held_key_has_its_record(records, record.key, i - 1);
                }
            }
            if other.key == record.key && !holds(records, record.key) && i < at {
                law_a_held_key_has_its_record(records, record.key, i);
            }
        }
    }
}

/// A record that is taken is gone, and every other stays.
pub proof fn law_a_taken_record_is_gone<T>(
    records: Seq<Keyed<T>>,
    key: PayloadKey,
    other: Keyed<T>,
)
    requires
        is_ascending(records),
        holds(records, key),
    ensures
        without(records, key).contains(other) <==> records.contains(other) && other.key != key,
        records.contains(Keyed { key, value: value_of(records, key) }),
{
    lemma_some_place(records, key);
    let at = place(records, key);
    let after = without(records, key);
    assert(records[at] == Keyed { key, value: value_of(records, key) });
    if after.contains(other) {
        let i = after.index_of(other);
        let before: int = if i < at {
            i
        } else {
            i + 1
        };
        assert(records[before] == other);
        law_keys_are_ordered(records[before].key, records[at].key, key);
        if before < at {
            assert(records[before].key.before(records[at].key));
        } else {
            assert(records[at].key.before(records[before].key));
        }
    }
    if records.contains(other) && other.key != key {
        let i = records.index_of(other);
        if i < at {
            assert(after[i] == other);
        } else {
            assert(after[i - 1] == other);
        }
    }
}

} // verus!
