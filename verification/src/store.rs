//! The override store: text values under text keys. The locator keeps one record
//! in it, the path of the entry script that was last found or chosen.

use vstd::prelude::*;

verus! {

/// The key under which the store keeps the path of the entry script.
pub const ENTRY_SCRIPT_KEY: &'static str = "system.cursor.path.mainJs";

/// One record of the store.
#[derive(Debug)]
pub struct OverrideRecord {
    pub key: String,
    pub value: String,
}

/// The store. Of several records with one key the first is the one that counts;
/// `set_item` never leaves more than it found.
#[derive(Debug)]
pub struct OverrideStore {
    pub records: Vec<OverrideRecord>,
}

/// The value of the first record with `key`.
pub open spec fn value_in(records: Seq<OverrideRecord>, key: Seq<char>) -> Option<Seq<char>>
    decreases records.len(),
{
    if records.len() == 0 {
        None
    } else if records[0].key@ == key {
        Some(records[0].value@)
    } else {
        value_in(records.drop_first(), key)
    }
}

impl View for OverrideStore {
    type V = Map<Seq<char>, Seq<char>>;

    /// The store as a map from keys to values.
    open spec fn view(&self) -> Map<Seq<char>, Seq<char>> {
        Map::new(
            |k: Seq<char>| value_in(self.records@, k) is Some,
            |k: Seq<char>| value_in(self.records@, k)->0,
        )
    }
}

impl OverrideStore {
    /// An empty store.
    pub fn new() -> (store: OverrideStore)
        ensures
            store@ == Map::<Seq<char>, Seq<char>>::empty(),
    {
        let store = OverrideStore { records: Vec::new() };
        assert(store@ =~= Map::<Seq<char>, Seq<char>>::empty());
        store
    }

    /// The value under `key`, if there is one.
    pub fn get_item(&self, key: &str) -> (r: Option<String>)
        ensures
            r.deep_view() == if self@.dom().contains(key@) {
                Some(self@[key@])
            } else {
                None
            },
    {
        let wanted = String::from_str(key);
        let mut i: usize = 0;
        assert(self.records@.skip(0) =~= self.records@);
        while i < self.records.len()
            invariant
                i <= self.records.len(),
                wanted@ == key@,
                value_in(self.records@, key@) == value_in(self.records@.skip(i as int), key@),
            decreases self.records.len() - i,
        {
            if self.records[i].key == wanted {
                return Some(self.records[i].value.clone());
            }
            assert(self.records@.skip(i as int).drop_first() =~= self.records@.skip(i + 1));
            i += 1;
        }
        None
    }

    /// Puts `value` under `key`, in place of what was there.
    pub fn set_item(&mut self, key: &str, value: &str)
        ensures
            final(self)@ == old(self)@.insert(key@, value@),
    {
        let record = OverrideRecord { key: String::from_str(key), value: String::from_str(value) };
        let mut i: usize = 0;
        while i < self.records.len()
            invariant
                i <= self.records.len(),
                self.records == old(self).records,
                record.key@ == key@,
                record.value@ == value@,
                forall|j: int| 0 <= j < i ==> self.records@[j].key@ != key@,
            decreases self.records.len() - i,
        {
            if self.records[i].key == record.key {
                proof {
                    assert forall|k: Seq<char>|
                        value_in(self.records@.update(i as int, record), k) == if k == key@ {
                            Some(value@)
                        } else {
                            value_in(self.records@, k)
                        } by {
                        lemma_value_in_update(self.records@, i as int, record, k);
                    }
                }
                self.records.set(i, record);
                assert(self@ =~= old(self)@.insert(key@, value@));
                return ;
            }
            i += 1;
        }
        proof {
            assert forall|k: Seq<char>|
                value_in(self.records@.push(record), k) == if k == key@ {
                    Some(value@)
                } else {
                    value_in(self.records@, k)
                } by {
                lemma_value_in_push(self.records@, record, k);
            }
        }
        self.records.push(record);
        assert(self@ =~= old(self)@.insert(key@, value@));
    }
}

/// Replacing the first record of a key changes the value under that key and no other.
pub proof fn lemma_value_in_update(
    records: Seq<OverrideRecord>,
    i: int,
    record: OverrideRecord,
    key: Seq<char>,
)
    requires
        0 <= i < records.len(),
        records[i].key@ == record.key@,
        forall|j: int| 0 <= j < i ==> records[j].key@ != record.key@,
    ensures
        value_in(records.update(i, record), key) == if key == record.key@ {
            Some(record.value@)
        } else {
            value_in(records, key)
        },
    decreases i,
{
    let after = records.update(i, record);
    if i == 0 {
        assert(after.drop_first() =~= records.drop_first());
    } else {
        assert(after.drop_first() =~= records.drop_first().update(i - 1, record));
        lemma_value_in_update(records.drop_first(), i - 1, record, key);
    }
}

/// A record added behind records of other keys puts its value under its key and
/// changes no other.
pub proof fn lemma_value_in_push(
    records: Seq<OverrideRecord>,
    record: OverrideRecord,
    key: Seq<char>,
)
    requires
        forall|j: int| 0 <= j < records.len() ==> records[j].key@ != record.key@,
    ensures
        value_in(records.push(record), key) == if key == record.key@ {
            Some(record.value@)
        } else {
            value_in(records, key)
        },
    decreases records.len(),
{
    let after = records.push(record);
    if records.len() == 0 {
        assert(after.drop_first() =~= records);
    } else {
        assert(after.drop_first() =~= records.drop_first().push(record));
        lemma_value_in_push(records.drop_first(), record, key);
    }
}

} // verus!
