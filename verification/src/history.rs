//! The clipboard history: records in the order in which they were stored,
//! oldest first.

use vstd::prelude::*;
use crate::record::ClipboardRecord;

verus! {

/// The history of clipboard snapshots, oldest first.
#[derive(Debug)]
pub struct ClipboardHistory {
    pub records: Vec<ClipboardRecord>,
}

impl View for ClipboardHistory {
    type V = Seq<Map<Seq<char>, Seq<u8>>>;

    open spec fn view(&self) -> Seq<Map<Seq<char>, Seq<u8>>> {
        Seq::new(self.records@.len(), |i: int| self.records@[i]@)
    }
}

impl Clone for ClipboardHistory {
    fn clone(&self) -> (copy: ClipboardHistory)
        ensures
            copy@ == self@,
    {
        let mut copy = ClipboardHistory::new();
        let mut i: usize = 0;
        while i < self.records.len()
            invariant
                i <= self.records@.len(),
                copy@ == self@.take(i as int),
            decreases self.records@.len() - i,
        {
            copy.append(self.records[i].clone());
            assert(copy@ =~= self@.take(i as int + 1));
            i += 1;
        }
        assert(self@.take(self@.len() as int) =~= self@);
        copy
    }
}

/// The record that lies `age` entries back from the newest one: age 0 is the
/// record stored last, age `len - 1` the one stored first.
pub open spec fn aged(history: Seq<Map<Seq<char>, Seq<u8>>>, age: int) -> Map<Seq<char>, Seq<u8>>
    recommends
        0 <= age < history.len(),
{
    history[history.len() - 1 - age]
}

impl ClipboardHistory {
    /// The history without any record.
    pub fn new() -> (history: ClipboardHistory)
        ensures
            history@ == Seq::<Map<Seq<char>, Seq<u8>>>::empty(),
    {
        let history = ClipboardHistory { records: Vec::new() };
        assert(history@ =~= Seq::<Map<Seq<char>, Seq<u8>>>::empty());
        history
    }

    /// The number of records.
    pub fn len(&self) -> (n: usize)
        ensures
            n == self@.len(),
    {
        self.records.len()
    }

    /// Whether the history holds no record.
    pub fn is_empty(&self) -> (empty: bool)
        ensures
            empty == (self@.len() == 0),
    {
        self.records.len() == 0
    }

    /// Adds `record` as the newest entry; the earlier entries keep their
    /// places.
    pub fn append(&mut self, record: ClipboardRecord)
        ensures
            final(self)@ == old(self)@.push(record@),
    {
        self.records.push(record);
        assert(self@ =~= old(self)@.push(record@));
    }

    /// The record at `index` in storage order, if there is one.
    pub fn get(&self, index: usize) -> (record: Option<&ClipboardRecord>)
        ensures
            match record {
                Some(r) => index < self@.len() && r@ == self@[index as int],
                None => index >= self@.len(),
            },
    {
        if index < self.records.len() {
            Some(&self.records[index])
        } else {
            None
        }
    }

    /// The record that lies `age` entries back from the newest, if the
    /// history reaches that far back.
    pub fn newest(&self, age: usize) -> (record: Option<&ClipboardRecord>)
        ensures
            match record {
                Some(r) => age < self@.len() && r@ == aged(self@, age as int),
                None => age >= self@.len(),
            },
    {
        let n = self.records.len();
        if age < n {
            Some(&self.records[n - 1 - age])
        } else {
            None
        }
    }

    /// Gives up the history for the record that lies `age` entries back from
    /// the newest, if the history reaches that far back.
    pub fn into_newest(self, age: usize) -> (record: Option<ClipboardRecord>)
        ensures
            match record {
                Some(r) => age < self@.len() && r@ == aged(self@, age as int),
                None => age >= self@.len(),
            },
    {
        let n = self.records.len();
        if age < n {
            let mut records = self.records;
            let record = records.swap_remove(n - 1 - age);
            Some(record)
        } else {
            None
        }
    }

    /// Whether two histories hold equal records at every position.
    pub fn same_as(&self, other: &ClipboardHistory) -> (same: bool)
        ensures
            same == (self@ == other@),
    {
        if self.records.len() != other.records.len() {
            assert(self@.len() != other@.len());
            return false;
        }
        let mut i: usize = 0;
        while i < self.records.len()
            invariant
                i <= self.records@.len(),
                self.records@.len() == other.records@.len(),
                forall|j: int| 0 <= j < i ==> self@[j] == other@[j],
            decreases self.records@.len() - i,
        {
            if !self.records[i].same_as(&other.records[i]) {
                assert(self@[i as int] != other@[i as int]);
                return false;
            }
            i += 1;
        }
        assert(self@ =~= other@);
        true
    }
}

} // verus!
