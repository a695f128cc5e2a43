//! The clipboard record: one snapshot of the clipboard, as a mapping from
//! mime-type identifier to the bytes offered under it.

use vstd::prelude::*;
use vstd::set_lib::lemma_subset_equality;
use vstd::slice::slice_to_vec;
use crate::text::{same_bytes, same_text};

verus! {

/// One representation of clipboard content: a mime-type identifier and the
/// raw bytes offered under it. The payload may be empty.
#[derive(Debug)]
pub struct Representation {
    pub mime: String,
    pub payload: Vec<u8>,
}

impl Clone for Representation {
    fn clone(&self) -> (copy: Representation)
        ensures
            copy.mime@ == self.mime@,
            copy.payload@ == self.payload@,
    {
        Representation { mime: self.mime.clone(), payload: slice_to_vec(self.payload.as_slice()) }
    }
}

/// The mapping that a list of representations stands for. Where a mime-type
/// occurs more than once, the last occurrence counts.
pub open spec fn entries_map(entries: Seq<Representation>) -> Map<Seq<char>, Seq<u8>>
    decreases entries.len(),
{
    if entries.len() == 0 {
        Map::empty()
    } else {
        entries_map(entries.drop_last()).insert(entries.last().mime@, entries.last().payload@)
    }
}

/// No mime-type occurs twice in the list.
pub open spec fn distinct_mimes(entries: Seq<Representation>) -> bool {
    forall|i: int, j: int|
        #![trigger entries[i], entries[j]]
        0 <= i < j < entries.len() ==> entries[i].mime@ != entries[j].mime@
}

/// A mime-type is a key of the mapping exactly when some entry carries it,
/// and the mapping has finitely many keys.
pub proof fn lemma_entries_map_keys(entries: Seq<Representation>)
    ensures
        entries_map(entries).dom().finite(),
        forall|k: Seq<char>| #[trigger]
            entries_map(entries).contains_key(k) <==> exists|i: int|
                0 <= i < entries.len() && #[trigger] entries[i].mime@ == k,
    decreases entries.len(),
{
    if entries.len() > 0 {
        let front = entries.drop_last();
        lemma_entries_map_keys(front);
        assert forall|k: Seq<char>| #[trigger]
            entries_map(entries).contains_key(k) implies exists|i: int|
            0 <= i < entries.len() && #[trigger] entries[i].mime@ == k by {
            if k == entries.last().mime@ {
                assert(entries[entries.len() - 1].mime@ == k);
            } else {
                assert(entries_map(front).contains_key(k));
                let i = choose|i: int| 0 <= i < front.len() && #[trigger] front[i].mime@ == k;
                assert(entries[i].mime@ == k);
            }
        }
        assert forall|k: Seq<char>|
            (exists|i: int|
                0 <= i < entries.len() && #[trigger] entries[i].mime@ == k) implies #[trigger]
            entries_map(entries).contains_key(k) by {
            let i = choose|i: int| 0 <= i < entries.len() && #[trigger] entries[i].mime@ == k;
            if i < entries.len() - 1 {
                assert(front[i].mime@ == k);
            }
        }
    }
}

/// With distinct mime-types, each entry's payload is what the mapping holds
/// under that entry's mime-type.
pub proof fn lemma_entries_map_at(entries: Seq<Representation>, i: int)
    requires
        distinct_mimes(entries),
        0 <= i < entries.len(),
    ensures
        entries_map(entries).contains_key(entries[i].mime@),
        entries_map(entries)[entries[i].mime@] == entries[i].payload@,
    decreases entries.len(),
{
    if i < entries.len() - 1 {
        let front = entries.drop_last();
        assert(front[i] == entries[i]);
        assert(entries[i].mime@ != entries[entries.len() - 1].mime@);
        lemma_entries_map_at(front, i);
    }
}

/// With distinct mime-types, the mapping has as many keys as the list has
/// entries.
pub proof fn lemma_entries_map_len(entries: Seq<Representation>)
    requires
        distinct_mimes(entries),
    ensures
        entries_map(entries).dom().finite(),
        entries_map(entries).dom().len() == entries.len(),
    decreases entries.len(),
{
    lemma_entries_map_keys(entries);
    if entries.len() > 0 {
        let front = entries.drop_last();
        lemma_entries_map_len(front);
        lemma_entries_map_keys(front);
        let k = entries.last().mime@;
        if entries_map(front).contains_key(k) {
            let i = choose|i: int| 0 <= i < front.len() && #[trigger] front[i].mime@ == k;
            assert(entries[i].mime@ == entries[entries.len() - 1].mime@);
        }
        assert(entries_map(entries).dom() =~= entries_map(front).dom().insert(k));
    }
}

/// Replacing the entry that carries a mime-type by another with the same
/// mime-type is an insertion into the mapping.
proof fn lemma_entries_map_replace(entries: Seq<Representation>, i: int, rep: Representation)
    requires
        distinct_mimes(entries),
        0 <= i < entries.len(),
        rep.mime@ == entries[i].mime@,
    ensures
        distinct_mimes(entries.update(i, rep)),
        entries_map(entries.update(i, rep)) == entries_map(entries).insert(
            rep.mime@,
            rep.payload@,
        ),
    decreases entries.len(),
{
    let after = entries.update(i, rep);
    let front = entries.drop_last();
    assert forall|a: int, b: int| 0 <= a < b < after.len() implies after[a].mime@
        != after[b].mime@ by {
        assert(entries[a].mime@ != entries[b].mime@);
    }
    if i == entries.len() - 1 {
        assert(after.drop_last() =~= front);
        assert(entries_map(after) =~= entries_map(entries).insert(rep.mime@, rep.payload@));
    } else {
        assert(after.drop_last() =~= front.update(i, rep));
        assert(front[i] == entries[i]);
        assert(entries[i].mime@ != entries[entries.len() - 1].mime@);
        lemma_entries_map_replace(front, i, rep);
        assert(entries_map(after) =~= entries_map(entries).insert(rep.mime@, rep.payload@));
    }
}

/// One clipboard snapshot. Each mime-type occurs at most once; the order of
/// the representations carries no meaning. A record may be empty.
#[derive(Debug)]
pub struct ClipboardRecord {
    entries: Vec<Representation>,
}

impl View for ClipboardRecord {
    type V = Map<Seq<char>, Seq<u8>>;

    closed spec fn view(&self) -> Map<Seq<char>, Seq<u8>> {
        entries_map(self.entries@)
    }
}

impl Clone for ClipboardRecord {
    fn clone(&self) -> (copy: ClipboardRecord)
        ensures
            copy@ == self@,
    {
        let mut copy = ClipboardRecord::new();
        let mut i: usize = 0;
        while i < self.entries.len()
            invariant
                i <= self.entries@.len(),
                copy@ == entries_map(self.entries@.take(i as int)),
            decreases self.entries@.len() - i,
        {
            proof {
                assert(self.entries@.take(i as int + 1).drop_last() =~= self.entries@.take(
                    i as int,
                ));
            }
            let entry = self.entries[i].clone();
            let Representation { mime, payload } = entry;
            copy.insert(mime, payload);
            i += 1;
        }
        proof {
            assert(self.entries@.take(self.entries@.len() as int) =~= self.entries@);
        }
        copy
    }
}

impl ClipboardRecord {
    #[verifier::type_invariant]
    spec fn well_formed(self) -> bool {
        distinct_mimes(self.entries@)
    }

    /// The record without any representation.
    pub fn new() -> (record: ClipboardRecord)
        ensures
            record@ == Map::<Seq<char>, Seq<u8>>::empty(),
    {
        ClipboardRecord { entries: Vec::new() }
    }

    /// The number of representations in the record.
    pub fn len(&self) -> (n: usize)
        ensures
            self@.dom().finite(),
            n == self@.dom().len(),
    {
        proof {
            use_type_invariant(self);
            lemma_entries_map_len(self.entries@);
        }
        self.entries.len()
    }

    /// Whether the record holds no representation at all.
    pub fn is_empty(&self) -> (empty: bool)
        ensures
            empty == (self@ == Map::<Seq<char>, Seq<u8>>::empty()),
    {
        proof {
            use_type_invariant(self);
            lemma_entries_map_len(self.entries@);
            if self.entries@.len() == 0 {
            } else {
                assert(self@.dom().len() > 0);
                assert(Map::<Seq<char>, Seq<u8>>::empty().dom().len() == 0);
            }
        }
        self.entries.len() == 0
    }

    /// The position of the entry that carries `mime`, if there is one.
    fn position(&self, mime: &str) -> (found: Option<usize>)
        ensures
            match found {
                Some(i) => i < self.entries@.len() && self.entries@[i as int].mime@ == mime@,
                None => forall|j: int|
                    0 <= j < self.entries@.len() ==> (#[trigger] self.entries@[j]).mime@ != mime@,
            },
    {
        let mut i: usize = 0;
        while i < self.entries.len()
            invariant
                i <= self.entries@.len(),
                forall|j: int| 0 <= j < i ==> (#[trigger] self.entries@[j]).mime@ != mime@,
            decreases self.entries@.len() - i,
        {
            if same_text(self.entries[i].mime.as_str(), mime) {
                return Some(i);
            }
            i += 1;
        }
        None
    }

    /// Whether the record has a representation under `mime`. Mime-types are
    /// compared character by character, case included.
    pub fn contains_key(&self, mime: &str) -> (present: bool)
        ensures
            present == self@.contains_key(mime@),
    {
        proof {
            lemma_entries_map_keys(self.entries@);
        }
        match self.position(mime) {
            Some(i) => {
                assert(self.entries@[i as int].mime@ == mime@);
                true
            },
            None => false,
        }
    }

    /// The payload stored under `mime`, if the record has one.
    pub fn get(&self, mime: &str) -> (payload: Option<&Vec<u8>>)
        ensures
            match payload {
                Some(bytes) => self@.contains_key(mime@) && bytes@ == self@[mime@],
                None => !self@.contains_key(mime@),
            },
    {
        proof {
            use_type_invariant(self);
            lemma_entries_map_keys(self.entries@);
        }
        match self.position(mime) {
            Some(i) => {
                proof {
                    lemma_entries_map_at(self.entries@, i as int);
                }
                Some(&self.entries[i].payload)
            },
            None => None,
        }
    }

    /// Stores `payload` under `mime`, in place of what was stored under that
    /// mime-type before, if anything was.
    pub fn insert(&mut self, mime: String, payload: Vec<u8>)
        ensures
            final(self)@ == old(self)@.insert(mime@, payload@),
    {
        proof {
            use_type_invariant(&*self);
        }
        let found = self.position(mime.as_str());
        let rep = Representation { mime, payload };
        let mut entries: Vec<Representation> = Vec::new();
        core::mem::swap(&mut self.entries, &mut entries);
        let ghost before = entries@;
        match found {
            Some(i) => {
                proof {
                    lemma_entries_map_replace(before, i as int, rep);
                }
                entries[i] = rep;
            },
            None => {
                proof {
                    let after = before.push(rep);
                    assert(after.drop_last() =~= before);
                    assert forall|a: int, b: int| 0 <= a < b < after.len() implies after[a].mime@
                        != after[b].mime@ by {
                        if b < before.len() {
                            assert(before[a].mime@ != before[b].mime@);
                        } else {
                            assert(before[a].mime@ != rep.mime@);
                        }
                    }
                }
                entries.push(rep);
            },
        }
        self.entries = entries;
    }

    /// The record built from a list of representations, taken in order: a
    /// later entry replaces an earlier one with the same mime-type.
    pub fn from_representations(list: Vec<Representation>) -> (record: ClipboardRecord)
        ensures
            record@ == entries_map(list@),
    {
        let mut record = ClipboardRecord::new();
        let ghost all = list@;
        let mut rest = list;
        let mut stack: Vec<Representation> = Vec::new();
        while rest.len() > 0
            invariant
                rest@.len() + stack@.len() == all.len(),
                rest@ == all.take(rest@.len() as int),
                forall|j: int|
                    0 <= j < stack@.len() ==> #[trigger] stack@[j] == all[all.len() - 1 - j],
            decreases rest@.len(),
        {
            let rep = rest.pop().unwrap();
            stack.push(rep);
        }
        while stack.len() > 0
            invariant
                stack@.len() <= all.len(),
                forall|j: int|
                    0 <= j < stack@.len() ==> #[trigger] stack@[j] == all[all.len() - 1 - j],
                record@ == entries_map(all.take(all.len() - stack@.len())),
            decreases stack@.len(),
        {
            let ghost done = all.len() - stack@.len();
            let rep = stack.pop().unwrap();
            proof {
                assert(rep == all[done]);
                assert(all.take(done + 1).drop_last() =~= all.take(done));
            }
            let Representation { mime, payload } = rep;
            record.insert(mime, payload);
        }
        proof {
            assert(all.take(all.len() as int) =~= all);
        }
        record
    }

    /// Whether two records hold the same payloads under the same mime-types.
    pub fn same_as(&self, other: &ClipboardRecord) -> (same: bool)
        ensures
            same == (self@ == other@),
    {
        proof {
            use_type_invariant(self);
            use_type_invariant(other);
            lemma_entries_map_len(self.entries@);
            lemma_entries_map_len(other.entries@);
        }
        if self.entries.len() != other.entries.len() {
            return false;
        }
        let mut i: usize = 0;
        while i < self.entries.len()
            invariant
                i <= self.entries@.len(),
                distinct_mimes(self.entries@),
                forall|j: int|
                    0 <= j < i ==> other@.contains_key((#[trigger] self.entries@[j]).mime@)
                        && other@[self.entries@[j].mime@] == self.entries@[j].payload@,
            decreases self.entries@.len() - i,
        {
            proof {
                lemma_entries_map_at(self.entries@, i as int);
            }
            match other.get(self.entries[i].mime.as_str()) {
                Some(bytes) => {
                    if !same_bytes(bytes.as_slice(), self.entries[i].payload.as_slice()) {
                        return false;
                    }
                },
                None => {
                    return false;
                },
            }
            i += 1;
        }
        proof {
            lemma_entries_map_keys(self.entries@);
            assert forall|k: Seq<char>| self@.contains_key(k) implies other@.contains_key(k)
                && other@[k] == self@[k] by {
                let j = choose|j: int|
                    0 <= j < self.entries@.len() && #[trigger] self.entries@[j].mime@ == k;
                lemma_entries_map_at(self.entries@, j);
            }
            assert(self@.dom().subset_of(other@.dom()));
            lemma_subset_equality(self@.dom(), other@.dom());
            assert(self@ =~= other@);
        }
        true
    }

    /// The record's representations, each mime-type once, in no particular
    /// order.
    pub fn representations(&self) -> (list: &Vec<Representation>)
        ensures
            distinct_mimes(list@),
            entries_map(list@) == self@,
    {
        proof {
            use_type_invariant(self);
        }
        &self.entries
    }

    /// Gives up the record for its representations, each mime-type once, in
    /// no particular order.
    pub fn into_representations(self) -> (list: Vec<Representation>)
        ensures
            distinct_mimes(list@),
            entries_map(list@) == self@,
    {
        proof {
            use_type_invariant(&self);
        }
        self.entries
    }
}

} // verus!
