//! The storage image of a history: the whole history as one MessagePack
//! value, an array of maps from mime-type to an array of bytes.
//!
//! The image is written and read by `rmp_serde`. What is verified here is
//! everything around those two calls: which histories are handed to the
//! encoder, what becomes of its answer, and how the decoder's answer turns
//! into a history.

use std::collections::HashMap;
use vstd::prelude::*;
use vstd::utf8::encode_utf8;
use crate::history::ClipboardHistory;
use crate::record::{
    entries_map, lemma_entries_map_at, lemma_entries_map_keys, lemma_entries_map_len,
    ClipboardRecord, Representation,
};

verus! {

/// The name of the storage file inside the user's cache directory.
pub const STORAGE_FILE_NAME: &'static str = "wlipman.msgpck";

/// The largest length that the encoder writes out in full: MessagePack holds
/// the length of an array, a map or a string in at most 32 bits.
pub const MAX_LENGTH: usize = 0xffff_ffff;

/// Why a history could not be loaded or dumped.
#[derive(Clone, Copy, Debug, PartialEq, Eq, Structural)]
pub enum StoreError {
    /// The bytes are not the image of any history.
    Corrupt,
    /// The image could not be produced or moved.
    Unavailable,
    /// The history holds more records, a record more representations, or a
    /// mime-type or payload more bytes than an image can express.
    TooLarge,
}

impl StoreError {
    /// A one-line description of the error.
    pub fn message(&self) -> (text: &'static str)
        ensures
            text@ == match *self {
                StoreError::Corrupt => "history storage is corrupt"@,
                StoreError::Unavailable => "history storage is unavailable"@,
                StoreError::TooLarge => "history is too large to store"@,
            },
    {
        match self {
            StoreError::Corrupt => "history storage is corrupt",
            StoreError::Unavailable => "history storage is unavailable",
            StoreError::TooLarge => "history is too large to store",
        }
    }
}

/// The error of `rmp_serde`'s decoder. It is carried through unopened:
/// nothing is known of what it holds.
#[verifier::external_type_specification]
#[verifier::external_body]
pub struct ExDecodeError(rmp_serde::decode::Error);

/// The error of `rmp_serde`'s encoder. It is carried through unopened:
/// nothing is known of what it holds.
#[verifier::external_type_specification]
#[verifier::external_body]
pub struct ExEncodeError(rmp_serde::encode::Error);

/// The history that `rmp_serde::from_slice` reads from `bytes` as a list of
/// maps from string to list of bytes, or `None` where it reports an error.
pub uninterp spec fn msgpack_history(bytes: Seq<u8>) -> Option<Seq<Map<Seq<char>, Seq<u8>>>>;

/// The histories that a list of lists of representations stands for.
pub open spec fn listed(lists: Seq<Vec<Representation>>) -> Seq<Map<Seq<char>, Seq<u8>>> {
    Seq::new(lists.len(), |i: int| entries_map(lists[i]@))
}

/// Every length in the record fits into an image.
pub open spec fn record_encodable(record: Map<Seq<char>, Seq<u8>>) -> bool {
    &&& record.dom().finite()
    &&& record.dom().len() <= MAX_LENGTH
    &&& forall|mime: Seq<char>| #[trigger]
        record.contains_key(mime) ==> encode_utf8(mime).len() <= MAX_LENGTH && record[mime].len()
            <= MAX_LENGTH
}

/// Every length in the history fits into an image.
pub open spec fn encodable(history: Seq<Map<Seq<char>, Seq<u8>>>) -> bool {
    &&& history.len() <= MAX_LENGTH
    &&& forall|i: int| 0 <= i < history.len() ==> record_encodable(#[trigger] history[i])
}

/// `bytes` is an image of `history`: the decoder reads exactly that history
/// from it.
pub open spec fn is_image(bytes: Seq<u8>, history: Seq<Map<Seq<char>, Seq<u8>>>) -> bool {
    msgpack_history(bytes) == Some(history)
}

/// What loading `bytes` gives: the history they are an image of, or
/// `Corrupt`.
pub open spec fn load_outcome(bytes: Seq<u8>) -> Result<Seq<Map<Seq<char>, Seq<u8>>>, StoreError> {
    match msgpack_history(bytes) {
        Some(history) => Ok(history),
        None => Err(StoreError::Corrupt),
    }
}

/// Calls `rmp_serde::from_slice` for a `Vec<HashMap<String, Vec<u8>>>` and
/// lists each map's entries. Assumed, not proved: the call's answer depends
/// on the bytes alone, so it has the name `msgpack_history`; on success the
/// listed entries make up the maps it read, and on an error there is no such
/// history.
#[verifier::external_body]
fn msgpack_decode(bytes: &[u8]) -> (decoded: Result<
    Vec<Vec<Representation>>,
    rmp_serde::decode::Error,
>)
    ensures
        match decoded {
            Ok(lists) => msgpack_history(bytes@) == Some(listed(lists@)),
            Err(_) => msgpack_history(bytes@) is None,
        },
{
    let maps: Vec<HashMap<String, Vec<u8>>> = rmp_serde::from_slice(bytes)?;
    Ok(
        maps.into_iter().map(
            |m| m.into_iter().map(|(mime, payload)| Representation { mime, payload }).collect(),
        ).collect(),
    )
}

/// Calls `rmp_serde::to_vec` on the history as a list of maps from string to
/// list of bytes. Assumed, not proved: where the call succeeds, decoding its
/// bytes gives the history back. The lengths are bounded because the encoder
/// writes a length in 32 bits and cuts off or miscounts a longer one. The
/// order of a map's entries in the bytes is left open, and so is whether the
/// call succeeds: it fails where memory for the bytes cannot be had.
#[verifier::external_body]
fn msgpack_encode(history: &ClipboardHistory) -> (encoded: Result<
    Vec<u8>,
    rmp_serde::encode::Error,
>)
    requires
        encodable(history@),
    ensures
        encoded matches Ok(bytes) ==> msgpack_history(bytes@) == Some(history@),
{
    let maps: Vec<HashMap<&String, &Vec<u8>>> = history.records.iter().map(
        |r| r.representations().iter().map(|e| (&e.mime, &e.payload)).collect(),
    ).collect();
    rmp_serde::to_vec(&maps)
}

/// Whether every length in the record fits into an image.
pub fn record_fits(record: &ClipboardRecord) -> (fits: bool)
    ensures
        fits == record_encodable(record@),
{
    let list = record.representations();
    proof {
        lemma_entries_map_len(list@);
        lemma_entries_map_keys(list@);
    }
    if list.len() > MAX_LENGTH {
        return false;
    }
    let mut i: usize = 0;
    while i < list.len()
        invariant
            i <= list@.len(),
            forall|j: int|
                0 <= j < i ==> encode_utf8((#[trigger] list@[j]).mime@).len() <= MAX_LENGTH
                    && list@[j].payload@.len() <= MAX_LENGTH,
            crate::record::distinct_mimes(list@),
            entries_map(list@) == record@,
        decreases list@.len() - i,
    {
        let mime_len = list[i].mime.as_str().as_bytes().len();
        if mime_len > MAX_LENGTH || list[i].payload.len() > MAX_LENGTH {
            proof {
                lemma_entries_map_at(list@, i as int);
            }
            return false;
        }
        i += 1;
    }
    proof {
        assert forall|mime: Seq<char>| #[trigger] record@.contains_key(mime) implies encode_utf8(
            mime,
        ).len() <= MAX_LENGTH && record@[mime].len() <= MAX_LENGTH by {
            let j = choose|j: int| 0 <= j < list@.len() && #[trigger] list@[j].mime@ == mime;
            lemma_entries_map_at(list@, j);
        }
    }
    true
}

/// Whether every length in the history fits into an image.
pub fn history_fits(history: &ClipboardHistory) -> (fits: bool)
    ensures
        fits == encodable(history@),
{
    if history.records.len() > MAX_LENGTH {
        return false;
    }
    let mut i: usize = 0;
    while i < history.records.len()
        invariant
            i <= history.records@.len(),
            forall|j: int| 0 <= j < i ==> record_encodable(#[trigger] history@[j]),
        decreases history.records@.len() - i,
    {
        if !record_fits(&history.records[i]) {
            assert(!record_encodable(history@[i as int]));
            return false;
        }
        i += 1;
    }
    true
}

/// The history made of the records that the lists stand for, in order.
pub fn history_of_lists(lists: Vec<Vec<Representation>>) -> (history: ClipboardHistory)
    ensures
        history@ == listed(lists@),
{
    let ghost all = lists@;
    let mut rest = lists;
    let mut reversed: Vec<ClipboardRecord> = Vec::new();
    while rest.len() > 0
        invariant
            rest@ == all.take(rest@.len() as int),
            rest@.len() + reversed@.len() == all.len(),
            forall|j: int|
                0 <= j < reversed@.len() ==> (#[trigger] reversed@[j])@ == entries_map(
                    all[all.len() - 1 - j]@,
                ),
        decreases rest@.len(),
    {
        let list = rest.pop().unwrap();
        reversed.push(ClipboardRecord::from_representations(list));
    }
    let mut history = ClipboardHistory::new();
    while reversed.len() > 0
        invariant
            reversed@.len() + history@.len() == all.len(),
            forall|j: int|
                0 <= j < reversed@.len() ==> (#[trigger] reversed@[j])@ == entries_map(
                    all[all.len() - 1 - j]@,
                ),
            history@ == listed(all.take(history@.len() as int)),
        decreases reversed@.len(),
    {
        let ghost done = history@.len() as int;
        let record = reversed.pop().unwrap();
        history.append(record);
        assert(history@ =~= listed(all.take(done + 1)));
    }
    assert(all.take(all.len() as int) =~= all);
    history
}

/// What loading makes of the decoder's answer: the history it read, or
/// `Corrupt` where it reported an error.
pub fn loaded(decoded: Result<Vec<Vec<Representation>>, rmp_serde::decode::Error>) -> (outcome:
    Result<ClipboardHistory, StoreError>)
    ensures
        match decoded {
            Ok(lists) => outcome matches Ok(history) && history@ == listed(lists@),
            Err(_) => outcome matches Err(e) && e == StoreError::Corrupt,
        },
{
    match decoded {
        Ok(lists) => Ok(history_of_lists(lists)),
        Err(_) => Err(StoreError::Corrupt),
    }
}

/// What dumping makes of the encoder's answer: its bytes, or `Unavailable`
/// where it reported an error.
pub fn dumped(encoded: Result<Vec<u8>, rmp_serde::encode::Error>) -> (outcome: Result<
    Vec<u8>,
    StoreError,
>)
    ensures
        match encoded {
            Ok(bytes) => outcome matches Ok(image) && image == bytes,
            Err(_) => outcome matches Err(e) && e == StoreError::Unavailable,
        },
{
    match encoded {
        Ok(bytes) => Ok(bytes),
        Err(_) => Err(StoreError::Unavailable),
    }
}

/// Reads a history from the contents of the storage file. Fails with
/// `Corrupt` exactly when the bytes are not the image of a history.
pub fn load_history(bytes: &[u8]) -> (outcome: Result<ClipboardHistory, StoreError>)
    ensures
        match outcome {
            Ok(history) => load_outcome(bytes@) == Ok::<_, StoreError>(history@),
            Err(e) => load_outcome(bytes@) == Err::<Seq<Map<Seq<char>, Seq<u8>>>, _>(e),
        },
{
    loaded(msgpack_decode(bytes))
}

/// Produces the contents of the storage file for `history`. Fails with
/// `TooLarge` exactly when some length in the history does not fit into an
/// image; otherwise the result is an image of the history, unless the
/// encoder gave up, which shows as `Unavailable`.
pub fn dump_history(history: &ClipboardHistory) -> (outcome: Result<Vec<u8>, StoreError>)
    ensures
        match outcome {
            Ok(bytes) => encodable(history@) && is_image(bytes@, history@),
            Err(e) => if encodable(history@) {
                e == StoreError::Unavailable
            } else {
                e == StoreError::TooLarge
            },
        },
{
    if !history_fits(history) {
        return Err(StoreError::TooLarge);
    }
    dumped(msgpack_encode(history))
}

/// Produces the contents of the storage file after `record` has been stored
/// as the newest entry of `history`. Fails as `dump_history` does on the
/// history so extended.
pub fn store(history: ClipboardHistory, record: ClipboardRecord) -> (outcome: Result<
    Vec<u8>,
    StoreError,
>)
    ensures
        match outcome {
            Ok(bytes) => encodable(history@.push(record@)) && is_image(
                bytes@,
                history@.push(record@),
            ),
            Err(e) => if encodable(history@.push(record@)) {
                e == StoreError::Unavailable
            } else {
                e == StoreError::TooLarge
            },
        },
{
    let mut history = history;
    history.append(record);
    dump_history(&history)
}

/// Produces the contents of a storage file that holds no record. The empty
/// history always fits, so only the encoder can make this fail.
pub fn clean() -> (outcome: Result<Vec<u8>, StoreError>)
    ensures
        match outcome {
            Ok(bytes) => is_image(bytes@, Seq::empty()) && load_outcome(bytes@) == Ok::<
                _,
                StoreError,
            >(Seq::<Map<Seq<char>, Seq<u8>>>::empty()),
            Err(e) => e == StoreError::Unavailable,
        },
{
    let history = ClipboardHistory::new();
    dump_history(&history)
}

/// What to write where the storage file may be missing: nothing if it is
/// present, the contents of an empty storage file if it is not.
pub fn ensure_initialized(present: bool) -> (contents: Result<Option<Vec<u8>>, StoreError>)
    ensures
        match contents {
            Ok(None) => present,
            Ok(Some(bytes)) => !present && is_image(bytes@, Seq::empty()),
            Err(e) => !present && e == StoreError::Unavailable,
        },
{
    if present {
        Ok(None)
    } else {
        match clean() {
            Ok(bytes) => Ok(Some(bytes)),
            Err(e) => Err(e),
        }
    }
}

/// Dumping and loading undo each other: bytes that are an image of a
/// history, as `dump_history` and `store` return them, load as that history.
pub proof fn lemma_load_of_image(bytes: Seq<u8>, history: Seq<Map<Seq<char>, Seq<u8>>>)
    requires
        is_image(bytes, history),
    ensures
        load_outcome(bytes) == Ok::<_, StoreError>(history),
{
}

} // verus!
