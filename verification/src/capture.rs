//! Capturing a record from the clipboard, one representation at a time.
//!
//! The clipboard is not touched here. A `Capture` says which mime-type to
//! read next; the caller reads it and delivers what came of the read. A read
//! that failed leaves the record as it was, and the capture goes on.

use vstd::prelude::*;
use crate::record::ClipboardRecord;
use crate::text::{same_text, texts};

verus! {

/// The mime-type that is never read: some clipboard owners hang for good
/// when asked for it.
pub const SAVE_TARGETS: &'static str = "SAVE_TARGETS";

/// The clipboard could not say which mime-types it offers.
#[derive(Clone, Copy, Debug, PartialEq, Eq, Structural)]
pub struct CaptureError;

/// Whether a mime-type is on the denylist.
pub open spec fn is_denied(mime: Seq<char>) -> bool {
    mime == SAVE_TARGETS@
}

/// The first place at or after `from` whose mime-type may be read, or the
/// length of the list where there is none.
pub open spec fn next_allowed(offered: Seq<Seq<char>>, from: int) -> int
    decreases offered.len() - from,
{
    if from >= offered.len() {
        offered.len() as int
    } else if !is_denied(offered[from]) {
        from
    } else {
        next_allowed(offered, from + 1)
    }
}

/// The record after one read: a payload that was read is stored under its
/// mime-type, a read that failed changes nothing.
pub open spec fn captured(
    record: Map<Seq<char>, Seq<u8>>,
    mime: Seq<char>,
    outcome: Option<Seq<u8>>,
) -> Map<Seq<char>, Seq<u8>> {
    match outcome {
        Some(payload) => record.insert(mime, payload),
        None => record,
    }
}

/// What a read handed over, as plain bytes.
pub open spec fn read_bytes(outcome: Option<Vec<u8>>) -> Option<Seq<u8>> {
    match outcome {
        Some(payload) => Some(payload@),
        None => None,
    }
}

/// Nothing but the denylist is passed over: the next place to read lies at
/// or after `from`, every mime-type between the two is denied, and the one
/// at that place is not.
pub proof fn lemma_next_allowed(offered: Seq<Seq<char>>, from: int)
    requires
        0 <= from <= offered.len(),
    ensures
        from <= next_allowed(offered, from) <= offered.len(),
        forall|j: int| from <= j < next_allowed(offered, from) ==> is_denied(#[trigger] offered[j]),
        next_allowed(offered, from) < offered.len() ==> !is_denied(
            offered[next_allowed(offered, from)],
        ),
    decreases offered.len() - from,
{
    if from < offered.len() && is_denied(offered[from]) {
        lemma_next_allowed(offered, from + 1);
    }
}

/// A capture tolerates failed reads: after a failed read of one mime-type
/// and a successful read of another, the record holds the second with the
/// payload that was read, and holds the first only if it did before.
pub proof fn lemma_partial_capture(
    record: Map<Seq<char>, Seq<u8>>,
    failed: Seq<char>,
    read: Seq<char>,
    payload: Seq<u8>,
)
    requires
        failed != read,
    ensures
        ({
            let after = captured(captured(record, failed, None), read, Some(payload));
            &&& after.contains_key(read)
            &&& after[read] == payload
            &&& after.contains_key(failed) == record.contains_key(failed)
            &&& after == captured(captured(record, read, Some(payload)), failed, None)
        }),
{
}

/// A capture under way: the mime-types that the clipboard offers, how many
/// of them have been dealt with, and the record assembled so far.
#[derive(Debug)]
pub struct Capture {
    offered: Vec<String>,
    cursor: usize,
    record: ClipboardRecord,
}

impl Capture {
    #[verifier::type_invariant]
    spec fn well_formed(self) -> bool {
        self.cursor <= self.offered@.len()
    }

    /// The mime-types that the clipboard offers, in the order in which they
    /// are gone through.
    pub closed spec fn offered(self) -> Seq<Seq<char>> {
        texts(self.offered@)
    }

    /// How many of the offered mime-types have been dealt with.
    pub closed spec fn position(self) -> int {
        self.cursor as int
    }

    /// The record assembled so far.
    pub closed spec fn record(self) -> Map<Seq<char>, Seq<u8>> {
        self.record@
    }

    /// Starts a capture from what the clipboard said it offers. Fails
    /// exactly when the clipboard could not say: then there is nothing to
    /// capture from.
    pub fn begin(offered: Option<Vec<String>>) -> (started: Result<Capture, CaptureError>)
        ensures
            match offered {
                Some(list) => started matches Ok(capture) && capture.offered() == texts(list@)
                    && capture.position() == 0 && capture.record() == Map::<
                    Seq<char>,
                    Seq<u8>,
                >::empty(),
                None => started is Err,
            },
    {
        match offered {
            Some(list) => Ok(Capture { offered: list, cursor: 0, record: ClipboardRecord::new() }),
            None => Err(CaptureError),
        }
    }

    /// The mime-type to read next, if any is left. Mime-types on the
    /// denylist are passed over and never handed out; the others come in the
    /// order in which they were offered, each once.
    pub fn next_read(&mut self) -> (request: Option<String>)
        ensures
            final(self).offered() == old(self).offered(),
            final(self).record() == old(self).record(),
            0 <= old(self).position() <= final(self).position() <= old(self).offered().len(),
            match request {
                Some(mime) => {
                    let at = next_allowed(old(self).offered(), old(self).position());
                    &&& at < old(self).offered().len()
                    &&& mime@ == old(self).offered()[at]
                    &&& !is_denied(mime@)
                    &&& final(self).position() == at + 1
                },
                None => {
                    &&& next_allowed(old(self).offered(), old(self).position()) == old(
                        self,
                    ).offered().len()
                    &&& final(self).position() == old(self).offered().len()
                },
            },
    {
        proof {
            use_type_invariant(&*self);
        }
        let ghost from = self.cursor as int;
        let ghost list = texts(self.offered@);
        let mut i: usize = self.cursor;
        while i < self.offered.len()
            invariant
                *self == *old(self),
                from == old(self).cursor,
                0 <= from <= i <= self.offered@.len(),
                list == texts(self.offered@),
                next_allowed(list, from) == next_allowed(list, i as int),
            decreases self.offered@.len() - i,
        {
            assert(list[i as int] == self.offered@[i as int]@);
            if !same_text(self.offered[i].as_str(), SAVE_TARGETS) {
                let mime = self.offered[i].clone();
                self.cursor = i + 1;
                return Some(mime);
            }
            i += 1;
        }
        self.cursor = i;
        None
    }

    /// Takes in what came of reading `mime`: the payload, or `None` where
    /// the read failed. A payload is stored under the mime-type; a failure
    /// is passed over.
    pub fn deliver(&mut self, mime: String, outcome: Option<Vec<u8>>)
        ensures
            final(self).offered() == old(self).offered(),
            final(self).position() == old(self).position(),
            final(self).record() == captured(old(self).record(), mime@, read_bytes(outcome)),
    {
        proof {
            use_type_invariant(&*self);
        }
        match outcome {
            Some(payload) => {
                let mut record = ClipboardRecord::new();
                core::mem::swap(&mut self.record, &mut record);
                record.insert(mime, payload);
                self.record = record;
            },
            None => {},
        }
    }

    /// Ends the capture with the record assembled so far. A capture that has
    /// begun always ends in a record, whatever the reads came to.
    pub fn finish(self) -> (record: ClipboardRecord)
        ensures
            record@ == self.record(),
    {
        self.record
    }
}

} // verus!
