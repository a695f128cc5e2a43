//! Putting a record back on the clipboard, step by step.
//!
//! The clipboard is not touched here. A `Restore` says what to ask of the
//! clipboard next: first to clear it on all seats, then to publish the
//! record's representations as one offer. The caller does what is asked and
//! reports whether it succeeded. The first failure ends the restore; nothing
//! is retried and nothing is rolled back.

use vstd::prelude::*;
use crate::record::{distinct_mimes, entries_map, ClipboardRecord, Representation};

verus! {

/// Why a restore failed.
#[derive(Clone, Copy, Debug, PartialEq, Eq, Structural)]
pub enum RestoreError {
    /// The clipboard could not be cleared; nothing was published.
    ClearFailed,
    /// The clipboard was cleared, but the offer could not be published.
    PublishFailed,
}

/// What is published to the clipboard: every representation as it was
/// captured, all in one offer.
#[derive(Debug)]
pub struct Offer {
    /// The representations, each mime-type once.
    pub sources: Vec<Representation>,
    /// The clipboard must not add text mime-types of its own to the offer.
    pub omit_additional_text_mime_types: bool,
    /// The publishing process stays in the foreground and serves the offer
    /// until another owner takes the clipboard over.
    pub foreground: bool,
}

/// What the caller is to do next.
#[derive(Debug)]
pub enum Request {
    /// Clear the regular clipboard on all seats.
    Clear,
    /// Publish the offer.
    Publish(Offer),
    /// Nothing: the restore is over.
    Stop,
}

/// A restore under way.
#[derive(Debug)]
pub enum Restore {
    /// The clipboard is to be cleared; the record waits.
    Clearing(ClipboardRecord),
    /// The clipboard is cleared and the offer handed out.
    Publishing,
    /// The restore is over, with this result.
    Finished(Result<(), RestoreError>),
}

/// The offer holds exactly the record's representations, with no derived
/// text mime-types added, to be served in the foreground.
pub open spec fn offers(offer: Offer, record: Map<Seq<char>, Seq<u8>>) -> bool {
    &&& distinct_mimes(offer.sources@)
    &&& entries_map(offer.sources@) == record
    &&& offer.omit_additional_text_mime_types
    &&& offer.foreground
}

/// The offer that puts a record back on the clipboard.
pub fn offer_of(record: ClipboardRecord) -> (offer: Offer)
    ensures
        offers(offer, record@),
{
    Offer {
        sources: record.into_representations(),
        omit_additional_text_mime_types: true,
        foreground: true,
    }
}

/// Starts the restore of a record: the first thing asked for is to clear the
/// clipboard.
pub fn restore_record(record: ClipboardRecord) -> (started: (Restore, Request))
    ensures
        started.0 == Restore::Clearing(record),
        started.1 is Clear,
{
    (Restore::Clearing(record), Request::Clear)
}

impl Restore {
    /// The result of the restore, once it is over.
    pub fn outcome(&self) -> (result: Option<Result<(), RestoreError>>)
        ensures
            result == match *self {
                Restore::Finished(r) => Some(r),
                _ => None,
            },
    {
        match self {
            Restore::Finished(r) => Some(*r),
            _ => None,
        }
    }

    /// Takes in whether the last request succeeded, and says what to do
    /// next. After a successful clear the record's offer is to be published;
    /// after a successful publish the restore has succeeded. A failed clear
    /// or publish ends the restore with its error, and no offer is handed
    /// out after a failed clear. A restore that is over stays as it is.
    pub fn advance(self, succeeded: bool) -> (next: (Restore, Request))
        ensures
            match self {
                Restore::Clearing(record) => if succeeded {
                    &&& next.0 is Publishing
                    &&& next.1 matches Request::Publish(offer) && offers(offer, record@)
                } else {
                    &&& next.0 == Restore::Finished(Err(RestoreError::ClearFailed))
                    &&& next.1 is Stop
                },
                Restore::Publishing => {
                    &&& next.0 == Restore::Finished(
                        if succeeded {
                            Ok(())
                        } else {
                            Err(RestoreError::PublishFailed)
                        },
                    )
                    &&& next.1 is Stop
                },
                Restore::Finished(result) => {
                    &&& next.0 == Restore::Finished(result)
                    &&& next.1 is Stop
                },
            },
    {
        match self {
            Restore::Clearing(record) => {
                if succeeded {
                    (Restore::Publishing, Request::Publish(offer_of(record)))
                } else {
                    (Restore::Finished(Err(RestoreError::ClearFailed)), Request::Stop)
                }
            },
            Restore::Publishing => {
                if succeeded {
                    (Restore::Finished(Ok(())), Request::Stop)
                } else {
                    (Restore::Finished(Err(RestoreError::PublishFailed)), Request::Stop)
                }
            },
            Restore::Finished(result) => (Restore::Finished(result), Request::Stop),
        }
    }
}

} // verus!
