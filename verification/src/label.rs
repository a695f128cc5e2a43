//! The one-line label under which a record is shown in the picker's menu.

use vstd::prelude::*;
use vstd::string::*;
use crate::record::ClipboardRecord;
use crate::text::{decimal, lossy, lossy_text, push_decimal};

verus! {

/// The mime-type whose payload is preferred for a label.
pub const TEXT_UTF8: &'static str = "text/plain;charset=utf-8";

/// The mime-type whose payload is taken for a label where the preferred one
/// is absent.
pub const TEXT_PLAIN: &'static str = "text/plain";

/// The label of a record that offers neither text mime-type.
pub const NON_TEXT: &'static str = "<non text data>";

/// The payload that a record's label is made from, if it has one: that of
/// `text/plain;charset=utf-8`, else that of `text/plain`.
pub open spec fn label_payload(record: Map<Seq<char>, Seq<u8>>) -> Option<Seq<u8>> {
    if record.contains_key(TEXT_UTF8@) {
        Some(record[TEXT_UTF8@])
    } else if record.contains_key(TEXT_PLAIN@) {
        Some(record[TEXT_PLAIN@])
    } else {
        None
    }
}

/// The label of a record: its text payload decoded as UTF-8, invalid
/// sequences replaced, or the placeholder where it has no text payload.
pub open spec fn label_of(record: Map<Seq<char>, Seq<u8>>) -> Seq<char> {
    match label_payload(record) {
        Some(bytes) => lossy(bytes),
        None => NON_TEXT@,
    }
}

/// A menu line: the index in decimal, a colon and a space, then the label.
pub open spec fn line_of(index: nat, label: Seq<char>) -> Seq<char> {
    decimal(index) + ": "@ + label
}

/// The payload that the record's label is made from, if it has one.
pub fn label_source(record: &ClipboardRecord) -> (payload: Option<&Vec<u8>>)
    ensures
        match payload {
            Some(bytes) => label_payload(record@) == Some(bytes@),
            None => label_payload(record@) is None,
        },
{
    match record.get(TEXT_UTF8) {
        Some(bytes) => Some(bytes),
        None => record.get(TEXT_PLAIN),
    }
}

/// Puts a menu line together from an index and a label.
pub fn format_line(index: usize, label: &str) -> (line: String)
    ensures
        line@ == line_of(index as nat, label@),
{
    let mut line = String::new();
    push_decimal(&mut line, index);
    line.append(": ");
    line.append(label);
    assert(line@ =~= line_of(index as nat, label@));
    line
}

/// The menu line of `record` under `index`. Never fails: a record without a
/// text payload gets the placeholder, and malformed text is decoded with
/// replacement characters.
pub fn stringify_record(index: usize, record: &ClipboardRecord) -> (line: String)
    ensures
        line@ == line_of(index as nat, label_of(record@)),
{
    match label_source(record) {
        Some(bytes) => {
            let label = lossy_text(bytes.as_slice());
            format_line(index, label.as_str())
        },
        None => format_line(index, NON_TEXT),
    }
}

} // verus!
