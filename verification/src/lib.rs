//! Clipboard history for a Wayland desktop, as a pure core.
//!
//! The crate holds the clipboard-record data model and the rules around it:
//! how a snapshot is assembled from the representations a clipboard offers,
//! how the history is framed for storage, how entries are labelled for a
//! menu picker, how the picker's answer selects an entry, and what is put
//! back on the clipboard. Talking to the clipboard, the picker and the file
//! system is left to the caller, which feeds outcomes in and carries
//! requests out.

pub mod capture;
pub mod command;
pub mod history;
pub mod label;
pub mod picker;
pub mod record;
pub mod restore;
pub mod storage;
pub mod text;
