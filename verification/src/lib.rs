//! A line editor for terminals in raw mode, with pluggable tab completion.
//!
//! The editor itself performs no input or output. [`TerminalPrompt::feed`]
//! takes one key and says what to send to the terminal; the caller reads the
//! keys and writes the bytes. Completion sources implement [`Expands`]. The
//! completion of absolute paths, [`AbsPathExpander`], puts its questions about
//! the file system to its caller, one [`Step`] at a time.

pub mod abs_path_expander;
pub mod expander;
pub mod expansion;
pub mod prompt;
pub mod search;
pub mod text;

pub use abs_path_expander::{AbsPathExpander, Inspection, Listing, Step};
pub use expander::Expands;
pub use expansion::Expansion;
pub use prompt::{Outcome, Reaction, TerminalPrompt};
pub use search::EntryKind;
