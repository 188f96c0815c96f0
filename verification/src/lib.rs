//! Builder and result decoder for the `rofi` menu selector.
//!
//! A [`Rofi`] value accumulates display options for an external dmenu-style
//! selector process: candidates, case sensitivity, window width, prompt,
//! return format, and so on.  The builder is non-consuming: every setter
//! mutates the same value in place, and one configuration can serve any
//! number of spawns.
//!
//! The verified core computes the exact command-line argument list and the
//! candidate stream handed to the child process, and decodes the child's
//! exit status and standard output into a selection, an index, or one of the
//! protocol errors (`Interrupted`, `Blank`, `NotFound`, a parse failure).
//! Actually starting and waiting on the process is left to an unverified
//! shell around this crate.

mod builder;
mod decode;
mod error;
mod format;
mod numeral;
mod width;

pub use builder::Rofi;
pub use decode::decode_index;
pub use decode::decode_text;
pub use error::Error;
pub use format::Format;
pub use width::Width;
