//! Whitespace-trimming transforms for field values decoded by a
//! deserialization framework.
//!
//! The crate provides one trim primitive and four field-level transforms
//! built on it: plain text, ordered sequences of text, optional text
//! (where a value that trims to empty becomes absent), and unique
//! collections of text (where values that become equal after trimming
//! collapse to one representative).

mod hooks;
mod trim;

pub use hooks::btreeset_string_trim;
pub use hooks::dedup_trim_result;
pub use hooks::option_string_trim;
pub use hooks::option_trim_result;
pub use hooks::trimmed_views_of;
pub use hooks::vec_string_trim;
pub use hooks::views_of;
pub use hooks::within;
pub use trim::is_unicode_whitespace;
pub use trim::is_whitespace_char;
pub use trim::lemma_trim_idempotent;
pub use trim::lemma_trim_whitespace_only;
pub use trim::string_trim;
pub use trim::trim_spec;
