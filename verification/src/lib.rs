//! Renders structured (Bunyan-style JSON) log records as single
//! human-readable lines with optional ANSI coloring.
//!
//! The crate owns the formatting policy: the level model, the style model,
//! the styled output sink, the record model, and the entry formatter that
//! classifies leftover fields into inline extras and indented details.

pub mod digits;
pub mod entry_writer;
pub mod log_entry;
pub mod log_level;
pub mod style;
pub mod styled_writer;

pub use entry_writer::EntryWriter;
pub use log_entry::FieldValue;
pub use log_entry::LeftoverField;
pub use log_entry::LogEntry;
pub use log_entry::Timestamp;
pub use log_level::LevelError;
pub use log_level::LogLevel;
pub use style::Style;
pub use styled_writer::StyledWriter;
