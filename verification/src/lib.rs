//! A single-pass, seek-free encoder for ZIP archives.
//!
//! Members are stored uncompressed. Their checksum and size travel in a data
//! descriptor behind the payload, so nothing that was emitted is ever
//! rewritten, and no payload is ever held in memory as a whole.
//!
//! The writer does no input or output of its own. An [`Archive`] owns the
//! sink and keeps the books; its driver reads the source and writes to the
//! sink, and tells the writer of each step with an [`Event`]. The writer
//! answers each event with the [`Action`] that comes next.
//!
//! [`archive_size`] gives the length of an archive from the names and the
//! payload sizes alone.

pub mod archive;
pub mod bytes;
pub mod clock;
pub mod crc;
pub mod datetime;
pub mod laws;
pub mod layout;
pub mod machine;
pub mod records;
pub mod size;

pub use archive::Archive;
pub use datetime::FileDateTime;
pub use machine::{Action, Event};
pub use size::archive_size;
