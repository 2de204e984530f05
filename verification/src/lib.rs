//! Files that carry one calculator variable: a signature, a comment, the variable with its
//! length before it, and a checksum.
//!
//! [`file::File`] is such a file, [`file::File::bytes`] writes it as bytes and
//! [`file::File::from_bytes`] reads it back under [`mode::FileReadOptions`]. What the variable
//! holds is left to a [`payload::Payload`].

pub mod checksum;
pub mod comment;
pub mod decode;
pub mod error;
pub mod file;
pub mod layout;
pub mod mode;
pub mod payload;
