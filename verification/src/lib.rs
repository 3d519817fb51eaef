//! Codec for the header of the KFF (k-mer file format) container.
//!
//! The crate has two layers. [`utils`] is the primitive binary layer:
//! big-endian integers, single-byte booleans, raw byte runs,
//! null-terminated byte strings and 2-bit-packed symbol buffers, read from
//! and written to an in-memory byte stream. [`header`] is the fixed-layout
//! record at the start of a container file, together with the validation
//! rules that make a header well-formed.

pub mod error;
pub mod header;
pub mod utils;

pub use error::Kff;
pub use error::MagicLocation;
pub use header::Header;
pub use utils::BytesReader;
pub use utils::BytesWriter;
pub use utils::KffRead;
pub use utils::KffWrite;
