//! Verified extraction of basic metadata from SWF movie files.
//!
//! The crate decompresses an SWF container (uncompressed, zlib or LZMA
//! variants), parses the bit-packed header into stage size, frame count and
//! frame rate, and renders the resulting record as JSON, YAML or a plain
//! text layout.  Directory batch processing is expressed as a pure function
//! over in-memory file contents; the thin binary around the crate performs
//! the file system walking and writing.

pub mod text;
pub mod metadata;
pub mod format;
pub mod paths;
pub mod decompress;
pub mod header;
pub mod pipeline;
pub mod batch;
pub mod jsonparse;
