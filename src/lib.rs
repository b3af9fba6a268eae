//! A streaming ZIP archive writer.
//!
//! Entries are written one after another as a forward-only byte stream: a local
//! header, the (optionally compressed) payload, a data descriptor. The writer
//! keeps emitted bytes until `take_output` hands them on to the caller's sink.
//! Finishing the archive emits the central directory and the ZIP64 and classic
//! end-of-central-directory records.
use vstd::prelude::*;

pub mod compressor;
pub mod format;
pub mod header;
pub mod laws;
pub mod writer;

pub use compressor::{
    Compressor, CompressorConfig, Deflate, DeflateConfig, EntryData, HashWriteWrapper, Store,
    StoreConfig,
};
pub use header::{DateTime, Header, HeaderBuilder};
pub use writer::{OwnedEntryBuilder, ZipEntryBuilder, ZipFileWriter, ZipWriter};

verus! {

/// Why an archive operation failed.
#[derive(Debug, Clone, Copy, PartialEq, Eq, Structural)]
pub enum ZipError {
    /// The compressor reported an error while taking in or closing an entry.
    CompressorFailure,
    /// The path has more than 65535 bytes.
    PathTooLong,
    /// The archive would reach 2^64 bytes, past what its 64-bit offsets and
    /// sizes can describe.
    ArchiveTooLarge,
}

} // verus!
