//! Verified reader for the SqPack archive format: path hashing and index
//! resolution, block-streamed entry decompression, SCD audio extraction,
//! and extension-driven transformer chains.
pub mod bytesread;
pub mod dat;
pub mod error;
pub mod index2;
pub mod index_header;
pub mod pack_header;
pub mod scd;
pub mod sqpath;
pub mod strutil;
pub mod transcoder;
pub mod transformers;
pub mod tricks;
pub mod xor;
