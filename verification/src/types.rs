//! Types that every stage of publishing and retrieving agrees on.
use vstd::prelude::*;

verus! {

/// The manifest schema version this library writes and reads.
pub const MANIFEST_VERSION: u32 = 1;

/// The manifest: sealed and stored in DHT subkey 0. It names the file and
/// says how many sealed chunks follow in subkeys `1..=chunks`.
pub struct Manifest {
    /// Schema version; currently 1.
    pub version: u32,
    /// The name of the published file.
    pub filename: String,
    /// Size of the file in bytes; the reassembled data must have this length.
    pub size: u64,
    /// Number of sealed chunks in subkeys `1..=chunks`.
    pub chunks: u32,
}

/// A retrieved document: its file name and every byte of its body.
pub struct Document {
    pub filename: String,
    pub data: Vec<u8>,
}

} // verus!
