use vstd::prelude::*;

verus! {

/// Why sealing or opening a chunk failed.
#[derive(Debug, Clone, Copy, PartialEq, Eq, Structural)]
pub enum CryptoError {
    /// The cipher refused the plaintext (it exceeds the cipher's message limit).
    EncryptionFailed,
    /// The sealed chunk is no longer than a nonce, so it cannot hold a ciphertext.
    ChunkTooShort { len: usize },
    /// The authentication tag did not verify: wrong key or corrupted data.
    DecryptionFailed,
}

/// Why the node's configuration could not be built.
#[derive(Debug, Clone, Copy, PartialEq, Eq, Structural)]
pub enum ConfigError {
    /// The default configuration is not JSON.
    InvalidJson,
    /// The default configuration, or one of its store sections, is neither an
    /// object nor null, so its fields cannot be set.
    NotAnObject,
    /// The edited configuration could not be printed.
    SerializeFailed,
}

/// Why a share link could not be decoded.
#[derive(Debug, Clone, Copy, PartialEq, Eq, Structural)]
pub enum LinkError {
    /// The link has no `#` between the record key and the encryption key.
    MissingSeparator,
    /// The text after the last `#` is not unpadded base64url.
    InvalidBase64,
    /// The encryption key decodes to `len` bytes instead of 32.
    WrongKeyLength { len: usize },
}

/// Why retrieving a document failed (failures of the DHT itself are the
/// caller's, which performs the reads).
#[derive(Debug, Clone, Copy, PartialEq, Eq, Structural)]
pub enum RetrieveError {
    /// Subkey 0, which holds the manifest, is empty.
    ManifestMissing,
    /// The subkey of a chunk the manifest lists is empty.
    ChunkMissing { subkey: u32 },
    /// A manifest or chunk could not be opened.
    Crypto(CryptoError),
    /// The opened manifest is not a manifest.
    ManifestInvalid,
    /// The manifest has a schema version this library does not read.
    UnsupportedVersion { version: u32 },
    /// The reassembled data does not have the size the manifest promised.
    SizeMismatch { expected: u64, actual: usize },
    /// An event arrived that the session was not waiting for.
    UnexpectedEvent,
}

/// Why publishing a document failed (failures of the DHT itself are the
/// caller's, which performs the writes).
#[derive(Debug, Clone, Copy, PartialEq, Eq, Structural)]
pub enum PublishError {
    /// A chunk or the manifest could not be sealed.
    Crypto(CryptoError),
    /// The file has `chunks` chunks: with the manifest's that is more subkeys
    /// than a record's schema can hold (at most `u16::MAX`).
    TooManyChunks { chunks: usize },
    /// An event arrived that the session was not waiting for.
    UnexpectedEvent,
}

} // verus!
