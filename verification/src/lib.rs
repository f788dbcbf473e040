//! voidpost-core: encryption, chunking, share links and the decision logic
//! of publishing and retrieving documents on a distributed hash table.
//!
//! The library's logic is verified; the few calls into the cipher, the base64
//! codec, the JSON library and the random number generator are trusted wrappers whose contracts
//! restate what those crates do. Network and file access are left to the
//! caller, which performs the actions the session machines ask for.
pub mod crypto;
pub mod dht_retry;
pub mod error;
pub mod json;
pub mod link;
pub mod node;
pub mod publish;
pub mod retrieve;
pub mod types;

pub use error::ConfigError;
pub use error::CryptoError;
pub use error::LinkError;
pub use error::PublishError;
pub use error::RetrieveError;
pub use link::SharePayload;
pub use types::Document;
