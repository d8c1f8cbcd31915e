//! One-time-pad encryption with key lifecycle management.
//!
//! A message and a key of exactly the same byte length are combined by
//! byte-wise exclusive-or. Secret material lives in erasing containers, and a
//! key manager records the identity of every consumed key so that no key is
//! handed out a second time.

pub mod cipher;
pub mod clock;
pub mod errors;
pub mod key_manager;
pub mod random;
pub mod secret;
pub mod text;
pub mod types;

pub use crate::cipher::decrypt_ciphertxt;
pub use crate::cipher::decrypt_ciphertxt as decrypt;
pub use crate::cipher::encrypt;
pub use crate::cipher::encrypth_plaintxt;
pub use crate::clock::Timestamp;
pub use crate::errors::ArcanumErr;
pub use crate::key_manager::KeyManager;
pub use crate::key_manager::KeyManagerBuilder;
pub use crate::key_manager::KeyManagerConfig;
pub use crate::key_manager::KeyManagerStats;
pub use crate::random::generate_bytes_key;
pub use crate::random::generate_text;
pub use crate::types::ArchivedKeys;
pub use crate::types::CipherText;
pub use crate::types::OtpKey;
pub use crate::types::PlainText;
