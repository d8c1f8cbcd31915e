//! The error values of the library.

use rand_core::OsError;
use std::string::FromUtf8Error;
use vstd::prelude::*;
use vstd::std_specs::convert::FromSpecImpl;

verus! {

#[verifier::external_type_specification]
#[verifier::external_body]
pub struct ExOsError(OsError);

#[verifier::external_type_specification]
#[verifier::external_body]
pub struct ExFromUtf8Error(FromUtf8Error);

/// Everything that can go wrong in the library. Errors are returned to the
/// caller; the only condition handled internally is a key collision during
/// generation, which is retried a bounded number of times.
#[derive(Debug)]
#[allow(inconsistent_fields)]
pub enum ArcanumErr {
    /// The data does not have the expected shape.
    UnvalidFormat { reason: String },
    /// A text was empty after validation.
    EmptyPlainText,
    /// Key and text differ in byte length.
    SizeMismatch { key_len: usize, text_len: usize },
    /// The identity of the key is already recorded in the archive.
    KeyAlreadyArchived,
    /// The key was consumed before.
    KeyAlreadyUsed,
    /// The key cannot be used.
    KeyUnvalid,
    /// The archive is at capacity and nothing was evicted.
    FullArchives,
    /// Decrypted bytes are not valid UTF-8.
    Uft8Encoding { source: FromUtf8Error },
    /// The operating system's entropy source failed.
    RandomGeneration { source: OsError },
    /// Every generated candidate collided with an archived key.
    RetriesExhausted { attempts: usize },
}

impl From<FromUtf8Error> for ArcanumErr {
    fn from(source: FromUtf8Error) -> (err: ArcanumErr) {
        ArcanumErr::Uft8Encoding { source }
    }
}

impl FromSpecImpl<FromUtf8Error> for ArcanumErr {
    open spec fn obeys_from_spec() -> bool {
        true
    }

    open spec fn from_spec(source: FromUtf8Error) -> ArcanumErr {
        ArcanumErr::Uft8Encoding { source }
    }
}

impl From<OsError> for ArcanumErr {
    fn from(source: OsError) -> (err: ArcanumErr) {
        ArcanumErr::RandomGeneration { source }
    }
}

impl FromSpecImpl<OsError> for ArcanumErr {
    open spec fn obeys_from_spec() -> bool {
        true
    }

    open spec fn from_spec(source: OsError) -> ArcanumErr {
        ArcanumErr::RandomGeneration { source }
    }
}

} // verus!
