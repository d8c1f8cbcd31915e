//! Erasing containers for secret material.
//!
//! Secrets are held in `secrecy::SecretBox`, which wipes its contents when it
//! is dropped. The verifier cannot look inside such a box, so this module
//! names what a box holds and states, for each operation the library uses, how
//! that operation relates to the named contents. None of these statements is
//! proved; they are read off the sources of `secrecy` and `zeroize`.

use secrecy::ExposeSecret;
use secrecy::SecretBox;
use vstd::prelude::*;
use zeroize::Zeroize;

verus! {

/// A byte buffer inside a `secrecy::SecretBox<Vec<u8>>`. The box is opaque to
/// the verifier; [`secret_bytes`] names what it holds.
#[verifier::external_body]
#[derive(Debug)]
pub struct SecretBytes {
    inner: SecretBox<Vec<u8>>,
}

/// A string inside a `secrecy::SecretString`. The box is opaque to the
/// verifier; [`secret_text`] names what it holds.
#[verifier::external_body]
#[derive(Debug)]
pub struct SecretText {
    inner: SecretBox<str>,
}

/// The bytes held inside a secret byte buffer.
pub uninterp spec fn secret_bytes(sealed: SecretBytes) -> Seq<u8>;

/// The characters held inside a secret string.
pub uninterp spec fn secret_text(sealed: SecretText) -> Seq<char>;

/// `SecretBox::new` on a freshly boxed vector: the box holds exactly the
/// bytes it was given.
#[verifier::external_body]
pub(crate) fn seal_bytes(bytes: Vec<u8>) -> (sealed: SecretBytes)
    ensures
        secret_bytes(sealed) == bytes@,
{
    SecretBytes { inner: SecretBox::new(Box::new(bytes)) }
}

/// `SecretString::from(String)`: the box holds exactly the characters of the
/// string it was given.
#[verifier::external_body]
pub(crate) fn seal_text(text: String) -> (sealed: SecretText)
    ensures
        secret_text(sealed) == text@,
{
    SecretText { inner: SecretBox::<str>::from(text) }
}

/// `ExposeSecret::expose_secret` on a secret byte buffer: a reference to the
/// vector inside the box.
#[verifier::external_body]
pub(crate) fn exposed_bytes(sealed: &SecretBytes) -> (bytes: &Vec<u8>)
    ensures
        bytes@ == secret_bytes(*sealed),
{
    sealed.inner.expose_secret()
}

/// `ExposeSecret::expose_secret` on a secret string: a reference to the
/// string slice inside the box.
#[verifier::external_body]
pub(crate) fn exposed_text(sealed: &SecretText) -> (text: &str)
    ensures
        text@ == secret_text(*sealed),
{
    sealed.inner.expose_secret()
}

/// `Zeroize::zeroize` on a secret byte buffer: the vector inside is
/// overwritten with zeroes and then cleared, so the box ends up empty.
#[verifier::external_body]
pub(crate) fn erase_sealed_bytes(sealed: &mut SecretBytes)
    ensures
        secret_bytes(*final(sealed)) == Seq::<u8>::empty(),
{
    sealed.inner.zeroize()
}

/// `Zeroize::zeroize` on a vector of bytes: every element and the spare
/// capacity are overwritten with zeroes, then the vector is cleared.
#[verifier::external_body]
pub(crate) fn erase_bytes(bytes: &mut Vec<u8>)
    ensures
        final(bytes)@ == Seq::<u8>::empty(),
{
    bytes.zeroize()
}

} // verus!
