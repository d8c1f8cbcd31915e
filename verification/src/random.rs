//! The random source: key bytes from the operating system, and a random
//! printable message for callers that supply none.

use crate::errors::ArcanumErr;
use rand::rngs::ThreadRng;
use rand::Rng;
use rand_core::OsError;
use rand_core::OsRng;
use rand_core::TryRngCore;
use vstd::prelude::*;

verus! {

#[verifier::external_type_specification]
#[verifier::external_body]
pub struct ExThreadRng(ThreadRng);

/// The longest message that the random source makes up.
pub const MAX_RANDOM_TEXT_LENGTH: u32 = 600;

/// The first printable ASCII character, the space.
pub const FIRST_PRINTABLE: u32 = 32;

/// The last printable ASCII character, the tilde.
pub const LAST_PRINTABLE: u32 = 126;

/// A character from the space to the tilde.
pub open spec fn is_printable(c: char) -> bool {
    ' ' <= c <= '~'
}

/// A text as the random source makes it up: between 1 and 600 printable
/// ASCII characters.
pub open spec fn is_random_text(s: Seq<char>) -> bool {
    &&& 1 <= s.len() <= MAX_RANDOM_TEXT_LENGTH
    &&& forall|i: int| 0 <= i < s.len() ==> is_printable(#[trigger] s[i])
}

/// `rand::rng`: a handle to the generator of the current thread. Nothing is
/// known about the numbers it will give.
pub assume_specification[ rand::rng ]() -> ThreadRng;

/// `Rng::random_range` on an inclusive range of `u32`: some value of the
/// range. The call panics on an empty range, which `requires` excludes.
#[verifier::external_body]
fn random_in_range(rng: &mut ThreadRng, low: u32, high: u32) -> (value: u32)
    requires
        low <= high,
    ensures
        low <= value <= high,
{
    rng.random_range(low..=high)
}

/// `TryRngCore::try_fill_bytes` on `OsRng`: overwrites the buffer with bytes
/// from the operating system, or reports that the source failed. The length
/// of the buffer does not change; nothing is known about the bytes.
#[verifier::external_body]
fn fill_from_os(buffer: &mut Vec<u8>) -> (filled: Result<(), OsError>)
    ensures
        final(buffer)@.len() == old(buffer)@.len(),
{
    OsRng.try_fill_bytes(buffer)
}

/// Makes up a message: a length drawn from 1 to 600, then that many
/// characters drawn from the printable ASCII range.
pub fn generate_text() -> (generated: Result<String, ArcanumErr>)
    ensures
        generated matches Ok(text) && is_random_text(text@),
{
    let mut rng_len = rand::rng();
    let random_nbr: u32 = random_in_range(&mut rng_len, 1, MAX_RANDOM_TEXT_LENGTH);
    let mut rng = rand::rng();
    let mut text = String::new();
    let mut drawn: u32 = 0;
    while drawn < random_nbr
        invariant
            drawn <= random_nbr,
            text@.len() == drawn,
            forall|i: int| 0 <= i < text@.len() ==> is_printable(#[trigger] text@[i]),
        decreases random_nbr - drawn,
    {
        let ascii_code: u32 = random_in_range(&mut rng, FIRST_PRINTABLE, LAST_PRINTABLE);
        let c: char = ascii_code as u8 as char;
        text.push(c);
        drawn = drawn + 1;
    }
    Ok(text)
}

/// Draws `length` key bytes from the operating system's entropy source.
/// Fails with `RandomGeneration` when the source does, and only then.
pub fn generate_bytes_key(length: usize) -> (generated: Result<Vec<u8>, ArcanumErr>)
    ensures
        match generated {
            Ok(bytes) => bytes@.len() == length,
            Err(e) => e is RandomGeneration,
        },
{
    let mut bytes: Vec<u8> = vec![0u8; length];
    match fill_from_os(&mut bytes) {
        Ok(()) => Ok(bytes),
        Err(source) => Err(ArcanumErr::from(source)),
    }
}

} // verus!
