//! The cipher: byte-wise exclusive-or of a message with a key of the same
//! length, in both directions.

use crate::errors::ArcanumErr;
use crate::text::is_blank;
use crate::text::is_canonical;
use crate::text::lemma_trimmed_encoding_len;
use crate::text::lemma_trimmed_of_canonical;
use crate::text::trimmed;
use crate::types::is_fallback_text;
use crate::types::CipherText;
use crate::types::OtpKey;
use crate::types::PlainText;
use vstd::prelude::*;
use vstd::utf8::decode_utf8;
use vstd::utf8::decode_utf8_encode_utf8;
use vstd::utf8::encode_utf8;
use vstd::utf8::encode_utf8_decode_utf8;
use vstd::utf8::encode_utf8_valid_utf8;
use vstd::utf8::valid_utf8;

verus! {

/// The byte-wise exclusive-or of two byte sequences of one length.
pub open spec fn xor_bytes(left: Seq<u8>, right: Seq<u8>) -> Seq<u8>
    recommends
        left.len() == right.len(),
{
    Seq::new(left.len(), |i: int| left[i] ^ right[i])
}

/// What encrypting `bytes` under `key` must come to: the exclusive-or of the
/// two where they have one length, and otherwise a `SizeMismatch` that
/// reports both lengths.
pub open spec fn encrypts(
    outcome: Result<CipherText, ArcanumErr>,
    bytes: Seq<u8>,
    key: Seq<u8>,
) -> bool {
    match outcome {
        Ok(ciphertext) => bytes.len() == key.len() && ciphertext@ == xor_bytes(bytes, key),
        Err(e) => bytes.len() != key.len() && e == (ArcanumErr::SizeMismatch {
            key_len: key.len() as usize,
            text_len: bytes.len() as usize,
        }),
    }
}

/// The text that decrypting `cipher` under `key` yields where the bytes that
/// come out are valid UTF-8 and not blank.
pub open spec fn decrypted_text(cipher: Seq<u8>, key: Seq<u8>) -> Seq<char> {
    trimmed(decode_utf8(xor_bytes(cipher, key)))
}

/// What decrypting `cipher` under `key` must come to.
///
/// Different lengths give a `SizeMismatch`. Bytes that are not valid UTF-8
/// give `Uft8Encoding`. Otherwise the decoded text is validated as every
/// plaintext is: it is trimmed, and where nothing is left a made-up message
/// takes its place, or `EmptyPlainText` where that was blank as well.
pub open spec fn decrypts(
    outcome: Result<PlainText, ArcanumErr>,
    cipher: Seq<u8>,
    key: Seq<u8>,
) -> bool {
    if cipher.len() != key.len() {
        outcome matches Err(e) && e == (ArcanumErr::SizeMismatch {
            key_len: key.len() as usize,
            text_len: cipher.len() as usize,
        })
    } else if !valid_utf8(xor_bytes(cipher, key)) {
        outcome matches Err(e) && e is Uft8Encoding
    } else if !is_blank(decode_utf8(xor_bytes(cipher, key))) {
        outcome matches Ok(text) && text@ == decrypted_text(cipher, key)
    } else {
        match outcome {
            Ok(text) => is_fallback_text(text@),
            Err(e) => e is EmptyPlainText,
        }
    }
}

fn exclusive_or(left: &[u8], right: &[u8]) -> (out: Vec<u8>)
    requires
        left@.len() == right@.len(),
    ensures
        out@ == xor_bytes(left@, right@),
{
    let mut out: Vec<u8> = Vec::with_capacity(left.len());
    let mut i: usize = 0;
    while i < left.len()
        invariant
            left@.len() == right@.len(),
            i <= left@.len(),
            out@.len() == i,
            forall|j: int| 0 <= j < i ==> out@[j] == left@[j] ^ right@[j],
        decreases left@.len() - i,
    {
        out.push(left[i] ^ right[i]);
        i = i + 1;
    }
    assert(out@ =~= xor_bytes(left@, right@));
    out
}

/// Encrypts a message under a key of the same byte length. Both are
/// consumed; the byte form of the message is erased once the ciphertext
/// exists.
pub fn encrypt(text: PlainText, key: OtpKey) -> (outcome: Result<CipherText, ArcanumErr>)
    ensures
        encrypts(outcome, text.spec_bytes(), key@),
        outcome matches Ok(ciphertext) ==> ciphertext@.len() == text.spec_bytes().len(),
{
    let outcome = encrypt_with(&text, &key);
    text.erase();
    outcome
}

fn encrypt_with(text: &PlainText, key: &OtpKey) -> (outcome: Result<CipherText, ArcanumErr>)
    ensures
        encrypts(outcome, text.spec_bytes(), key@),
{
    if text.len() != key.len() {
        return Err(ArcanumErr::SizeMismatch { key_len: key.len(), text_len: text.len() });
    }
    let ciphertxt = exclusive_or(text.as_bytes(), key.as_bytes());
    Ok(CipherText::new(ciphertxt))
}

/// Validates a message and encrypts it under the key.
///
/// A message that is not blank is trimmed and encrypted, or refused with
/// `SizeMismatch` where the key has another length than its bytes. A blank
/// message stands for a made-up one: the outcome is then that of encrypting
/// some fallback text, or `EmptyPlainText` where none could be made up.
pub fn encrypth_plaintxt(txt: &str, key: &OtpKey) -> (outcome: Result<CipherText, ArcanumErr>)
    ensures
        !is_blank(txt@) ==> encrypts(outcome, encode_utf8(trimmed(txt@)), key@),
        is_blank(txt@) ==> (outcome matches Err(e) && e is EmptyPlainText) || exists|
            fallback: Seq<char>,
        |
            #[trigger] is_fallback_text(fallback) && encrypts(
                outcome,
                encode_utf8(fallback),
                key@,
            ),
{
    let plaintxt = PlainText::new(txt.to_owned())?;
    let outcome = encrypt_with(&plaintxt, key);
    proof {
        if is_blank(txt@) {
            assert(is_fallback_text(plaintxt@) && encrypts(outcome, encode_utf8(plaintxt@), key@));
        }
    }
    plaintxt.erase();
    outcome
}

/// Decrypts a ciphertext under a key of the same length. Both are consumed,
/// and the ciphertext buffer is erased before the function returns, whatever
/// it returns.
pub fn decrypt_ciphertxt(ciphertxt: CipherText, key: OtpKey) -> (outcome: Result<
    PlainText,
    ArcanumErr,
>)
    ensures
        decrypts(outcome, ciphertxt@, key@),
{
    let mut ciphertxt = ciphertxt;
    if ciphertxt.len() != key.len() {
        let text_len = ciphertxt.len();
        ciphertxt.zeroize();
        return Err(ArcanumErr::SizeMismatch { key_len: key.len(), text_len });
    }
    let plaintxt = exclusive_or(ciphertxt.as_bytes(), key.as_bytes());
    ciphertxt.zeroize();
    match String::from_utf8(plaintxt) {
        Ok(text) => PlainText::new(text),
        Err(source) => Err(ArcanumErr::from(source)),
    }
}

/// Exclusive-or with a key is undone by exclusive-or with the same key.
pub proof fn lemma_xor_involution(bytes: Seq<u8>, key: Seq<u8>)
    requires
        bytes.len() == key.len(),
    ensures
        xor_bytes(xor_bytes(bytes, key), key) == bytes,
{
    assert forall|i: int| 0 <= i < bytes.len() implies (bytes[i] ^ key[i]) ^ key[i]
        == bytes[i] by {
        let b = bytes[i];
        let k = key[i];
        assert((b ^ k) ^ k == b) by (bit_vector);
    }
    assert(xor_bytes(xor_bytes(bytes, key), key) =~= bytes);
}

/// Round trip: a validated message that is encrypted under a key of its
/// length and decrypted under the same key comes back as it was.
///
/// `text` is the message and `key` the key bytes; the conclusion is the
/// exact outcome that the contracts of `encrypt` and `decrypt_ciphertxt`
/// give for them.
pub proof fn lemma_round_trip(text: Seq<char>, key: Seq<u8>)
    requires
        is_canonical(text),
        key.len() == encode_utf8(text).len(),
    ensures
        ({
            let cipher = xor_bytes(encode_utf8(text), key);
            &&& cipher.len() == key.len()
            &&& valid_utf8(xor_bytes(cipher, key))
            &&& !is_blank(decode_utf8(xor_bytes(cipher, key)))
            &&& decrypted_text(cipher, key) == text
        }),
{
    let bytes = encode_utf8(text);
    lemma_xor_involution(bytes, key);
    encode_utf8_valid_utf8(text);
    encode_utf8_decode_utf8(text);
    lemma_trimmed_of_canonical(text);
}

/// Two keys of one length that differ give different bytes when one undoes
/// the other's encryption.
pub proof fn lemma_xor_other_key(bytes: Seq<u8>, key: Seq<u8>, other: Seq<u8>)
    requires
        bytes.len() == key.len(),
        key.len() == other.len(),
        key != other,
    ensures
        xor_bytes(xor_bytes(bytes, key), other) != bytes,
{
    if forall|i: int| 0 <= i < key.len() ==> key[i] == other[i] {
        assert(key =~= other);
    }
    let i = choose|i: int| 0 <= i < key.len() && key[i] != other[i];
    let b = bytes[i];
    let k = key[i];
    let o = other[i];
    assert(k != o ==> (b ^ k) ^ o != b) by (bit_vector);
    assert(xor_bytes(xor_bytes(bytes, key), other)[i] == (b ^ k) ^ o);
}

/// No silent corruption: where a message is encrypted under one key and
/// decrypted under another of the same length, the bytes that come out are
/// not valid UTF-8, or they decode to a blank text, or the text that
/// `decrypt_ciphertxt` yields differs from the message.
///
/// The blank case is apart because a made-up message then takes the place
/// of the decoded text, and nothing ties it to the message.
pub proof fn lemma_wrong_key_changes_text(text: Seq<char>, key: Seq<u8>, other: Seq<u8>)
    requires
        is_canonical(text),
        key.len() == encode_utf8(text).len(),
        other.len() == key.len(),
        other != key,
    ensures
        ({
            let cipher = xor_bytes(encode_utf8(text), key);
            ||| !valid_utf8(xor_bytes(cipher, other))
            ||| is_blank(decode_utf8(xor_bytes(cipher, other)))
            ||| decrypted_text(cipher, other) != text
        }),
{
    let bytes = encode_utf8(text);
    let cipher = xor_bytes(bytes, key);
    let out = xor_bytes(cipher, other);
    lemma_xor_other_key(bytes, key, other);
    if valid_utf8(out) && decrypted_text(cipher, other) == text {
        let decoded = decode_utf8(out);
        decode_utf8_encode_utf8(out);
        lemma_trimmed_encoding_len(decoded);
        assert(decoded == text);
        assert(out == bytes);
    }
}

} // verus!
