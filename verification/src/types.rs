//! The secret values that the cipher works on: ciphertext, plaintext and
//! keys, and the archive of consumed keys.

use crate::errors::ArcanumErr;
use crate::random::generate_bytes_key;
use crate::random::generate_text;
use crate::random::is_printable;
use crate::random::is_random_text;
use crate::random::MAX_RANDOM_TEXT_LENGTH;
use crate::secret::erase_bytes;
use crate::secret::erase_sealed_bytes;
use crate::secret::exposed_bytes;
use crate::secret::exposed_text;
use crate::secret::seal_bytes;
use crate::secret::seal_text;
use crate::secret::secret_bytes;
use crate::secret::secret_text;
use crate::secret::SecretBytes;
use crate::secret::SecretText;
use crate::text::is_blank;
use crate::text::is_canonical;
use crate::text::is_whitespace;
use crate::text::lemma_encode_utf8_len;
use crate::text::lemma_trimmed_empty_iff_blank;
use crate::text::lemma_trimmed_is_middle;
use crate::text::trimmed;
use std::collections::hash_map::DefaultHasher;
use std::collections::HashSet;
use std::hash::Hasher;
use vstd::prelude::*;
use vstd::slice::slice_to_vec;
use vstd::std_specs::cmp::PartialEqSpecImpl;
use vstd::std_specs::hash::DefaultHasherAdditionalSpecFns;
use vstd::utf8::encode_utf8;
use vstd::utf8::is_ascii_chars;
use vstd::utf8::is_ascii_chars_encode_utf8;

verus! {

/// What a key is measured against: anything with a length in bytes.
pub trait Text {
    /// The number of bytes.
    spec fn spec_byte_length(&self) -> nat;

    /// The number of bytes. This never fails.
    fn byte_length(&self) -> (length: Result<usize, ArcanumErr>)
        ensures
            length matches Ok(n) && n == self.spec_byte_length(),
    ;
}

/// Ciphertext bytes together with their count.
pub struct CipherText {
    data: Vec<u8>,
    length: usize,
}

impl View for CipherText {
    type V = Seq<u8>;

    closed spec fn view(&self) -> Seq<u8> {
        self.data@
    }
}

impl CipherText {
    #[verifier::type_invariant]
    spec fn consistent(self) -> bool {
        self.length == self.data@.len()
    }

    /// Wraps ciphertext bytes.
    pub fn new(data: Vec<u8>) -> (ciphertext: CipherText)
        ensures
            ciphertext@ == data@,
    {
        let length = data.len();
        CipherText { data, length }
    }

    /// The number of ciphertext bytes.
    pub fn len(&self) -> (length: usize)
        ensures
            length == self@.len(),
    {
        proof {
            use_type_invariant(self);
        }
        self.length
    }

    /// The ciphertext bytes.
    pub fn as_bytes(&self) -> (bytes: &[u8])
        ensures
            bytes@ == self@,
    {
        self.data.as_slice()
    }

    /// Overwrites the ciphertext with zeroes and leaves it empty.
    pub fn zeroize(&mut self)
        ensures
            final(self)@ == Seq::<u8>::empty(),
    {
        let mut spent = CipherText { data: Vec::new(), length: 0 };
        std::mem::swap(self, &mut spent);
        let CipherText { data, length: _ } = spent;
        let mut buffer = data;
        erase_bytes(&mut buffer);
    }
}

impl Text for CipherText {
    open spec fn spec_byte_length(&self) -> nat {
        self@.len()
    }

    fn byte_length(&self) -> (length: Result<usize, ArcanumErr>) {
        Ok(self.len())
    }
}

/// A validated message: trimmed, not empty, and held in erasing containers
/// both as text and as the bytes of its UTF-8 encoding.
#[derive(Debug)]
pub struct PlainText {
    content: SecretText,
    bytes: SecretBytes,
    length: usize,
}

impl View for PlainText {
    type V = Seq<char>;

    closed spec fn view(&self) -> Seq<char> {
        secret_text(self.content)
    }
}

/// A text that validation can yield in place of a blank input: what is left
/// of a made-up message after trimming, if anything is left.
pub open spec fn is_fallback_text(s: Seq<char>) -> bool {
    &&& is_canonical(s)
    &&& s.len() <= MAX_RANDOM_TEXT_LENGTH
    &&& forall|i: int| 0 <= i < s.len() ==> is_printable(#[trigger] s[i])
}

/// What is left of a made-up message after trimming is empty or a fallback
/// text.
pub proof fn lemma_trimmed_random_text(s: Seq<char>)
    requires
        is_random_text(s),
    ensures
        is_blank(s) || is_fallback_text(trimmed(s)),
{
    let cut = lemma_trimmed_is_middle(s);
    lemma_trimmed_empty_iff_blank(s);
}

/// A made-up message is blank only where it consists of spaces.
pub proof fn lemma_blank_random_text(s: Seq<char>)
    requires
        is_random_text(s),
        is_blank(s),
    ensures
        forall|i: int| 0 <= i < s.len() ==> #[trigger] s[i] == ' ',
{
    assert forall|i: int| 0 <= i < s.len() implies #[trigger] s[i] == ' ' by {
        lemma_printable_whitespace(s[i]);
    }
}

/// The space is the only printable character that is white space.
pub proof fn lemma_printable_whitespace(c: char)
    requires
        is_printable(c),
    ensures
        is_whitespace(c) <==> c == ' ',
{
}

/// A fallback text has between 1 and 600 bytes.
pub proof fn lemma_fallback_text_len(s: Seq<char>)
    requires
        is_fallback_text(s),
    ensures
        1 <= encode_utf8(s).len() <= MAX_RANDOM_TEXT_LENGTH,
{
    lemma_printable_encoding_len(s);
}

/// Empty-input fallback: a made-up message that does not consist of spaces
/// alone is not blank, so validation makes a text of it, and that text has
/// between 1 and 600 bytes.
pub proof fn lemma_fallback_is_never_empty(made_up: Seq<char>)
    requires
        is_random_text(made_up),
        exists|i: int| 0 <= i < made_up.len() && made_up[i] != ' ',
    ensures
        !is_blank(made_up),
        is_fallback_text(trimmed(made_up)),
        1 <= encode_utf8(trimmed(made_up)).len() <= MAX_RANDOM_TEXT_LENGTH,
{
    if is_blank(made_up) {
        lemma_blank_random_text(made_up);
    }
    lemma_trimmed_random_text(made_up);
    lemma_fallback_text_len(trimmed(made_up));
}

/// A text of printable characters takes one byte per character.
pub proof fn lemma_printable_encoding_len(s: Seq<char>)
    requires
        forall|i: int| 0 <= i < s.len() ==> is_printable(#[trigger] s[i]),
    ensures
        encode_utf8(s).len() == s.len(),
{
    assert(is_ascii_chars(s)) by {
        assert forall|i: int| 0 <= i < s.len() implies '\0' <= #[trigger] s[i] <= '\u{7f}' by {
            assert(is_printable(s[i]));
        }
    }
    is_ascii_chars_encode_utf8(s);
}

impl PlainText {
    #[verifier::type_invariant]
    spec fn valid(self) -> bool {
        &&& is_canonical(self@)
        &&& secret_bytes(self.bytes) == encode_utf8(self@)
        &&& self.length == encode_utf8(self@).len()
    }

    /// The bytes of the message: its UTF-8 encoding.
    pub open spec fn spec_bytes(&self) -> Seq<u8> {
        encode_utf8(self@)
    }

    /// Validates a message without falling back on a made-up one: the
    /// message is trimmed, and a blank message is refused.
    pub fn from_text(raw: &str) -> (validated: Result<PlainText, ArcanumErr>)
        ensures
            match validated {
                Ok(text) => !is_blank(raw@) && text@ == trimmed(raw@) && is_canonical(text@),
                Err(e) => is_blank(raw@) && e is EmptyPlainText,
            },
    {
        let trimmed = raw.trim();
        proof {
            let _ = lemma_trimmed_is_middle(raw@);
            lemma_trimmed_empty_iff_blank(raw@);
        }
        if trimmed.is_empty() {
            return Err(ArcanumErr::EmptyPlainText);
        }
        let bytes = slice_to_vec(trimmed.as_bytes());
        let length = bytes.len();
        Ok(PlainText { content: seal_text(trimmed.to_owned()), bytes: seal_bytes(bytes), length })
    }

    /// Validates a message. The message is trimmed. A blank message is
    /// replaced by a made-up one, which is validated in its turn, once: if
    /// nothing but white space was made up, the result is `EmptyPlainText`.
    pub fn new(text: String) -> (validated: Result<PlainText, ArcanumErr>)
        ensures
            !is_blank(text@) ==> (validated matches Ok(plain) && plain@ == trimmed(text@)),
            is_blank(text@) ==> match validated {
                Ok(plain) => is_fallback_text(plain@),
                Err(e) => e is EmptyPlainText,
            },
            validated matches Ok(plain) ==> is_canonical(plain@),
    {
        match PlainText::from_text(text.as_str()) {
            Ok(plain) => Ok(plain),
            Err(_) => {
                let random_txt = generate_text()?;
                proof {
                    lemma_trimmed_random_text(random_txt@);
                }
                PlainText::from_text(random_txt.as_str())
            },
        }
    }

    /// The message.
    pub fn reveal_text(&self) -> (text: &str)
        ensures
            text@ == self@,
    {
        exposed_text(&self.content)
    }

    /// The number of bytes of the message, which is the number of bytes a
    /// key for it must have. It is never zero.
    pub fn len(&self) -> (length: usize)
        ensures
            length == self.spec_bytes().len(),
            length > 0,
    {
        proof {
            use_type_invariant(self);
            lemma_encode_utf8_len(self@);
        }
        self.length
    }

    /// The bytes of the message.
    pub fn as_bytes(&self) -> (bytes: &[u8])
        ensures
            bytes@ == self.spec_bytes(),
    {
        proof {
            use_type_invariant(self);
        }
        exposed_bytes(&self.bytes).as_slice()
    }

    /// Overwrites the byte form of the message with zeroes and releases the
    /// message, whose text is erased as its container is dropped.
    pub fn erase(self) {
        let PlainText { content: _, bytes, length: _ } = self;
        let mut buffer = bytes;
        erase_sealed_bytes(&mut buffer);
    }
}

impl Text for PlainText {
    open spec fn spec_byte_length(&self) -> nat {
        self.spec_bytes().len()
    }

    fn byte_length(&self) -> (length: Result<usize, ArcanumErr>) {
        Ok(self.len())
    }
}

/// The identity of a key: the digest that the standard library's default
/// hasher gives for the key bytes written to it in one piece. It is a
/// function of the bytes and of their order, and it is what stands for the
/// key wherever keys are compared or stored.
pub open spec fn key_identity(bytes: Seq<u8>) -> u64 {
    DefaultHasher::spec_finish(seq![bytes])
}

/// A one-time key: secret bytes and their identity.
#[derive(Debug)]
pub struct OtpKey {
    key_data: SecretBytes,
    id: u64,
}

impl View for OtpKey {
    type V = Seq<u8>;

    closed spec fn view(&self) -> Seq<u8> {
        secret_bytes(self.key_data)
    }
}

impl OtpKey {
    #[verifier::type_invariant]
    spec fn valid(self) -> bool {
        self.id == key_identity(self@)
    }

    /// The identity of the key.
    pub open spec fn spec_identity(&self) -> u64 {
        key_identity(self@)
    }

    /// Generates a key for a message: as many random bytes as the validated
    /// message has. A blank message stands for a made-up one, so the key
    /// then has the length of some fallback text.
    pub fn generate_for_text(text: &str) -> (generated: Result<OtpKey, ArcanumErr>)
        ensures
            match generated {
                Ok(key) => if is_blank(text@) {
                    1 <= key@.len() <= MAX_RANDOM_TEXT_LENGTH
                } else {
                    key@.len() == encode_utf8(trimmed(text@)).len()
                },
                Err(e) => e is RandomGeneration || (e is EmptyPlainText && is_blank(text@)),
            },
    {
        let plaintxt = PlainText::new(text.to_owned())?;
        proof {
            if is_blank(text@) {
                lemma_printable_encoding_len(plaintxt@);
            }
        }
        OtpKey::generate_for_length(plaintxt.len())
    }

    /// Generates a key of `length` random bytes.
    pub fn generate_for_length(length: usize) -> (generated: Result<OtpKey, ArcanumErr>)
        ensures
            match generated {
                Ok(key) => key@.len() == length,
                Err(e) => e is RandomGeneration,
            },
    {
        let key_bytes = generate_bytes_key(length)?;
        OtpKey::from_bytes(key_bytes)
    }

    /// Makes a key of the given bytes for the given text. Bytes of another
    /// length than the text are refused with `SizeMismatch`, which reports
    /// both lengths.
    pub fn validation<T: Text>(key: Vec<u8>, txt: &T) -> (made: Result<OtpKey, ArcanumErr>)
        ensures
            match made {
                Ok(made_key) => key@.len() == txt.spec_byte_length() && made_key@ == key@,
                Err(e) => key@.len() != txt.spec_byte_length() && e == (ArcanumErr::SizeMismatch {
                    key_len: key@.len() as usize,
                    text_len: txt.spec_byte_length() as usize,
                }),
            },
    {
        let text_len = txt.byte_length()?;
        if key.len() != text_len {
            return Err(ArcanumErr::SizeMismatch { key_len: key.len(), text_len });
        }
        OtpKey::from_bytes(key)
    }

    /// Makes a key of the given bytes and computes its identity. This never
    /// fails.
    pub fn from_bytes(bytes: Vec<u8>) -> (made: Result<OtpKey, ArcanumErr>)
        ensures
            made matches Ok(key) && key@ == bytes@,
    {
        let mut hasher = DefaultHasher::new();
        hasher.write(bytes.as_slice());
        let id = hasher.finish();
        assert(hasher@ =~= seq![bytes@]);
        Ok(OtpKey { key_data: seal_bytes(bytes), id })
    }

    /// The number of key bytes.
    pub fn len(&self) -> (length: usize)
        ensures
            length == self@.len(),
    {
        exposed_bytes(&self.key_data).len()
    }

    /// The key bytes.
    pub fn as_bytes(&self) -> (bytes: &[u8])
        ensures
            bytes@ == self@,
    {
        exposed_bytes(&self.key_data).as_slice()
    }

    /// The identity of the key.
    pub fn identity(&self) -> (id: u64)
        ensures
            id == self.spec_identity(),
    {
        proof {
            use_type_invariant(self);
        }
        self.id
    }
}

impl OtpKey {
    /// Overwrites the key bytes with zeroes and releases the key.
    pub fn erase(self) {
        let OtpKey { key_data, id: _ } = self;
        let mut buffer = key_data;
        erase_sealed_bytes(&mut buffer);
    }
}

impl PartialEq for OtpKey {
    /// Keys are compared by their identities, so that comparing them does not
    /// touch the secret bytes.
    fn eq(&self, other: &OtpKey) -> (equal: bool) {
        proof {
            use_type_invariant(self);
            use_type_invariant(other);
        }
        self.id == other.id
    }
}

impl PartialEqSpecImpl for OtpKey {
    open spec fn obeys_eq_spec() -> bool {
        true
    }

    open spec fn eq_spec(&self, other: &OtpKey) -> bool {
        self.spec_identity() == other.spec_identity()
    }
}

impl Eq for OtpKey {

}

impl Clone for OtpKey {
    /// A second key with the same bytes, and so with the same identity.
    fn clone(&self) -> (copy: OtpKey)
        ensures
            copy@ == self@,
    {
        proof {
            use_type_invariant(self);
        }
        let data = slice_to_vec(exposed_bytes(&self.key_data).as_slice());
        OtpKey { key_data: seal_bytes(data), id: self.id }
    }
}

/// The identities of the keys that were consumed. An identity that is in the
/// archive cannot be put there again.
#[derive(Debug)]
pub struct ArchivedKeys {
    keys: HashSet<u64>,
}

impl View for ArchivedKeys {
    type V = Set<u64>;

    closed spec fn view(&self) -> Set<u64> {
        self.keys@
    }
}

impl ArchivedKeys {
    /// The archive holds finitely many identities.
    pub open spec fn wf(&self) -> bool {
        self@.finite()
    }

    /// What archiving the identity `id` does to an archive that holds `ids`:
    /// the grown archive, or nothing where `id` is already in it.
    pub open spec fn spec_archive(ids: Set<u64>, id: u64) -> Option<Set<u64>> {
        if ids.contains(id) {
            None
        } else {
            Some(ids.insert(id))
        }
    }

    /// An empty archive.
    pub fn new() -> (archive: ArchivedKeys)
        ensures
            archive.wf(),
            archive@ == Set::<u64>::empty(),
    {
        ArchivedKeys { keys: HashSet::new() }
    }

    /// Records the key as consumed. A key whose identity is already recorded
    /// is refused with `KeyAlreadyArchived`, and the archive stays as it is.
    /// Either way the key is released, and its bytes are erased with it.
    pub fn archive(&mut self, key: OtpKey) -> (archived: Result<(), ArcanumErr>)
        requires
            old(self).wf(),
        ensures
            final(self).wf(),
            match ArchivedKeys::spec_archive(old(self)@, key.spec_identity()) {
                Some(ids) => archived is Ok && final(self)@ == ids,
                None => archived matches Err(e) && e is KeyAlreadyArchived && final(self)@ == old(
                    self,
                )@,
            },
    {
        let id = key.identity();
        if self.keys.contains(&id) {
            Err(ArcanumErr::KeyAlreadyArchived)
        } else {
            self.keys.insert(id);
            Ok(())
        }
    }

    /// Whether the identity of the key is recorded.
    pub fn is_used(&self, key: &OtpKey) -> (used: bool)
        ensures
            used == self@.contains(key.spec_identity()),
    {
        let id = key.identity();
        self.keys.contains(&id)
    }

    /// The number of recorded identities.
    pub fn count(&self) -> (count: usize)
        ensures
            count == self@.len(),
    {
        self.keys.len()
    }
}

/// Archive uniqueness: where the same identity is archived twice in a row,
/// the second attempt is refused whatever the first came to, and the two
/// together add exactly one identity to an archive that did not hold it, and
/// none to one that did.
pub proof fn lemma_archive_twice(ids: Set<u64>, id: u64)
    requires
        ids.finite(),
    ensures
        ({
            let first = ArchivedKeys::spec_archive(ids, id);
            let between = match first {
                Some(grown) => grown,
                None => ids,
            };
            &&& ArchivedKeys::spec_archive(between, id) is None
            &&& between.finite()
            &&& !ids.contains(id) ==> first is Some && between.len() == ids.len() + 1
            &&& ids.contains(id) ==> first is None && between == ids
        }),
{
}

impl Default for ArchivedKeys {
    fn default() -> (archive: ArchivedKeys)
        ensures
            archive.wf(),
            archive@ == Set::<u64>::empty(),
    {
        ArchivedKeys::new()
    }
}

} // verus!
