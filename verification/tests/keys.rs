use arcanum::ArcanumErr;
use arcanum::ArchivedKeys;
use arcanum::CipherText;
use arcanum::OtpKey;
use arcanum::PlainText;
use arcanum::types::Text;
use std::hash::Hasher;

fn key_of(bytes: &[u8]) -> OtpKey {
    OtpKey::from_bytes(bytes.to_vec()).expect("a key can be made of any bytes")
}

#[test]
fn key_from_bytes_keeps_the_bytes() {
    let key = key_of(&[1, 2, 3, 250]);
    assert_eq!(key.len(), 4);
    assert_eq!(key.as_bytes(), &[1, 2, 3, 250]);
}

#[test]
fn key_from_no_bytes_is_empty() {
    let key = key_of(&[]);
    assert_eq!(key.len(), 0);
    assert!(key.as_bytes().is_empty());
}

#[test]
fn generated_key_has_the_length_asked_for() {
    for length in [0usize, 1, 16, 600] {
        let key = OtpKey::generate_for_length(length).expect("entropy is available");
        assert_eq!(key.len(), length);
        assert_eq!(key.as_bytes().len(), length);
    }
}

#[test]
fn generated_key_matches_the_text_in_bytes() {
    assert_eq!(OtpKey::generate_for_text("test").expect("entropy").len(), 4);
    assert_eq!(OtpKey::generate_for_text("  test  ").expect("entropy").len(), 4);
    assert_eq!(OtpKey::generate_for_text("été").expect("entropy").len(), 5);
}

#[test]
fn generated_key_for_a_blank_text_matches_some_fallback_text() {
    match OtpKey::generate_for_text("  ") {
        Ok(key) => assert!(1 <= key.len() && key.len() <= 600),
        Err(e) => assert!(matches!(e, ArcanumErr::EmptyPlainText)),
    }
}

#[test]
fn generated_keys_differ() {
    let one = OtpKey::generate_for_length(32).expect("entropy is available");
    let other = OtpKey::generate_for_length(32).expect("entropy is available");
    assert_ne!(one.as_bytes(), other.as_bytes());
    assert_ne!(one.identity(), other.identity());
}

#[test]
fn identity_is_a_function_of_the_bytes() {
    assert_eq!(key_of(&[1, 2, 3]).identity(), key_of(&[1, 2, 3]).identity());
    assert_eq!(key_of(&[]).identity(), key_of(&[]).identity());
}

#[test]
fn identity_depends_on_content_and_order() {
    let id = key_of(&[1, 2, 3]).identity();
    assert_ne!(id, key_of(&[3, 2, 1]).identity());
    assert_ne!(id, key_of(&[1, 2, 4]).identity());
    assert_ne!(id, key_of(&[1, 2]).identity());
    assert_ne!(id, key_of(&[1, 2, 3, 0]).identity());
}

#[test]
fn identity_is_the_default_hasher_digest_of_the_bytes() {
    let mut hasher = std::collections::hash_map::DefaultHasher::new();
    hasher.write(&[10, 20, 30]);
    assert_eq!(key_of(&[10, 20, 30]).identity(), hasher.finish());
}

#[test]
fn cloned_key_has_the_same_bytes_and_identity() {
    let key = key_of(&[5, 6, 7, 8]);
    let copy = key.clone();
    assert_eq!(copy.as_bytes(), key.as_bytes());
    assert_eq!(copy.identity(), key.identity());
    assert_eq!(copy.len(), 4);
}

#[test]
fn key_debug_output_hides_the_bytes() {
    let key = key_of(&[0xAB, 0xCD, 0xEF]);
    let shown = format!("{:?}", key).to_lowercase();
    assert!(!shown.contains("171"));
    assert!(!shown.contains("ab, cd"));
    assert!(!shown.contains("abcdef"));
}

#[test]
fn new_archive_is_empty() {
    let archive = ArchivedKeys::new();
    assert_eq!(archive.count(), 0);
    assert!(!archive.is_used(&key_of(&[1])));
}

#[test]
fn default_archive_is_empty() {
    let archive = ArchivedKeys::default();
    assert_eq!(archive.count(), 0);
}

#[test]
fn archived_key_is_used() {
    let mut archive = ArchivedKeys::new();
    let key = key_of(&[1, 2, 3]);
    assert!(!archive.is_used(&key));
    assert!(archive.archive(key.clone()).is_ok());
    assert!(archive.is_used(&key));
    assert!(archive.is_used(&key_of(&[1, 2, 3])));
    assert!(!archive.is_used(&key_of(&[1, 2, 4])));
    assert_eq!(archive.count(), 1);
}

#[test]
fn archiving_twice_is_refused_and_counts_once() {
    let mut archive = ArchivedKeys::new();
    let key = key_of(&[9, 9, 9]);
    let before = archive.count();
    assert!(archive.archive(key.clone()).is_ok());
    let second = archive.archive(key.clone());
    assert!(matches!(second, Err(ArcanumErr::KeyAlreadyArchived)));
    assert_eq!(archive.count(), before + 1);
    assert!(archive.is_used(&key));
}

#[test]
fn archiving_twice_after_other_keys_counts_once() {
    let mut archive = ArchivedKeys::new();
    assert!(archive.archive(key_of(&[1])).is_ok());
    assert!(archive.archive(key_of(&[2])).is_ok());
    let before = archive.count();
    assert_eq!(before, 2);
    assert!(archive.archive(key_of(&[3])).is_ok());
    assert!(matches!(archive.archive(key_of(&[3])), Err(ArcanumErr::KeyAlreadyArchived)));
    assert!(matches!(archive.archive(key_of(&[1])), Err(ArcanumErr::KeyAlreadyArchived)));
    assert_eq!(archive.count(), before + 1);
}

#[test]
fn archive_counts_distinct_keys() {
    let mut archive = ArchivedKeys::new();
    for i in 0..100u8 {
        assert!(archive.archive(key_of(&[i, i])).is_ok());
    }
    assert_eq!(archive.count(), 100);
    for i in 0..100u8 {
        assert!(archive.is_used(&key_of(&[i, i])));
    }
}

#[test]
fn key_made_for_a_text_of_its_length_is_accepted() {
    let text = PlainText::new("Hello".to_string()).expect("not blank");
    let key = OtpKey::validation(vec![1, 2, 3, 4, 5], &text).expect("lengths match");
    assert_eq!(key.as_bytes(), &[1, 2, 3, 4, 5]);
    assert_eq!(key.identity(), key_of(&[1, 2, 3, 4, 5]).identity());
}

#[test]
fn key_made_for_a_text_of_another_length_is_refused() {
    let text = PlainText::new("Hello".to_string()).expect("not blank");
    let outcome = OtpKey::validation(vec![1, 2, 3], &text);
    assert!(matches!(outcome, Err(ArcanumErr::SizeMismatch { key_len: 3, text_len: 5 })));
}

#[test]
fn key_made_for_a_ciphertext_is_measured_against_its_bytes() {
    let ciphertext = CipherText::new(vec![0, 0]);
    assert!(OtpKey::validation(vec![9, 9], &ciphertext).is_ok());
    let outcome = OtpKey::validation(vec![9, 9, 9], &ciphertext);
    assert!(matches!(outcome, Err(ArcanumErr::SizeMismatch { key_len: 3, text_len: 2 })));
}

#[test]
fn byte_length_of_texts() {
    let text = PlainText::new(" \u{e9}t\u{e9} ".to_string()).expect("not blank");
    assert!(matches!(text.byte_length(), Ok(5)));
    assert!(matches!(CipherText::new(vec![1, 2, 3]).byte_length(), Ok(3)));
    assert!(matches!(CipherText::new(Vec::new()).byte_length(), Ok(0)));
}

#[test]
fn keys_are_equal_by_identity() {
    assert!(key_of(&[1, 2, 3]) == key_of(&[1, 2, 3]));
    assert!(key_of(&[1, 2, 3]) != key_of(&[1, 2, 4]));
    assert!(key_of(&[]) == key_of(&[]));
    let key = key_of(&[42; 16]);
    assert!(key.clone() == key);
}

#[test]
fn erasing_a_key_consumes_it() {
    let key = key_of(&[1, 2, 3]);
    key.erase();
}
