use arcanum::generate_bytes_key;
use arcanum::generate_text;
use arcanum::ArcanumErr;
use arcanum::CipherText;
use arcanum::PlainText;

fn in_white_space_table(c: char) -> bool {
    let u = c as u32;
    (0x09..=0x0D).contains(&u)
        || u == 0x20
        || u == 0x85
        || u == 0xA0
        || u == 0x1680
        || (0x2000..=0x200A).contains(&u)
        || u == 0x2028
        || u == 0x2029
        || u == 0x202F
        || u == 0x205F
        || u == 0x3000
}

#[test]
fn white_space_table_is_the_one_trimming_uses() {
    for u in 0..=0x10FFFFu32 {
        if let Some(c) = char::from_u32(u) {
            let padded = format!("{}x{}", c, c);
            let text = PlainText::from_text(&padded).expect("x is not white space");
            if in_white_space_table(c) {
                assert_eq!(text.reveal_text(), "x");
            } else {
                assert_eq!(text.reveal_text(), padded);
            }
        }
    }
}

#[test]
fn validation_trims_both_ends() {
    let text = PlainText::new("  \t Hello, world \r\n".to_string()).expect("not blank");
    assert_eq!(text.reveal_text(), "Hello, world");
    assert_eq!(text.len(), 12);
    assert_eq!(text.as_bytes(), b"Hello, world");
}

#[test]
fn validation_keeps_inner_white_space() {
    let text = PlainText::new(" a  b\tc ".to_string()).expect("not blank");
    assert_eq!(text.reveal_text(), "a  b\tc");
    assert_eq!(text.len(), 6);
}

#[test]
fn validation_leaves_a_trimmed_text_alone() {
    let text = PlainText::new("Hello".to_string()).expect("not blank");
    assert_eq!(text.reveal_text(), "Hello");
    assert_eq!(text.len(), 5);
}

#[test]
fn validating_twice_is_validating_once() {
    let once = PlainText::new("\u{3000} deux fois \u{a0}".to_string()).expect("not blank");
    let twice = PlainText::new(once.reveal_text().to_string()).expect("not blank");
    assert_eq!(once.reveal_text(), "deux fois");
    assert_eq!(twice.reveal_text(), once.reveal_text());
}

#[test]
fn length_is_counted_in_bytes() {
    let text = PlainText::new("日本語".to_string()).expect("not blank");
    assert_eq!(text.reveal_text().chars().count(), 3);
    assert_eq!(text.len(), 9);
    assert_eq!(text.as_bytes(), "日本語".as_bytes());
}

#[test]
fn strict_validation_refuses_the_empty_text() {
    let outcome = PlainText::from_text("");
    assert!(matches!(outcome, Err(ArcanumErr::EmptyPlainText)));
}

#[test]
fn strict_validation_refuses_a_blank_text() {
    let outcome = PlainText::from_text(" \t\n\u{2003}");
    assert!(matches!(outcome, Err(ArcanumErr::EmptyPlainText)));
}

#[test]
fn strict_validation_trims() {
    let text = PlainText::from_text("\n key material \n").expect("not blank");
    assert_eq!(text.reveal_text(), "key material");
    assert_eq!(text.len(), 12);
}

fn assert_is_fallback(outcome: Result<PlainText, ArcanumErr>) {
    match outcome {
        Ok(text) => {
            assert!(1 <= text.len() && text.len() <= 600);
            assert_eq!(text.len(), text.reveal_text().chars().count());
            assert!(text.reveal_text().chars().all(|c| (' '..='~').contains(&c)));
            assert!(!text.reveal_text().starts_with(' '));
            assert!(!text.reveal_text().ends_with(' '));
        }
        Err(e) => assert!(matches!(e, ArcanumErr::EmptyPlainText)),
    }
}

#[test]
fn empty_input_falls_back_on_a_random_text() {
    for _ in 0..50 {
        assert_is_fallback(PlainText::new(String::new()));
    }
}

#[test]
fn blank_input_falls_back_on_a_random_text() {
    for _ in 0..50 {
        assert_is_fallback(PlainText::new(" \t \n ".to_string()));
    }
}

#[test]
fn fallback_texts_differ() {
    let mut seen = std::collections::HashSet::new();
    for _ in 0..20 {
        if let Ok(text) = PlainText::new(String::new()) {
            seen.insert(text.reveal_text().to_string());
        }
    }
    assert!(seen.len() > 1);
}

#[test]
fn random_text_is_printable_and_of_bounded_length() {
    let mut lengths = std::collections::HashSet::new();
    for _ in 0..200 {
        let text = generate_text().expect("making up a text does not fail");
        let count = text.chars().count();
        assert!(1 <= count && count <= 600);
        assert_eq!(text.len(), count);
        assert!(text.chars().all(|c| (' '..='~').contains(&c)));
        lengths.insert(count);
    }
    assert!(lengths.len() > 1);
}

#[test]
fn random_key_bytes_have_the_length_asked_for() {
    for length in [0usize, 1, 5, 64, 1000] {
        let bytes = generate_bytes_key(length).expect("entropy is available");
        assert_eq!(bytes.len(), length);
    }
}

#[test]
fn random_key_bytes_are_not_left_at_zero() {
    let bytes = generate_bytes_key(64).expect("entropy is available");
    assert!(bytes.iter().any(|b| *b != 0));
    let again = generate_bytes_key(64).expect("entropy is available");
    assert_ne!(bytes, again);
}

#[test]
fn ciphertext_reports_its_bytes_and_length() {
    let ciphertext = CipherText::new(vec![9, 8, 7]);
    assert_eq!(ciphertext.len(), 3);
    assert_eq!(ciphertext.as_bytes(), &[9, 8, 7]);
}

#[test]
fn empty_ciphertext_has_length_zero() {
    let ciphertext = CipherText::new(Vec::new());
    assert_eq!(ciphertext.len(), 0);
    assert!(ciphertext.as_bytes().is_empty());
}

#[test]
fn erased_ciphertext_is_empty() {
    let mut ciphertext = CipherText::new(vec![1, 2, 3, 4]);
    ciphertext.zeroize();
    assert_eq!(ciphertext.len(), 0);
    assert!(ciphertext.as_bytes().is_empty());
}

#[test]
fn erasing_a_plaintext_consumes_it() {
    let text = PlainText::new("to be erased".to_string()).expect("not blank");
    text.erase();
}

#[test]
fn plaintext_debug_output_hides_the_text() {
    let text = PlainText::new("hunter2".to_string()).expect("not blank");
    let shown = format!("{:?}", text);
    assert!(!shown.contains("hunter2"));
}
