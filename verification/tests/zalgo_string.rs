use std::borrow::Cow;
use zalgo_codec::{zalgo_decode, ZalgoString};

#[test]
fn zalgo_string_check_into_decoded_string() {
    let s = "Zalgo\n He comes!";
    let zs: ZalgoString = ZalgoString::new(s).unwrap();
    assert_eq!(zs.into_decoded_string(), s);

    let zs = ZalgoString::new("").unwrap();
    assert_eq!(zs.into_decoded_string(), "");
}

#[test]
fn mod_check_into_decoded_string() {
    let s = "Zalgo\n He comes!";
    let zs: ZalgoString = ZalgoString::new(s).unwrap();
    assert_eq!(zs.into_decoded_string(), s);

    let zs = ZalgoString::new("").unwrap();
    assert_eq!(zs.into_decoded_string(), "");
}

#[test]
fn zalgo_string_check_string_from_zalgo_string() {
    let zs = ZalgoString::new("Zalgo\n He comes!").unwrap();
    assert_eq!(zs.to_string(), "É̺͇͌͏̨ͯ̀̀̓ͅ͏͍͓́ͅ");
    assert_eq!(zs.into_string(), "É̺͇͌͏̨ͯ̀̀̓ͅ͏͍͓́ͅ");

    let zs = ZalgoString::new("").unwrap();
    assert_eq!(zs.into_string(), "E");
}

#[test]
fn mod_check_string_from_zalgo_string() {
    let zs = ZalgoString::new("Zalgo\n He comes!").unwrap();
    assert_eq!(zs.to_string(), "É̺͇͌͏̨ͯ̀̀̓ͅ͏͍͓́ͅ");
    assert_eq!(zs.into_string(), "É̺͇͌͏̨ͯ̀̀̓ͅ͏͍͓́ͅ");

    let zs = ZalgoString::new("").unwrap();
    assert_eq!(zs.into_string(), "E");
}

#[test]
fn zalgo_string_check_partial_eq() {
    let enc = "É̺͇͌͏̨ͯ̀̀̓ͅ͏͍͓́ͅ";
    let zs = ZalgoString::new("Zalgo\n He comes!").unwrap();
    assert_eq!(zs, enc);
    assert_eq!(zs, String::from(enc));
    assert_eq!(zs, Cow::from(enc));
    assert_eq!(String::from(enc), zs);
    assert_eq!(Cow::from(enc), zs);
}

#[test]
fn mod_check_partial_eq() {
    let enc = "É̺͇͌͏̨ͯ̀̀̓ͅ͏͍͓́ͅ";
    let zs = ZalgoString::new("Zalgo\n He comes!").unwrap();
    assert_eq!(zs, enc);
    assert_eq!(zs, String::from(enc));
    assert_eq!(zs, Cow::from(enc));
    assert_eq!(String::from(enc), zs);
    assert_eq!(Cow::from(enc), zs);
}

#[test]
fn zalgo_string_check_push_str() {
    let s1 = "Zalgo";
    let s2 = ", He comes";
    let mut zs = ZalgoString::new(s1).unwrap();
    let zs2 = ZalgoString::new(s2).unwrap();
    zs.push_zalgo_str(&zs2);
    assert_eq!(zs.clone().into_decoded_string(), format!("{s1}{s2}"));
    zs += &zs2;
    assert_eq!(
        (zs + &zs2).into_decoded_string(),
        format!("{s1}{s2}{s2}{s2}")
    );
}

#[test]
fn mod_check_push_str() {
    let s1 = "Zalgo";
    let s2 = ", He comes";
    let mut zs = ZalgoString::new(s1).unwrap();
    let zs2 = ZalgoString::new(s2).unwrap();
    zs.push_zalgo_str(&zs2);
    assert_eq!(zs.clone().into_decoded_string(), format!("{s1}{s2}"));
    zs += &zs2;
    assert_eq!(
        (zs + &zs2).into_decoded_string(),
        format!("{s1}{s2}{s2}{s2}")
    );
}

#[test]
fn zalgo_string_check_as_combining_chars() {
    assert_eq!(
        ZalgoString::new("Hi").unwrap().as_combining_chars(),
        "\u{328}\u{349}"
    );
    assert_eq!(ZalgoString::new("").unwrap().as_combining_chars(), "");
}

#[test]
fn mod_check_as_combining_chars() {
    assert_eq!(
        ZalgoString::new("Hi").unwrap().as_combining_chars(),
        "\u{328}\u{349}"
    );
    assert_eq!(ZalgoString::new("").unwrap().as_combining_chars(), "");
}

#[test]
fn zalgo_string_check_decoded_chars() {
    let zs = ZalgoString::new("Zalgo").unwrap();
    assert_eq!("oglaZ", zs.decoded_chars().collect_reversed());
}

#[test]
fn mod_check_decoded_chars() {
    let zs = ZalgoString::new("Zalgo").unwrap();
    assert_eq!("oglaZ", zs.decoded_chars().collect_reversed());
}

#[test]
fn zalgo_string_test_reserve() {
    let mut zs = ZalgoString::new("Zalgo").unwrap();
    zs.reserve(5);
    assert!(zs.capacity() >= 11 + 5);
    let c = zs.capacity();
    zs.reserve(1);
    assert_eq!(zs.capacity(), c);
}

#[test]
fn mod_test_reserve() {
    let mut zs = ZalgoString::new("Zalgo").unwrap();
    zs.reserve(5);
    assert!(zs.capacity() >= 11 + 5);
    let c = zs.capacity();
    zs.reserve(1);
    assert_eq!(zs.capacity(), c);
}

#[test]
fn zalgo_string_test_reserve_exact() {
    let mut zs = ZalgoString::new("Zalgo").unwrap();
    zs.reserve_exact(5);
    assert_eq!(zs.capacity(), 11 + 5);
    let c = zs.capacity();
    zs.reserve_exact(1);
    assert_eq!(zs.capacity(), c);
}

#[test]
fn mod_test_reserve_exact() {
    let mut zs = ZalgoString::new("Zalgo").unwrap();
    zs.reserve_exact(5);
    assert_eq!(zs.capacity(), 11 + 5);
    let c = zs.capacity();
    zs.reserve_exact(1);
    assert_eq!(zs.capacity(), c);
}

#[test]
fn test_truncate() {
    let mut zs = ZalgoString::new("Zalgo").unwrap();
    zs.truncate(100);
    assert_eq!(zs, "E\u{33a}\u{341}\u{34c}\u{347}\u{34f}");
    zs.truncate(5);
    assert_eq!(zs, "E\u{33a}\u{341}");
    assert_eq!(zs.into_decoded_string(), "Za");
}

#[test]
fn test_clear() {
    let mut zs = ZalgoString::new("Zalgo").unwrap();
    let c = zs.capacity();
    zs.clear();
    assert_eq!(zs.capacity(), c);
    assert_eq!(zs.len(), 1);
    assert_eq!(zs.decoded_len(), 0);
    assert!(zs.into_decoded_string().is_empty());
}

#[test]
fn test_get() {
    let zs = ZalgoString::new("Zalgo").unwrap();
    assert_eq!(zs.get(0..3), Some("E\u{33a}"));
    assert!(zs.get(0..2).is_none());
    assert!(zs.get(0..42).is_none());
}

#[test]
fn test_indexing() {
    let zs = ZalgoString::new("Zalgo").unwrap();
    assert_eq!(&zs[0..3], "E\u{33a}");
    assert_eq!(&zs[..3], "E\u{33a}");
    assert_eq!(&zs[0..=2], "E\u{33a}");
    assert_eq!(&zs[..=2], "E\u{33a}");
    assert_eq!(zs[..], zs);
}

#[test]
fn test_decoded_bytes() {
    let zs = ZalgoString::new("Zalgo").unwrap();
    assert_eq!(zs.decoded_bytes().nth(0), Some(b'Z'));
    assert_eq!(zs.decoded_bytes().nth(2), Some(b'l'));
    assert_eq!(zs.decoded_bytes().last(), Some(b'o'));
    let mut dcb = zs.decoded_bytes();
    assert_eq!(dcb.next(), Some(b'Z'));
    let dcb2 = dcb.clone();
    assert_eq!(dcb.count(), 4);
    assert_eq!(dcb2.last(), Some(b'o'));
}

#[test]
fn test_decoded_chars() {
    let zs = ZalgoString::new("Zalgo").unwrap();
    assert_eq!(zs.decoded_chars().nth(0), Some('Z'));
    assert_eq!(zs.decoded_chars().nth(2), Some('l'));
    assert_eq!(zs.decoded_chars().last(), Some('o'));
    let mut dcc = zs.decoded_chars();
    assert_eq!(dcc.next(), Some('Z'));
    let dcc2 = dcc.clone();
    assert_eq!(dcc.count(), 4);
    assert_eq!(dcc2.last(), Some('o'));
}

#[test]
fn test_into_combining_chars() {
    let zs = ZalgoString::new("Hi").unwrap();
    assert_eq!(zs.into_combining_chars(), "\u{328}\u{349}");
    let zs = ZalgoString::new("").unwrap();
    assert_eq!(zs.into_combining_chars(), "");
}

#[test]
fn new_refuses_what_can_not_be_encoded() {
    assert!(ZalgoString::new("❤️").is_err());
    assert!(ZalgoString::new("\r").is_err());
    let err = ZalgoString::new("ab\ncdë").unwrap_err();
    assert_eq!((err.line(), err.column(), err.index(), err.char()), (2, 3, 5, 'ë'));
}

#[test]
fn lengths_follow_the_decoded_text() {
    let s = "Zalgo, He comes!";
    let zs = ZalgoString::new(s).unwrap();
    assert_eq!(zs.len(), 2 * s.len() + 1);
    assert_eq!(zs.decoded_len(), s.len());
    assert!(!zs.decoded_is_empty());
    let zs = ZalgoString::new("").unwrap();
    assert_eq!(zs.len(), 1);
    assert_eq!(zs.decoded_len(), 0);
    assert!(zs.decoded_is_empty());
}

#[test]
fn bytes_are_the_encoded_form() {
    let zs = ZalgoString::new("Zalgo").unwrap();
    assert_eq!(zs.as_bytes()[0], 69);
    assert_eq!(&zs.as_bytes()[1..5], &[204, 186, 205, 129]);
    assert_eq!(zs.as_str(), "É̺͇͌͏");
    assert_eq!(
        zs.clone().into_bytes(),
        vec![69, 204, 186, 205, 129, 205, 140, 205, 135, 205, 143]
    );
    let zs = ZalgoString::new("Bytes").unwrap();
    let mut bytes = zs.bytes();
    assert_eq!(bytes.next(), Some(69));
    assert_eq!(bytes.nth(5), Some(148));
}

#[test]
fn chars_are_the_anchor_and_the_marks() {
    let zs = ZalgoString::new("42").unwrap();
    let mut chars = zs.chars();
    assert_eq!(chars.next(), Some('E'));
    assert_eq!(chars.next(), Some('\u{314}'));
    assert_eq!(chars.next(), Some('\u{312}'));
    assert_eq!(chars.next(), None);
}

#[test]
fn char_indices_stand_at_the_odd_offsets() {
    let zs = ZalgoString::new("Zalgo").unwrap();
    let mut ci = zs.char_indices();
    assert_eq!(ci.next(), Some((0, 'E')));
    assert_eq!(ci.next(), Some((1, '\u{33a}')));
    assert_eq!(ci.next(), Some((3, '\u{341}')));
    assert_eq!(ci.next_back(), Some((9, '\u{34f}')));
    assert_eq!(zs.len(), 11);
}

#[test]
fn into_decoded_bytes_decodes_in_place() {
    let zs = ZalgoString::new("Zalgo").unwrap();
    assert_eq!(b"Zalgo".to_vec(), zs.into_decoded_bytes());
    let zs = ZalgoString::new("").unwrap();
    assert_eq!(zs.into_decoded_bytes(), Vec::<u8>::new());
}

#[test]
fn decoding_a_zalgo_string_agrees_with_zalgo_decode() {
    let s = "line one\nline two\n";
    let zs = ZalgoString::new(s).unwrap();
    assert_eq!(zalgo_decode(zs.as_str()).unwrap(), s);
    assert_eq!(zs.decoded_chars().collect(), s);
    assert_eq!(zs.decoded_bytes().collect(), s.as_bytes());
    assert_eq!(zs.into_decoded_string(), s);
}

#[test]
fn append_joins_the_decoded_texts() {
    let (s1, s2) = ("Zalgo", ", He comes!");
    let mut zs1 = ZalgoString::new(s1).unwrap();
    let zs2 = ZalgoString::new(s2).unwrap();
    zs1.push_zalgo_str(&zs2);
    assert_eq!(zs1.len(), 2 * (s1.len() + s2.len()) + 1);
    assert_eq!(zs1, ZalgoString::new("Zalgo, He comes!").unwrap());
    assert_eq!(zs1.into_decoded_string(), format!("{s1}{s2}"));
}

#[test]
fn append_of_nothing_changes_nothing() {
    let mut zs = ZalgoString::new("Zalgo").unwrap();
    zs.push_zalgo_str(&ZalgoString::new("").unwrap());
    assert_eq!(zs, "É̺͇͌͏");
    let mut empty = ZalgoString::new("").unwrap();
    empty.push_zalgo_str(&zs);
    assert_eq!(empty, zs);
}

#[test]
fn encode_and_push_str_appends_or_leaves_alone() {
    let mut zs = ZalgoString::new("Zalgo").unwrap();
    assert!(zs.encode_and_push_str(", He comes!").is_ok());
    assert_eq!(zs.clone().into_decoded_string(), "Zalgo, He comes!");
    let err = zs.encode_and_push_str("no\ttabs").unwrap_err();
    assert_eq!((err.index(), err.char()), (2, '\t'));
    assert_eq!(zs.into_decoded_string(), "Zalgo, He comes!");
}

#[test]
fn truncate_keeps_whole_characters() {
    let mut zs = ZalgoString::new("Zalgo").unwrap();
    zs.truncate(11);
    assert_eq!(zs.len(), 11);
    zs.truncate(9);
    assert_eq!(zs.clone().into_decoded_string(), "Zalg");
    zs.truncate(1);
    assert_eq!(zs, "E");
    assert!(zs.decoded_is_empty());
}

#[test]
fn clear_leaves_the_anchor() {
    let mut zs = ZalgoString::new("Zalgo").unwrap();
    zs.clear();
    assert_eq!(zs, "E");
    assert!(zs.decoded_is_empty());
    zs.clear();
    assert_eq!(zs, "E");
}

#[test]
fn get_wants_whole_characters() {
    let zs = ZalgoString::new("Zalgo").unwrap();
    assert_eq!(zs.get(0..0), Some(""));
    assert_eq!(zs.get(0..1), Some("E"));
    assert_eq!(zs.get(1..3), Some("\u{33a}"));
    assert_eq!(zs.get(3..11), Some("\u{341}\u{34c}\u{347}\u{34f}"));
    assert_eq!(zs.get(11..11), Some(""));
    assert!(zs.get(0..4).is_none());
    assert!(zs.get(2..3).is_none());
    assert!(zs.get(3..1).is_none());
    assert!(zs.get(0..13).is_none());
}

#[test]
fn indexing_from_an_offset() {
    let zs = ZalgoString::new("Zalgo").unwrap();
    assert_eq!(&zs[9..], "\u{34f}");
    assert_eq!(&zs[1..=2], "\u{33a}");
    assert_eq!(&zs[11..], "");
}

#[test]
fn comparison_with_text_looks_at_the_encoded_form() {
    let zs = ZalgoString::new("Zalgo").unwrap();
    assert!(zs != "Zalgo");
    assert!(zs == "É̺͇͌͏");
    assert!(*"É̺͇͌͏" == zs);
    assert!("É̺͇͌͏" == zs);
    assert!(zs != String::from("E\u{33a}\u{341}"));
    assert!(zs != ZalgoString::new("Zalgo!").unwrap());
    assert!(zs < ZalgoString::new("Zalgo!").unwrap());
}

#[test]
fn decoded_bytes_from_both_ends() {
    let zs = ZalgoString::new("Zalgo").unwrap();
    let mut decoded_bytes = zs.decoded_bytes();
    assert_eq!(decoded_bytes.size_hint(), (5, Some(5)));
    assert_eq!(decoded_bytes.next(), Some(90));
    assert_eq!(decoded_bytes.next_back(), Some(111));
    assert_eq!(decoded_bytes.len(), 3);
    assert_eq!(decoded_bytes.clone().collect(), vec![97, 108, 103]);
    assert_eq!(decoded_bytes.collect_reversed(), vec![103, 108, 97]);
    assert_eq!(zs.decoded_bytes().nth_back(2), Some(b'l'));
}

#[test]
fn decoded_chars_from_both_ends() {
    let zs = ZalgoString::new("Zlgoa").unwrap();
    let mut decoded_chars = zs.decoded_chars();
    assert_eq!(decoded_chars.next(), Some('Z'));
    assert_eq!(decoded_chars.next_back(), Some('a'));
    assert_eq!(decoded_chars.next(), Some('l'));
    assert_eq!(decoded_chars.next(), Some('g'));
    assert_eq!(decoded_chars.next_back(), Some('o'));
    assert_eq!(decoded_chars.next(), None);
    assert_eq!(decoded_chars.next_back(), None);
    assert_eq!(decoded_chars.next(), None);
    assert_eq!(zs.decoded_chars().nth_back(1), Some('o'));
    assert_eq!(zs.decoded_chars().size_hint(), (5, Some(5)));
}

#[test]
fn forward_is_backward_reversed() {
    for text in ["", "a", "ab", "Zalgo\n He comes!"] {
        let zs = ZalgoString::new(text).unwrap();
        let forward = zs.decoded_bytes().collect();
        let mut backward = zs.decoded_bytes().collect_reversed();
        backward.reverse();
        assert_eq!(forward, backward);
        assert_eq!(forward, text.as_bytes());
    }
}

#[test]
fn nth_beyond_the_end_takes_everything() {
    let zs = ZalgoString::new("Zalgo").unwrap();
    let mut bytes = zs.decoded_bytes();
    assert_eq!(bytes.nth(5), None);
    assert_eq!(bytes.next(), None);
    assert_eq!(bytes.next_back(), None);
    let mut bytes = zs.decoded_bytes();
    assert_eq!(bytes.nth(usize::MAX), None);
    assert_eq!(bytes.len(), 0);
    let mut bytes = zs.decoded_bytes();
    assert_eq!(bytes.nth(1), Some(b'a'));
    assert_eq!(bytes.nth(1), Some(b'g'));
    assert_eq!(bytes.collect(), vec![b'o']);
    assert_eq!(zs.decoded_bytes().count(), 5);
    assert_eq!(ZalgoString::new("").unwrap().decoded_bytes().last(), None);
}

#[test]
fn capacity_is_never_less_than_the_length() {
    for text in ["", "a", "Zalgo", "Zalgo\n He comes!"] {
        let mut zs = ZalgoString::new(text).unwrap();
        assert!(zs.capacity() >= zs.len());
        assert!(zs.capacity() >= 2 * text.len() + 1);
        zs.push_zalgo_str(&ZalgoString::new("and more").unwrap());
        assert!(zs.capacity() >= zs.len());
        zs.clear();
        assert!(zs.capacity() >= zs.len());
    }
}
