use pinpatr::cli::format::Format;
use pinpatr::cli::syllable::Syllable;
use pinpatr::error::SiphonError;

#[test]
fn test_tone_to_diacritics() {
    let mut syllable = Syllable {
        full: String::from("zhe1"),
        initial: Some(String::from("zh")),
        rhyme: String::from("e"),
        tone: Some(1),
    };

    let test_cases = [(0, "zhe"), (1, "zhē"), (2, "zhé"), (3, "zhě"), (4, "zhè")];

    for &(tone, output) in &test_cases {
        let onset = syllable.initial.as_ref().unwrap().clone();
        syllable.tone = Some(tone);
        assert_eq!(onset + &syllable.tone_to_diacritics().unwrap(), output);
    }
}

#[test]
fn test_tone_to_superscript() {
    let syllable = Syllable::default();

    assert_eq!(syllable.tone_to_superscript("0").unwrap(), "⁰");
    assert_eq!(syllable.tone_to_superscript("55").unwrap(), "⁵⁵");
    assert_eq!(syllable.tone_to_superscript("35").unwrap(), "³⁵");
    assert_eq!(syllable.tone_to_superscript("214").unwrap(), "²¹⁴");
    assert_eq!(syllable.tone_to_superscript("51").unwrap(), "⁵¹");
}

#[test]
fn test_convert_to_pinyin() {
    let mut syllable = Syllable {
        full: String::from("diu1"),
        initial: Some(String::from("d")),
        rhyme: String::from("iu"),
        tone: None, // Start with no tone
    };

    let test_cases = [(0, "diu"), (1, "diū"), (2, "diú"), (3, "diǔ"), (4, "diù")];

    for &(tone_value, expected) in &test_cases {
        syllable.tone = Some(tone_value);
        let (word, tone) = syllable
            .convert_to_pinyin(&Format::PinyinDiacritic, "UP")
            .unwrap();
        assert_eq!(word + &tone, expected);
    }
}

fn syllable(full: &str, onset: Option<&str>, rhyme: &str, tone: Option<usize>) -> Syllable {
    Syllable::new()
        .full_syllable(full)
        .onset(onset)
        .rhyme(rhyme.to_string())
        .tone(tone)
}

#[test]
fn builders_fill_the_fields() {
    let built = syllable("chang2", Some("ch"), "ang", Some(2));
    assert_eq!(
        built,
        Syllable {
            full: "chang2".to_string(),
            initial: Some("ch".to_string()),
            rhyme: "ang".to_string(),
            tone: Some(2),
        }
    );
    assert_eq!(
        Syllable::new(),
        Syllable { full: String::new(), initial: None, rhyme: String::new(), tone: None }
    );
    assert_eq!(Syllable::default(), Syllable::new());
}

#[test]
fn superscript_keeps_what_is_no_digit() {
    let s = Syllable::new();
    assert_eq!(s.tone_to_superscript("").unwrap(), "");
    assert_eq!(s.tone_to_superscript("012345").unwrap(), "⁰¹²³⁴⁵");
    assert_eq!(s.tone_to_superscript("a1-b").unwrap(), "a¹-b");
    assert_eq!(s.tone_to_superscript("é３").unwrap(), "é３");
}

#[test]
fn neutral_tone_leaves_the_final() {
    for tone in [None, Some(0), Some(5)] {
        for rhyme in ["a", "iao", "iu", "üe", "v", "r", "ng"] {
            let s = syllable("x", Some("l"), rhyme, tone);
            assert_eq!(s.tone_to_diacritics().unwrap(), rhyme);
            let (word, tone_text) = s.convert_to_pinyin(&Format::PinyinDiacritic, "UP").unwrap();
            assert_eq!(word, format!("l{}", rhyme));
            assert_eq!(tone_text, "");
        }
    }
    assert_eq!(syllable("ma0", Some("m"), "a", Some(0)).contour().unwrap(), "0");
    assert_eq!(syllable("ma5", Some("m"), "a", Some(5)).contour().unwrap(), "0");
}

#[test]
fn contour_of_each_tone() {
    let expected = ["0", "55", "35", "214", "51", "0"];
    for (tone, digits) in expected.iter().enumerate() {
        assert_eq!(syllable("ma", Some("m"), "a", Some(tone)).contour().unwrap(), *digits);
    }
    assert_eq!(syllable("ma", Some("m"), "a", None).contour().unwrap(), "");
    match syllable("ma6", Some("m"), "a", Some(6)).contour() {
        Err(SiphonError::TonConversionFail(full)) => assert_eq!(full, "ma6"),
        other => panic!("unexpected {:?}", other),
    }
}

#[test]
fn tone_mark_goes_to_the_right_vowel() {
    let cases = [
        ("iao", 3, "iǎo"),
        ("ai", 4, "ài"),
        ("ei", 2, "éi"),
        ("ou", 1, "ōu"),
        ("uo", 3, "uǒ"),
        ("ui", 4, "uì"),
        ("iu", 2, "iú"),
        ("iur", 2, "iúr"),
        ("ie", 1, "iē"),
        ("ian", 4, "iàn"),
        ("uang", 3, "uǎng"),
        ("in", 1, "īn"),
        ("u", 2, "ú"),
        ("ü", 1, "ǖ"),
        ("ü", 2, "ǘ"),
        ("ü", 3, "ǚ"),
        ("ü", 4, "ǜ"),
        ("üe", 4, "üè"),
        ("v", 3, "u\u{308}\u{30c}"),
        ("ve", 4, "vè"),
        ("vn", 1, "u\u{308}\u{304}n"),
        ("aa", 1, "āa"),
        ("r", 4, "r"),
        ("z", 1, "z"),
        ("", 1, ""),
    ];
    for (rhyme, tone, expected) in cases {
        let s = syllable("x", None, rhyme, Some(tone));
        assert_eq!(s.tone_to_diacritics().unwrap(), expected, "{} {}", rhyme, tone);
    }
}

#[test]
fn tone_above_five_is_refused_everywhere() {
    let s = syllable("ma7", Some("m"), "a", Some(7));
    match s.tone_to_diacritics() {
        Err(SiphonError::TonConversionFail(full)) => assert_eq!(full, "ma7"),
        other => panic!("unexpected {:?}", other),
    }
    for format in [Format::PinyinDiacritic, Format::PinyinSuperscript, Format::PinyinLaTeX] {
        match s.convert_to_pinyin(&format, "UP") {
            Err(SiphonError::TonConversionFail(full)) => assert_eq!(full, "ma7"),
            other => panic!("unexpected {:?}", other),
        }
    }
    for format in [Format::IPALaTeX, Format::IPASuperscript] {
        match s.convert_to_ipa(&format, "UP") {
            Err(SiphonError::TonConversionFail(full)) => assert_eq!(full, "ma7"),
            other => panic!("unexpected {:?}", other),
        }
    }
}

#[test]
fn pinyin_with_numbers() {
    let s = syllable("lve4", Some("l"), "ve", Some(4));
    assert_eq!(
        s.convert_to_pinyin(&Format::PinyinLaTeX, "UP").unwrap(),
        ("l\u{fc}e".to_string(), "\\UP{51}".to_string())
    );
    assert_eq!(
        s.convert_to_pinyin(&Format::PinyinLaTeX, "textsuperscript").unwrap(),
        ("l\u{fc}e".to_string(), "\\textsuperscript{51}".to_string())
    );
    assert_eq!(
        s.convert_to_pinyin(&Format::PinyinSuperscript, "UP").unwrap(),
        ("l\u{fc}e".to_string(), "⁵¹".to_string())
    );
    let toneless = syllable("de", Some("d"), "e", None);
    assert_eq!(
        toneless.convert_to_pinyin(&Format::PinyinLaTeX, "UP").unwrap(),
        ("de".to_string(), String::new())
    );
    assert_eq!(
        toneless.convert_to_pinyin(&Format::PinyinSuperscript, "UP").unwrap(),
        ("de".to_string(), String::new())
    );
    let neutral = syllable("de0", Some("d"), "e", Some(0));
    assert_eq!(
        neutral.convert_to_pinyin(&Format::PinyinLaTeX, "").unwrap(),
        ("de".to_string(), "\\{0}".to_string())
    );
    let bare = syllable("an1", None, "an", Some(1));
    assert_eq!(
        bare.convert_to_pinyin(&Format::PinyinSuperscript, "UP").unwrap(),
        ("an".to_string(), "⁵⁵".to_string())
    );
}

#[test]
fn pinyin_under_an_ipa_format_is_empty() {
    let s = syllable("ma9", Some("m"), "a", Some(9));
    for format in [Format::IPALaTeX, Format::IPASuperscript] {
        assert_eq!(s.convert_to_pinyin(&format, "UP").unwrap(), (String::new(), String::new()));
    }
}

#[test]
fn ipa_of_a_syllable() {
    let s = syllable("zhe4", Some("zh"), "e", Some(4));
    assert_eq!(
        s.convert_to_ipa(&Format::IPASuperscript, "UP").unwrap(),
        ("tʂɤ".to_string(), "⁵¹".to_string())
    );
    assert_eq!(
        s.convert_to_ipa(&Format::IPALaTeX, "UP").unwrap(),
        ("tʂɤ".to_string(), "\\UP{51}".to_string())
    );
    assert_eq!(
        s.convert_to_ipa(&Format::PinyinDiacritic, "UP").unwrap(),
        ("tʂɤ".to_string(), String::new())
    );
    let toneless = syllable("an", None, "an", None);
    assert_eq!(
        toneless.convert_to_ipa(&Format::IPASuperscript, "UP").unwrap(),
        ("an".to_string(), String::new())
    );
    assert_eq!(
        toneless.convert_to_ipa(&Format::IPALaTeX, "UP").unwrap(),
        ("an".to_string(), String::new())
    );
    let nasal = syllable("guangr3", Some("g"), "uangr", Some(3));
    assert_eq!(
        nasal.convert_to_ipa(&Format::IPASuperscript, "UP").unwrap(),
        ("kwɑ\u{303}ʵ".to_string(), "²¹⁴".to_string())
    );
}

#[test]
fn ipa_puts_the_initial_in_lower_case() {
    let s = syllable("Zhe4", Some("Zh"), "e", Some(4));
    assert_eq!(
        s.convert_to_ipa(&Format::IPASuperscript, "UP").unwrap(),
        ("tʂɤ".to_string(), "⁵¹".to_string())
    );
    let capital = syllable("MA1", Some("M"), "a", Some(1));
    assert_eq!(
        capital.convert_to_ipa(&Format::IPASuperscript, "UP").unwrap(),
        ("mɑ".to_string(), "⁵⁵".to_string())
    );
    // Given an initial that is already lowered, nothing else is looked at.
    assert_eq!(
        capital
            .ipa_with_onset(Some("m".to_string()), &Format::IPASuperscript, "UP")
            .unwrap(),
        ("mɑ".to_string(), "⁵⁵".to_string())
    );
    match capital.ipa_with_onset(Some("M".to_string()), &Format::IPASuperscript, "UP") {
        Err(SiphonError::InvalidInitial(full)) => assert_eq!(full, "MA1"),
        other => panic!("unexpected {:?}", other),
    }
}

#[test]
fn ipa_errors_come_in_order() {
    let all_wrong = syllable("wrong", Some("y"), "xx", Some(8));
    match all_wrong.convert_to_ipa(&Format::IPASuperscript, "UP") {
        Err(SiphonError::InvalidInitial(full)) => assert_eq!(full, "wrong"),
        other => panic!("unexpected {:?}", other),
    }
    let rhyme_wrong = syllable("bxx8", Some("b"), "xx", Some(8));
    match rhyme_wrong.convert_to_ipa(&Format::IPASuperscript, "UP") {
        Err(SiphonError::InvalidRhyme(full)) => assert_eq!(full, "bxx8"),
        other => panic!("unexpected {:?}", other),
    }
    let tone_wrong = syllable("ba8", Some("b"), "a", Some(8));
    match tone_wrong.convert_to_ipa(&Format::IPALaTeX, "UP") {
        Err(SiphonError::TonConversionFail(full)) => assert_eq!(full, "ba8"),
        other => panic!("unexpected {:?}", other),
    }
}

#[test]
fn ipa_tone_is_never_empty_for_a_written_tone() {
    for onset in [None, Some("b"), Some("zh"), Some("x")] {
        for rhyme in ["a", "iang", "ü", "r", "uengr"] {
            for tone in 1..=5usize {
                let s = syllable("s", onset, rhyme, Some(tone));
                let (_, tone_text) = s.convert_to_ipa(&Format::IPASuperscript, "UP").unwrap();
                assert!(!tone_text.is_empty());
            }
        }
    }
}
