use pinpatr::tables::{
    contour_of, find_tone_vowel, mark_vowel, onset_to_ipa, raised_digit, rhyme_to_ipa,
};
use pinpatr::text::{
    chars_of, contains, find_text, folds_to, is_text, matches_at, parse_unsigned, replace_all,
    replace_first, split_words, to_ascii_lower, white_space,
};

fn chars(s: &str) -> Vec<char> {
    s.chars().collect()
}

#[test]
fn chars_are_taken_one_by_one() {
    assert_eq!(chars_of(""), Vec::<char>::new());
    assert_eq!(chars_of("lüe"), vec!['l', 'ü', 'e']);
    assert_eq!(chars_of("u\u{308}"), vec!['u', '\u{308}']);
}

#[test]
fn texts_are_compared_by_characters() {
    assert!(is_text(&chars(""), ""));
    assert!(is_text(&chars("ang"), "ang"));
    assert!(!is_text(&chars("ang"), "an"));
    assert!(!is_text(&chars("an"), "ang"));
    assert!(!is_text(&chars("ang"), "eng"));
    assert!(!is_text(&chars("\u{fc}"), "u\u{308}"));
    assert!(is_text(&chars("zh"), "zh"));
    assert!(!is_text(&chars("zh"), "z"));
    assert!(!is_text(&chars("z"), "zh"));
    assert!(!is_text(&chars("zh"), "ch"));
}

#[test]
fn occurrences_are_found_from_the_left() {
    assert_eq!(find_text(&chars("iaoa"), &chars("a")), Some(1));
    assert_eq!(find_text(&chars("niu"), &chars("iu")), Some(1));
    assert_eq!(find_text(&chars("niu"), &chars("ui")), None);
    assert_eq!(find_text(&chars("abc"), &chars("c")), Some(2));
    assert_eq!(find_text(&chars("abc"), &chars("abcd")), None);
    assert_eq!(find_text(&chars("abc"), &chars("")), Some(0));
    assert_eq!(find_text(&chars(""), &chars("")), Some(0));
    assert_eq!(find_text(&chars(""), &chars("a")), None);
    assert!(matches_at(&chars("abc"), &chars("bc"), 1));
    assert!(!matches_at(&chars("abc"), &chars("bc"), 2));
    assert!(!matches_at(&chars("abc"), &chars("bc"), 7));
    assert!(matches_at(&chars("abc"), &chars(""), 3));
    assert!(!matches_at(&chars("abc"), &chars(""), 4));
    assert!(contains("l\u{fc}e", "\u{fc}"));
    assert!(!contains("l\u{fc}e", "u"));
    assert!(contains("lu\u{308}e", "u"));
    assert!(contains("abc", ""));
}

#[test]
fn first_occurrence_is_replaced() {
    assert_eq!(replace_first("iaoa", "a", "ǎ"), "iǎoa");
    assert_eq!(replace_first("abc", "x", "y"), "abc");
    assert_eq!(replace_first("abab", "ab", ""), "ab");
    assert_eq!(replace_first("abc", "", "-"), "-abc");
    assert_eq!(replace_first("", "", "-"), "-");
    assert_eq!(replace_first("", "a", "-"), "");
    assert_eq!(replace_first("nüe", "ü", "ǘ"), "nǘe");
    assert_eq!(replace_first("abc", "abc", "x"), "x");
    assert_eq!(replace_first("abc", "c", "xyz"), "abxyz");
}

#[test]
fn all_occurrences_are_replaced() {
    for (s, pat, to) in [
        ("vev", "v", "u\u{308}"),
        ("iii", "ii", "i"),
        ("iiii", "ii", "i"),
        ("aaa", "a", "aa"),
        ("abc", "x", "y"),
        ("", "x", "y"),
        ("abcabc", "bc", ""),
        ("ababa", "aba", "x"),
        ("yuyu", "yu", "ü"),
        ("ab", "abc", "x"),
    ] {
        assert_eq!(replace_all(s, pat, to), s.replace(pat, to), "{} {} {}", s, pat, to);
    }
    assert_eq!(replace_all("iii", "ii", "i"), "ii");
    assert_eq!(replace_all("ababa", "aba", "x"), "xba");
}

#[test]
fn letters_fold_to_lower_case() {
    assert_eq!(to_ascii_lower('A'), 'a');
    assert_eq!(to_ascii_lower('Z'), 'z');
    assert_eq!(to_ascii_lower('q'), 'q');
    assert_eq!(to_ascii_lower('@'), '@');
    assert_eq!(to_ascii_lower('['), '[');
    assert_eq!(to_ascii_lower('Ü'), 'Ü');
    assert!(folds_to(&chars("ZH"), "zh"));
    assert!(folds_to(&chars("zH"), "zh"));
    assert!(folds_to(&chars("zh"), "zh"));
    assert!(!folds_to(&chars("zh"), "z"));
    assert!(!folds_to(&chars("z"), "zh"));
    assert!(!folds_to(&chars("\u{17f}"), "s"));
}

#[test]
fn numbers_are_read_as_std_reads_them() {
    let max = usize::MAX.to_string();
    let over = format!("{}0", max);
    let next = {
        let mut digits: Vec<u8> = max.bytes().collect();
        let last = digits.len() - 1;
        digits[last] += 1;
        String::from_utf8(digits).unwrap()
    };
    for text in [
        "", "0", "5", "9", "12", "007", "+", "+3", "++3", "-3", "3+", " 3", "3 ", "3a", "a", "١",
        "\u{ff13}", "1_0", max.as_str(), over.as_str(), next.as_str(), "99999999999999999999999",
    ] {
        assert_eq!(parse_unsigned(text), text.parse::<usize>().ok(), "{:?}", text);
    }
    assert_eq!(parse_unsigned("214"), Some(214));
    assert_eq!(parse_unsigned(&max), Some(usize::MAX));
    assert_eq!(parse_unsigned(&next), None);
}

#[test]
fn initials_in_ipa() {
    let table = [
        ("b", "p"), ("p", "pʰ"), ("m", "m"), ("f", "f"), ("d", "t"), ("t", "tʰ"), ("n", "n"),
        ("l", "l"), ("g", "k"), ("k", "kʰ"), ("h", "x"), ("j", "tɕ"), ("q", "tɕʰ"), ("x", "ɕ"),
        ("zh", "tʂ"), ("ch", "tʂʰ"), ("sh", "ʂ"), ("r", "ʐ"), ("z", "ts"), ("c", "tsʰ"),
        ("s", "s"),
    ];
    for (onset, ipa) in table {
        assert_eq!(onset_to_ipa(onset), Some(ipa));
    }
    for onset in ["", "y", "w", "B", "Zh", "zhh", "a", "\u{17f}"] {
        assert_eq!(onset_to_ipa(onset), None);
    }
}

#[test]
fn finals_in_ipa() {
    let table = [
        ("a", "ɑ"), ("ai", "aj"), ("ao", "ɑw"), ("an", "an"), ("ang", "ɑŋ"), ("e", "ɤ"),
        ("ei", "ej"), ("en", "ən"), ("eng", "əŋ"), ("o", "wʌ"), ("uo", "wʌ"), ("ou", "ɤw"),
        ("ong", "ʊŋ"), ("i", "i"), ("ia", "jɑ"), ("iao", "jɑw"), ("ie", "jɛ"), ("iu", "jɤw"),
        ("iou", "jɤw"), ("ian", "jɛn"), ("iang", "jɑŋ"), ("in", "in"), ("ing", "iŋ"),
        ("iong", "jʊŋ"), ("u", "u"), ("ua", "wɑ"), ("uai", "waj"), ("uan", "wan"),
        ("uang", "wɑŋ"), ("ui", "wej"), ("uei", "wej"), ("un", "wən"), ("uen", "wən"),
        ("ueng", "wəŋ"), ("\u{fc}", "y"), ("v", "y"), ("\u{fc}e", "ɥœ"), ("ve", "ɥœ"),
        ("\u{fc}an", "ɥɛn"), ("van", "ɥɛn"), ("\u{fc}n", "yn"), ("vn", "yn"), ("\u{fc}en", "yn"),
        ("z", "ɿ"), ("r", "ʅ"), ("ar", "ɐʵ"), ("air", "ɐʵ"), ("aor", "ɑʊʵ"), ("anr", "ɐʵ"),
        ("angr", "ɑ\u{303}ʵ"), ("er", "ɤʵ"), ("eir", "ɚ"), ("enr", "ɚ"), ("engr", "ɤ\u{303}ʵ"),
        ("or", "wɔʵ"), ("uor", "wɔʵ"), ("our", "ɤʊʵ"), ("ongr", "ʊ\u{303}ʵ"), ("ir", "jɚ"),
        ("rr", "ɚ"), ("zr", "ɚ"), ("iar", "jɐʵ"), ("iaor", "jɑʊʵ"), ("ier", "jɛʵ"),
        ("iur", "jɤʊʵ"), ("iour", "jɤʊʵ"), ("ianr", "jɐʵ"), ("iangr", "jɑ\u{303}ʵ"),
        ("inr", "jɚ"), ("ingr", "jɤ\u{303}ʵ"), ("iongr", "jʊ\u{303}ʵ"), ("ur", "uʵ"),
        ("uar", "wɐʵ"), ("uair", "wɐʵ"), ("uanr", "wɐʵ"), ("uangr", "wɑ\u{303}ʵ"),
        ("uir", "wɚ"), ("ueir", "wɚ"), ("unr", "wɚ"), ("uenr", "wɚ"), ("uengr", "wɤ\u{303}ʵ"),
        ("\u{fc}r", "ɥɚ"), ("\u{fc}er", "ɥœʵ"), ("\u{fc}anr", "ɥɐʵ"), ("\u{fc}nr", "ɥɚ"),
        ("\u{fc}enr", "ɥɚ"), ("vr", "ɥɚ"), ("ver", "ɥœʵ"), ("vanr", "ɥɐʵ"), ("vnr", "ɥɚ"),
    ];
    assert_eq!(table.len(), 90);
    for (rhyme, ipa) in table {
        assert_eq!(rhyme_to_ipa(rhyme), Some(ipa), "{}", rhyme);
    }
    for rhyme in ["", "io", "A", "yi", "wu", "u\u{308}", "ven", "ng", "aa"] {
        assert_eq!(rhyme_to_ipa(rhyme), None, "{}", rhyme);
    }
}

#[test]
fn contours() {
    assert_eq!(contour_of(0), Some("0"));
    assert_eq!(contour_of(1), Some("55"));
    assert_eq!(contour_of(2), Some("35"));
    assert_eq!(contour_of(3), Some("214"));
    assert_eq!(contour_of(4), Some("51"));
    assert_eq!(contour_of(5), Some("0"));
    assert_eq!(contour_of(6), None);
    assert_eq!(contour_of(usize::MAX), None);
}

#[test]
fn raised_digits() {
    let raised = ["⁰", "¹", "²", "³", "⁴", "⁵"];
    for (digit, text) in "012345".chars().zip(raised) {
        assert_eq!(raised_digit(digit), Some(text));
    }
    for other in ['6', '9', 'a', ' ', '\u{ff11}'] {
        assert_eq!(raised_digit(other), None);
    }
}

#[test]
fn vowels_under_their_marks() {
    assert_eq!(find_tone_vowel("iu"), Some("u"));
    assert_eq!(find_tone_vowel("iao"), Some("a"));
    assert_eq!(find_tone_vowel("uei"), Some("e"));
    assert_eq!(find_tone_vowel("iong"), Some("o"));
    assert_eq!(find_tone_vowel("ui"), Some("i"));
    assert_eq!(find_tone_vowel("un"), Some("u"));
    assert_eq!(find_tone_vowel("\u{fc}n"), Some("\u{fc}"));
    assert_eq!(find_tone_vowel("vn"), Some("v"));
    assert_eq!(find_tone_vowel("uv"), Some("u"));
    assert_eq!(find_tone_vowel("ng"), None);
    assert_eq!(find_tone_vowel(""), None);
    let marks = [
        ("a", ["ā", "á", "ǎ", "à"]),
        ("e", ["ē", "é", "ě", "è"]),
        ("o", ["ō", "ó", "ǒ", "ò"]),
        ("i", ["ī", "í", "ǐ", "ì"]),
        ("u", ["ū", "ú", "ǔ", "ù"]),
        ("\u{fc}", ["\u{1d6}", "\u{1d8}", "\u{1da}", "\u{1dc}"]),
        ("v", ["u\u{308}\u{304}", "u\u{308}\u{301}", "u\u{308}\u{30c}", "u\u{308}\u{300}"]),
    ];
    for (vowel, marked) in marks {
        for tone in 1..=4usize {
            assert_eq!(mark_vowel(vowel, tone), marked[tone - 1]);
        }
    }
    assert_eq!(mark_vowel("y", 2), "y");
}

#[test]
fn white_space_is_what_std_calls_so() {
    for code in 0..=0x10ffffu32 {
        if let Some(c) = char::from_u32(code) {
            assert_eq!(white_space(c), c.is_whitespace(), "{:x}", code);
        }
    }
}

#[test]
fn words_are_the_runs_between_white_space() {
    for text in [
        "",
        " ",
        "a",
        " a",
        "a ",
        "  ni3 \t hao3\n",
        "a\u{3000}b\u{a0}c\u{2003}\u{2028}d",
        "zhe4 shi4 yi2ge0 ce4shi4, yi ya",
        "x\u{200b}y z",
        "\u{85}\u{1680}",
    ] {
        let expected: Vec<String> = text.split_whitespace().map(|w| w.to_string()).collect();
        assert_eq!(split_words(text), expected, "{:?}", text);
    }
    assert_eq!(split_words("  ni3 \t hao3\n"), vec!["ni3", "hao3"]);
    assert_eq!(split_words(" \n "), Vec::<String>::new());
}
