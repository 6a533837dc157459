use digital_rain::charset_gen::{ascii_chars, cjk_chars, hiragana_chars};
use digital_rain::choices::CharsetChoices;
use digital_rain::text::{ends_with, starts_with};

#[test]
fn ascii_table_is_the_alphanumerics_in_order() {
    let expected: Vec<char> =
        "0123456789ABCDEFGHIJKLMNOPQRSTUVWXYZabcdefghijklmnopqrstuvwxyz".chars().collect();
    assert_eq!(ascii_chars(), expected);
    assert_eq!(ascii_chars().len(), 62);
}

#[test]
fn ascii_table_matches_the_std_predicate() {
    let table = ascii_chars();
    for code in 0u8..=255u8 {
        let c = code as char;
        assert_eq!(table.contains(&c), c.is_ascii_alphanumeric());
    }
}

#[test]
fn hiragana_table_skips_the_unassigned_code_points() {
    let table = hiragana_chars();
    assert_eq!(table.len(), 93);
    assert_eq!(table[0], '\u{3041}');
    assert_eq!(table[85], '\u{3096}');
    assert_eq!(table[86], '\u{3099}');
    assert_eq!(table[92], '\u{309F}');
    assert!(!table.contains(&'\u{3040}'));
    assert!(!table.contains(&'\u{3097}'));
    assert!(!table.contains(&'\u{3098}'));
    let mut expected: Vec<char> = Vec::new();
    for code in 0x3040u32..=0x309F {
        if code == 0x3040 || code == 0x3097 || code == 0x3098 {
            continue;
        }
        expected.push(char::from_u32(code).unwrap());
    }
    assert_eq!(table, expected);
}

#[test]
fn cjk_table_is_the_unified_ideographs_block() {
    let table = cjk_chars();
    assert_eq!(table.len(), 0x5200);
    assert_eq!(table[0], '\u{4E00}');
    assert_eq!(table[1], '\u{4E01}');
    assert_eq!(table[0x51FF], '\u{9FFF}');
    for (i, c) in table.iter().enumerate() {
        assert_eq!(*c as u32, 0x4E00 + i as u32);
    }
}

#[test]
fn default_choices_enable_nothing() {
    let choices = CharsetChoices::default();
    assert_eq!(choices, CharsetChoices { ascii: false, hiragana: false, cjk: false });
    assert!(choices.to_char_vecs().is_empty());
}

#[test]
fn a_name_switches_its_table_on() {
    let mut choices = CharsetChoices::default();
    choices.read_from_arg("ascii");
    assert_eq!(choices, CharsetChoices { ascii: true, hiragana: false, cjk: false });
    choices.read_from_arg("hiragana");
    assert_eq!(choices, CharsetChoices { ascii: true, hiragana: true, cjk: false });
    choices.read_from_arg("cjk");
    assert_eq!(choices, CharsetChoices { ascii: true, hiragana: true, cjk: true });
}

#[test]
fn a_leading_dash_switches_its_table_off() {
    let mut choices = CharsetChoices { ascii: true, hiragana: true, cjk: true };
    choices.read_from_arg("-ascii");
    assert_eq!(choices, CharsetChoices { ascii: false, hiragana: true, cjk: true });
    choices.read_from_arg("-hiragana");
    assert_eq!(choices, CharsetChoices { ascii: false, hiragana: false, cjk: true });
    choices.read_from_arg("-cjk");
    assert_eq!(choices, CharsetChoices { ascii: false, hiragana: false, cjk: false });
}

#[test]
fn an_unknown_name_changes_nothing() {
    let mut choices = CharsetChoices { ascii: true, hiragana: false, cjk: true };
    choices.read_from_arg("latin");
    assert_eq!(choices, CharsetChoices { ascii: true, hiragana: false, cjk: true });
    choices.read_from_arg("");
    assert_eq!(choices, CharsetChoices { ascii: true, hiragana: false, cjk: true });
    choices.read_from_arg("-");
    assert_eq!(choices, CharsetChoices { ascii: true, hiragana: false, cjk: true });
    choices.read_from_arg("asci");
    assert_eq!(choices, CharsetChoices { ascii: true, hiragana: false, cjk: true });
}

#[test]
fn only_the_end_of_the_name_counts() {
    let mut choices = CharsetChoices::default();
    choices.read_from_arg("my-cjk");
    assert_eq!(choices, CharsetChoices { ascii: false, hiragana: false, cjk: true });
    choices.read_from_arg("-xascii");
    choices.read_from_arg("\u{4E16}hiragana");
    assert_eq!(choices, CharsetChoices { ascii: false, hiragana: true, cjk: true });
}

#[test]
fn tables_come_in_a_fixed_order() {
    let all = CharsetChoices { ascii: true, hiragana: true, cjk: true }.to_char_vecs();
    assert_eq!(all, vec![ascii_chars(), hiragana_chars(), cjk_chars()]);
    let two = CharsetChoices { ascii: false, hiragana: true, cjk: true }.to_char_vecs();
    assert_eq!(two, vec![hiragana_chars(), cjk_chars()]);
    let one = CharsetChoices { ascii: true, hiragana: false, cjk: false }.to_char_vecs();
    assert_eq!(one, vec![ascii_chars()]);
}

#[test]
fn prefix_and_suffix_tests_agree_with_std() {
    let texts = ["", "-", "a", "ascii", "-ascii", "cjk", "xcjk", "cj", "\u{4E16}\u{754C}", "-\u{4E16}"];
    let patterns = ["", "-", "ascii", "cjk", "k", "\u{754C}", "\u{4E16}"];
    for text in texts.iter() {
        for pattern in patterns.iter() {
            assert_eq!(starts_with(text, pattern), text.starts_with(pattern));
            assert_eq!(ends_with(text, pattern), text.ends_with(pattern));
        }
    }
}
