use pulsedcm::entries::{parse_tag_flags, TagFlags};
use pulsedcm::text::{
    eq_ignore_case, hex4, pad_right, split_keywords, str_eq, to_ascii_lower, trim_blanks,
};

#[test]
fn lowercasing_folds_ascii_only() {
    assert_eq!(to_ascii_lower("AbC1,"), "abc1,");
    assert_eq!(to_ascii_lower(""), "");
    assert_eq!(to_ascii_lower("[Binary]"), "[binary]");
}

#[test]
fn case_insensitive_equality() {
    assert!(eq_ignore_case("Replace", "rEPLACE"));
    assert!(!eq_ignore_case("replace", "replac"));
    assert!(!eq_ignore_case("replace", "replacé"));
}

#[test]
fn exact_equality() {
    assert!(str_eq("abc", "abc"));
    assert!(!str_eq("abc", "Abc"));
    assert!(!str_eq("abc", "abcd"));
}

#[test]
fn trimming_strips_blanks_at_both_ends() {
    assert_eq!(trim_blanks("  x y \n"), "x y");
    assert_eq!(trim_blanks("\t\r\n "), "");
    assert_eq!(trim_blanks("plain"), "plain");
}

#[test]
fn padding_extends_short_text_only() {
    assert_eq!(pad_right("AB", 5), "AB   ");
    assert_eq!(pad_right("ABCDEF", 2), "ABCDEF");
    assert_eq!(pad_right("", 3), "   ");
}

#[test]
fn hexadecimal_rendering_of_tags() {
    assert_eq!(hex4(0x0010), "0010");
    assert_eq!(hex4(0xA73F), "A73F");
    assert_eq!(hex4(0), "0000");
    assert_eq!(hex4(0xFFFF), "FFFF");
}

#[test]
fn keyword_splitting() {
    assert_eq!(split_keywords("a, b ,,c"), vec!["a", "b", "c"]);
    assert_eq!(split_keywords(""), Vec::<String>::new());
    assert_eq!(split_keywords(",,,"), Vec::<String>::new());
    assert_eq!(split_keywords("one"), vec!["one"]);
}

#[test]
fn tag_flags_keywords() {
    assert_eq!(parse_tag_flags("all"), Ok(TagFlags::All));
    assert_eq!(parse_tag_flags("ALL"), Ok(TagFlags::All));
    assert_eq!(parse_tag_flags("Short"), Ok(TagFlags::Short));
}

#[test]
fn tag_flags_specific_list_is_lowered_and_split() {
    let r = parse_tag_flags("PatientName, StudyDate").unwrap();
    assert_eq!(
        r,
        TagFlags::Specific(vec!["patientname".to_string(), "studydate".to_string()])
    );
}
