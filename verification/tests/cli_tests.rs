use lndown::cli::{novel_url, parse_usize, thread_count, usage_notice, BOTH_GIVEN, NONE_GIVEN};
use lndown::crawler::{source_for_url, Source};

#[test]
fn parse_usize_accepts_plain_and_signed_numbers() {
    assert_eq!(parse_usize("5"), Some(5));
    assert_eq!(parse_usize("+7"), Some(7));
    assert_eq!(parse_usize("007"), Some(7));
    assert_eq!(parse_usize("0"), Some(0));
}

#[test]
fn parse_usize_rejects_what_std_rejects() {
    for s in ["", "+", "-1", "12a", " 3", "3 ", "++1", "-"].iter() {
        assert_eq!(parse_usize(s), None, "{:?}", s);
        assert!(s.parse::<usize>().is_err());
    }
}

#[test]
fn parse_usize_overflow() {
    let max = usize::MAX.to_string();
    assert_eq!(parse_usize(&max), Some(usize::MAX));
    let over = format!("{}0", max);
    assert_eq!(parse_usize(&over), None);
}

#[test]
fn parse_usize_agrees_with_std() {
    for s in ["42", "+0", "100000", "9x", "", "+"].iter() {
        assert_eq!(parse_usize(s), s.parse::<usize>().ok());
    }
}

#[test]
fn thread_count_defaults_to_five() {
    assert_eq!(thread_count(None), Some(5));
    assert_eq!(thread_count(Some("3")), Some(3));
    assert_eq!(thread_count(Some("three")), None);
}

#[test]
fn usage_notice_cases() {
    assert_eq!(usage_notice(true, true), Some(BOTH_GIVEN));
    assert_eq!(usage_notice(false, false), Some(NONE_GIVEN));
    assert_eq!(usage_notice(true, false), None);
    assert_eq!(usage_notice(false, true), None);
}

#[test]
fn novel_url_prefixes_site() {
    assert_eq!(novel_url("/Martial-God/"), "https://www.wuxiaworld.co/Martial-God/");
}

#[test]
fn found_novel_url_has_a_source() {
    assert_eq!(source_for_url(&novel_url("/Some-Novel/")), Some(Source::Wuxiaworldco));
    assert_eq!(source_for_url(&novel_url("")), Some(Source::Wuxiaworldco));
}
