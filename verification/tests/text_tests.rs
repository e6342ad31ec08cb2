use lndown::text::{chars_of, concat_strings, replace_all, split_pieces};

#[test]
fn replace_all_removes_every_occurrence() {
    assert_eq!(replace_all("aXbXc", "X", ""), "abc");
}

#[test]
fn replace_all_scans_from_the_left_without_overlap() {
    assert_eq!(replace_all("aaa", "aa", "b"), "ba");
    assert_eq!(replace_all("aaaa", "aa", "b"), "bb");
}

#[test]
fn replace_all_without_match_keeps_text() {
    assert_eq!(replace_all("hello world", "xyz", "Q"), "hello world");
    assert_eq!(replace_all("", "xyz", "Q"), "");
}

#[test]
fn replace_all_handles_non_ascii() {
    assert_eq!(replace_all("黑风，雷，", "，", "-"), "黑风-雷-");
}

#[test]
fn replace_all_agrees_with_std() {
    let cases = [("abcabcab", "ab", "X"), ("mississippi", "ss", ""), ("xxxxx", "xx", "yy")];
    for (s, p, t) in cases.iter() {
        assert_eq!(replace_all(s, p, t), s.replace(p, t));
    }
}

#[test]
fn concat_strings_joins_in_order() {
    let parts = vec!["Chapter ".to_string(), "1".to_string(), ": Start".to_string()];
    assert_eq!(concat_strings(&parts), "Chapter 1: Start");
    assert_eq!(concat_strings(&vec![]), "");
}

#[test]
fn split_pieces_of_a_url() {
    assert_eq!(
        split_pieces("https://www.wuxiaworld.co/Novel/", '/'),
        vec!["https:", "", "www.wuxiaworld.co", "Novel", ""]
    );
}

#[test]
fn split_pieces_edge_cases() {
    assert_eq!(split_pieces("", '/'), vec![""]);
    assert_eq!(split_pieces("abc", '/'), vec!["abc"]);
    assert_eq!(split_pieces("/", '/'), vec!["", ""]);
}

#[test]
fn split_then_join_gives_back_the_text() {
    for s in ["a/b//c", "", "/x/", "no-slash"].iter() {
        assert_eq!(split_pieces(s, '/').join("/"), *s);
    }
}

#[test]
fn chars_of_keeps_order() {
    assert_eq!(chars_of("aé黑"), vec!['a', 'é', '黑']);
}
