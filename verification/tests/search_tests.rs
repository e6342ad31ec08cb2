use lndown::search::{result_names, selected_url, SearchResult};

fn results() -> Vec<SearchResult> {
    vec![
        SearchResult { name: "Alpha".to_string(), url: "/Alpha/".to_string() },
        SearchResult { name: "Beta".to_string(), url: "/Beta/".to_string() },
    ]
}

#[test]
fn names_follow_results() {
    assert_eq!(result_names(&results()), vec!["Alpha".to_string(), "Beta".to_string()]);
    assert_eq!(result_names(&vec![]), Vec::<String>::new());
}

#[test]
fn selection_gives_url_of_named_result() {
    let r = results();
    let names = result_names(&r);
    for i in 0..r.len() {
        assert_eq!(names[i], r[i].name);
        assert_eq!(selected_url(&r, i), r[i].url);
    }
    assert_eq!(selected_url(&r, 1), "/Beta/");
}
