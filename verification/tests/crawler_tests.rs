use lndown::crawler::{
    chapter_document, chapter_file_path, chapter_request_url, chapter_writes, host_of_url,
    links_have_href, novel_dir_path, novel_from_elements, save_html, source_for_url, Chapter,
    Metadata, SelectorData, Source, AD_TEXT,
};
use lndown::html::{select_in_page, HtmlElement, ScrapeError};
use lndown::wuxiaworldco::{get_data, get_novel, search, search_request_url};

const INDEX_PAGE: &str = r#"<html><body>
<div class="book-name">Martial God</div>
<div class="author">Author: Ku</div>
<div class="book-state">Ongoing</div>
<ul class="chapter-list">
<a class="chapter-item" href="/Martial-God/1.html"><p>Chapter 1</p></a>
<a class="chapter-item" href="/Martial-God/2.html">Chapter <b>2</b></a>
</ul>
</body></html>"#;

fn element(texts: &[&str], href: Option<&str>, html: &str) -> HtmlElement {
    HtmlElement {
        texts: texts.iter().map(|t| t.to_string()).collect(),
        href: href.map(|h| h.to_string()),
        html: html.to_string(),
    }
}

#[test]
fn source_for_known_and_unknown_urls() {
    assert_eq!(source_for_url("https://www.wuxiaworld.co/Martial-God/"), Some(Source::Wuxiaworldco));
    assert_eq!(source_for_url("https://www.example.com/Martial-God/"), None);
    assert_eq!(source_for_url("www.wuxiaworld.co"), None);
    assert_eq!(host_of_url("https://a.b/c"), Some("a.b".to_string()));
    assert_eq!(host_of_url("https:/"), None);
}

#[test]
fn paths_and_urls() {
    let ch = Chapter { name: "Chapter 1".to_string(), url: "/Martial-God/1.html".to_string() };
    assert_eq!(chapter_request_url(&ch), "https://www.wuxiaworld.co/Martial-God/1.html");
    assert_eq!(novel_dir_path("Martial God"), "./Martial God");
    assert_eq!(chapter_file_path("Martial God", "Chapter 1"), "./Martial God/Chapter 1");
}

#[test]
fn chapter_document_drops_the_notice() {
    let markup = format!("<div class=\"chapter-entity\">Text{}more</div>", AD_TEXT);
    assert_eq!(
        chapter_document("Chapter 1", &markup),
        "<h1>Chapter 1</h1><div class=\"chapter-entity\">Textmore</div>"
    );
}

#[test]
fn chapter_writes_one_per_element() {
    let els = vec![element(&["a"], None, "<p>a</p>"), element(&["b"], None, "<p>b</p>")];
    assert_eq!(chapter_writes("N", &els), vec!["<h1>N</h1><p>a</p>", "<h1>N</h1><p>b</p>"]);
    assert!(chapter_writes("N", &vec![]).is_empty());
}

#[test]
fn novel_from_hand_made_elements() {
    let index = vec![element(&["Chapter ", "1"], Some("/n/1"), ""), element(&["Chapter 2"], Some("/n/2"), "")];
    let titles = vec![element(&["Title"], None, ""), element(&["Other"], None, "")];
    let authors = vec![element(&["A"], None, "")];
    let statuses = vec![element(&["Done"], None, "")];
    let n = novel_from_elements(&index, &titles, &authors, &statuses, get_data());
    assert_eq!(n.chapters.len(), 2);
    assert_eq!(n.chapters[0].name, "Chapter 1");
    assert_eq!(n.chapters[1].url, "/n/2");
    assert_eq!(n.metadata.title, "Title");
    assert_eq!(n.metadata.author, Some("A".to_string()));
    assert_eq!(n.metadata.status, Some("Done".to_string()));
    assert_eq!(n.metadata.total_chapters, 2);
}

#[test]
fn links_without_href_are_found() {
    assert!(links_have_href(&vec![element(&[], Some("/x"), "")]));
    assert!(!links_have_href(&vec![element(&[], Some("/x"), ""), element(&[], None, "")]));
    assert!(links_have_href(&vec![]));
}

#[test]
fn get_novel_reads_index_page() {
    let n = get_novel(INDEX_PAGE).unwrap();
    assert_eq!(n.metadata.title, "Martial God");
    assert_eq!(n.metadata.author, Some("Author: Ku".to_string()));
    assert_eq!(n.metadata.status, Some("Ongoing".to_string()));
    assert_eq!(n.metadata.total_chapters, 2);
    assert_eq!(n.chapters[0].name, "Chapter 1");
    assert_eq!(n.chapters[0].url, "/Martial-God/1.html");
    assert_eq!(n.chapters[1].name, "Chapter 2");
    assert_eq!(n.selector.text_selector, "div.chapter-entity");
}

#[test]
fn get_novel_errors() {
    let no_title = INDEX_PAGE.replace("book-name", "other");
    assert_eq!(get_novel(&no_title).unwrap_err(), ScrapeError::MissingTitle);
    let no_author = INDEX_PAGE.replace("\"author\"", "\"x\"");
    assert_eq!(get_novel(&no_author).unwrap_err(), ScrapeError::MissingAuthor);
    let no_status = INDEX_PAGE.replace("book-state", "x");
    assert_eq!(get_novel(&no_status).unwrap_err(), ScrapeError::MissingStatus);
    let no_href = INDEX_PAGE.replace("href=\"/Martial-God/2.html\"", "");
    assert_eq!(get_novel(&no_href).unwrap_err(), ScrapeError::MissingHref);
}

#[test]
fn novel_with_no_chapters() {
    let page = INDEX_PAGE.replace("chapter-item", "x");
    let n = get_novel(&page).unwrap();
    assert_eq!(n.chapters.len(), 0);
    assert_eq!(n.metadata.total_chapters, 0);
}

#[test]
fn invalid_selector_is_reported() {
    assert_eq!(select_in_page("<p>x</p>", "[[").unwrap_err(), ScrapeError::InvalidSelector);
}

#[test]
fn save_html_builds_the_chapter_file() {
    let page = format!(
        "<html><body><div class=\"chapter-entity\">Once{}upon</div></body></html>",
        AD_TEXT
    );
    let ch = Chapter { name: "Chapter 1".to_string(), url: "/n/1".to_string() };
    let meta = Metadata { title: "N".to_string(), author: None, total_chapters: 1, status: None };
    let f = save_html(&ch, &page, &meta, &get_data()).unwrap();
    assert_eq!(f.path, "./N/Chapter 1");
    assert_eq!(f.pages, vec!["<h1>Chapter 1</h1><div class=\"chapter-entity\">Onceupon</div>"]);
    let empty = save_html(&ch, "<p>nothing</p>", &meta, &get_data()).unwrap();
    assert!(empty.pages.is_empty());
}

#[test]
fn save_html_with_bad_selector() {
    let ch = Chapter { name: "c".to_string(), url: "/c".to_string() };
    let meta = Metadata { title: "N".to_string(), author: None, total_chapters: 0, status: None };
    let mut sd: SelectorData = get_data();
    sd.text_selector = "((".to_string();
    assert_eq!(save_html(&ch, "<p/>", &meta, &sd).unwrap_err(), ScrapeError::InvalidSelector);
}

#[test]
fn search_reads_results() {
    let page = r#"<ul class="result-list">
<li><div class="item-info"><a class="book-name" href="/Alpha/">Alpha<span>x</span></a></div></li>
<li><div class="item-info"><a class="book-name" href="/Beta/">Beta</a></div></li>
</ul>"#;
    let r = search(page).unwrap();
    assert_eq!(r.len(), 2);
    assert_eq!(r[0].name, "Alpha");
    assert_eq!(r[0].url, "/Alpha/");
    assert_eq!(r[1].name, "Beta");
    assert!(search("<p>no results</p>").unwrap().is_empty());
}

#[test]
fn search_errors() {
    let no_text = r#"<ul class="result-list"><li><div class="item-info"><a class="book-name" href="/A/"></a></div></li></ul>"#;
    assert_eq!(search(no_text).unwrap_err(), ScrapeError::MissingText);
    let no_href = r#"<ul class="result-list"><li><div class="item-info"><a class="book-name">A</a></div></li></ul>"#;
    assert_eq!(search(no_href).unwrap_err(), ScrapeError::MissingHref);
}

#[test]
fn search_url() {
    assert_eq!(search_request_url("martial"), "https://www.wuxiaworld.co/search/martial/1");
}
