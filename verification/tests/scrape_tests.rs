use lndown::html::ScrapeError;
use lndown::scrape::{chapters_from_page, info_html, info_line, info_path, save_html, Chapter};
use lndown::scraper::{novel_from_page, Chapter as EarlierChapter, Metadata, SelectorData};

const INDEX_PAGE: &str = r#"<div class="book-name">Tale</div><div class="author">Me</div><div class="book-state">Done</div>
<ul class="chapter-list"><a class="chapter-item" href="/t/1">One</a><a class="chapter-item" href="/t/2">Two</a></ul>"#;

fn selectors() -> SelectorData {
    SelectorData {
        index_selector: "ul.chapter-list > a.chapter-item".to_string(),
        title_selector: "div.book-name".to_string(),
        status_selector: "div.book-state".to_string(),
        author_selector: "div.author".to_string(),
        text_selector: "div.chapter-entity".to_string(),
    }
}

#[test]
fn first_crawler_chapters_carry_novel_name() {
    let (title, chapters) = chapters_from_page(INDEX_PAGE).unwrap();
    assert_eq!(title, "Tale");
    assert_eq!(chapters.len(), 2);
    assert_eq!(chapters[1].novel_name, "Tale");
    assert_eq!(chapters[1].name, "Two");
    assert_eq!(chapters[1].url, "/t/2");
}

#[test]
fn first_crawler_errors() {
    assert_eq!(chapters_from_page("<p>x</p>").unwrap_err(), ScrapeError::MissingTitle);
    let no_href = INDEX_PAGE.replace("href=\"/t/1\"", "");
    assert_eq!(chapters_from_page(&no_href).unwrap_err(), ScrapeError::MissingHref);
}

#[test]
fn info_file() {
    assert_eq!(info_line("One"), "<p>One</p><br/>\n");
    assert_eq!(info_path("Tale"), "./Tale/info.html");
}

#[test]
fn first_crawler_save_html() {
    let ch = Chapter { novel_name: "Tale".to_string(), url: "/t/1".to_string(), name: "One".to_string() };
    let f = save_html(&ch, "<div class=\"chapter-entity\">hi</div>").unwrap();
    assert_eq!(f.path, "./Tale/One");
    assert_eq!(f.pages, vec!["<h1>One</h1><div class=\"chapter-entity\">hi</div>"]);
}

#[test]
fn earlier_crawler_reads_novel() {
    let n = novel_from_page(INDEX_PAGE, &selectors()).unwrap();
    assert_eq!(n.metadata.title, "Tale");
    assert_eq!(n.metadata.author, Some("Me".to_string()));
    assert_eq!(n.metadata.total_chapters, 2);
    assert_eq!(n.chapters[0].name, "One");
    let no_title = INDEX_PAGE.replace("book-name", "q");
    assert_eq!(novel_from_page(&no_title, &selectors()).unwrap_err(), ScrapeError::MissingTitle);
}

#[test]
fn earlier_crawler_save_html() {
    let ch = EarlierChapter { name: "One".to_string(), url: "/t/1".to_string() };
    let meta = Metadata { title: "Tale".to_string(), author: None, total_chapters: 1, status: None };
    let f = lndown::scraper::save_html(&ch, "<div class=\"chapter-entity\">x</div>", &meta, &selectors()).unwrap();
    assert_eq!(f.path, "./Tale/One");
    assert_eq!(f.pages, vec!["<h1>One</h1><div class=\"chapter-entity\">x</div>"]);
}

#[test]
fn info_html_lists_every_chapter() {
    let (_, chapters) = chapters_from_page(INDEX_PAGE).unwrap();
    assert_eq!(info_html(&chapters), "<p>One</p><br/>\n<p>Two</p><br/>\n");
    assert_eq!(info_html(&vec![]), "");
}
