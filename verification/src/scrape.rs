use vstd::prelude::*;
use crate::crawler::{
    all_have_href, chapter_file_path, chapter_writes, lemma_pages_fit, pages_fit_page, chapters_from_links,
    chapters_of_links, first_text, first_text_of, links_have_href, ChapterFile,
};
use crate::html::{element_keys, selected_elements, selector_accepted, Document, HtmlElement, ScrapeError};
use crate::text::{concat, string_views};

verus! {

/// The selector of the chapter links in an index page.
pub const INDEX_SELECTOR: &'static str = "ul.chapter-list > a.chapter-item";

/// The selector of the novel's title in an index page.
pub const TITLE_SELECTOR: &'static str = "div.book-name";

/// The selector of the chapter's text in a chapter page.
pub const TEXT_SELECTOR: &'static str = "div.chapter-entity";

/// One chapter of the first crawler: the novel it belongs to, its path and its name.
#[derive(Debug, Clone)]
pub struct Chapter {
    pub novel_name: String,
    pub url: String,
    pub name: String,
}

/// The chapters as (novel name, name, path) triples.
pub open spec fn chapters_view(cs: Seq<Chapter>) -> Seq<(Seq<char>, Seq<char>, Seq<char>)> {
    cs.map_values(|c: Chapter| (c.novel_name@, c.name@, c.url@))
}

/// Why an index page yields no chapters: a selector rejected, no title (the title is
/// read for the first chapter, and in any case afterwards), or a link without `href`.
pub open spec fn index_page_error(body: Seq<char>) -> Option<ScrapeError> {
    if !(selector_accepted(INDEX_SELECTOR@) && selector_accepted(TITLE_SELECTOR@)) {
        Some(ScrapeError::InvalidSelector)
    } else if selected_elements(body, TITLE_SELECTOR@).len() == 0 {
        Some(ScrapeError::MissingTitle)
    } else if !all_have_href(selected_elements(body, INDEX_SELECTOR@)) {
        Some(ScrapeError::MissingHref)
    } else {
        None
    }
}

/// The chapters of an index page, each carrying the novel's title.
pub open spec fn index_chapters(body: Seq<char>) -> Seq<(Seq<char>, Seq<char>, Seq<char>)> {
    let title = first_text_of(selected_elements(body, TITLE_SELECTOR@));
    chapters_of_links(selected_elements(body, INDEX_SELECTOR@)).map_values(
        |c: (Seq<char>, Seq<char>)| (title, c.0, c.1),
    )
}

/// Reads the novel's title and its chapters from the text of its index page.
pub fn chapters_from_page(body: &str) -> (r: Result<(String, Vec<Chapter>), ScrapeError>)
    ensures
        r is Err <==> index_page_error(body@) is Some,
        r matches Err(e) ==> index_page_error(body@) == Some(e),
        r matches Ok((title, chapters)) ==> title@ == first_text_of(
            selected_elements(body@, TITLE_SELECTOR@),
        ) && chapters_view(chapters@) == index_chapters(body@),
{
    let doc = Document::parse(body);
    let links = match doc.select(INDEX_SELECTOR) {
        Ok(v) => v,
        Err(e) => {
            return Err(e);
        },
    };
    let titles = match doc.select(TITLE_SELECTOR) {
        Ok(v) => v,
        Err(e) => {
            return Err(e);
        },
    };
    if titles.len() == 0 {
        return Err(ScrapeError::MissingTitle);
    }
    if !links_have_href(&links) {
        return Err(ScrapeError::MissingHref);
    }
    let title = first_text(&titles);
    let current = chapters_from_links(&links);
    let mut chapters: Vec<Chapter> = Vec::new();
    let ghost linked = chapters_of_links(element_keys(links@));
    for i in 0..current.len()
        invariant
            linked == crate::crawler::chapters_view(current@),
            chapters_view(chapters@) == linked.take(i as int).map_values(
                |c: (Seq<char>, Seq<char>)| (title@, c.0, c.1),
            ),
    {
        chapters.push(
            Chapter {
                novel_name: title.clone(),
                url: current[i].url.clone(),
                name: current[i].name.clone(),
            },
        );
        assert(linked.take(i + 1).map_values(|c: (Seq<char>, Seq<char>)| (title@, c.0, c.1))
            =~= linked.take(i as int).map_values(|c: (Seq<char>, Seq<char>)| (title@, c.0, c.1)).push(
            (title@, linked[i as int].0, linked[i as int].1),
        ));
        assert(chapters_view(chapters@) =~= linked.take(i + 1).map_values(
            |c: (Seq<char>, Seq<char>)| (title@, c.0, c.1),
        ));
    }
    assert(linked.take(current.len() as int) =~= linked);
    Ok((title, chapters))
}

/// The line that lists a chapter in the novel's `info.html`.
pub open spec fn info_line_of(name: Seq<char>) -> Seq<char> {
    "<p>"@ + name + "</p><br/>\n"@
}

/// The whole `info.html` of a novel: one line per chapter, in order (the file is
/// removed first, then each line is appended).
pub open spec fn info_text(chapters: Seq<Chapter>) -> Seq<char> {
    concat(chapters.map_values(|c: Chapter| info_line_of(c.name@)))
}

/// The line that lists a chapter in the novel's `info.html`.
pub fn info_line(name: &str) -> (r: String)
    ensures
        r@ == info_line_of(name@),
{
    let mut r = "<p>".to_string();
    r.append(name);
    r.append("</p><br/>\n");
    r
}

/// The whole `info.html` that lists a novel's chapters.
pub fn info_html(chapters: &Vec<Chapter>) -> (r: String)
    ensures
        r@ == info_text(chapters@),
{
    let mut out = String::new();
    let ghost lines = chapters@.map_values(|c: Chapter| info_line_of(c.name@));
    for i in 0..chapters.len()
        invariant
            lines == chapters@.map_values(|c: Chapter| info_line_of(c.name@)),
            out@ == concat(lines.take(i as int)),
    {
        let line = info_line(chapters[i].name.as_str());
        out.append(line.as_str());
        assert(lines.take(i + 1).drop_last() =~= lines.take(i as int));
    }
    assert(lines.take(chapters.len() as int) =~= lines);
    out
}

/// The file that lists a novel's chapters.
pub fn info_path(novel_name: &str) -> (r: String)
    ensures
        r@ == "./"@ + novel_name@ + "/info.html"@,
{
    let mut r = "./".to_string();
    r.append(novel_name);
    r.append("/info.html");
    r
}

/// The file and contents that saving a chapter writes, given the chapter's page.
pub fn save_html(chapter: &Chapter, body: &str) -> (r: Result<ChapterFile, ScrapeError>)
    ensures
        r is Err <==> !selector_accepted(TEXT_SELECTOR@),
        r matches Err(e) ==> e == ScrapeError::InvalidSelector,
        r matches Ok(f) ==> f.path@ == "./"@ + chapter.novel_name@ + "/"@ + chapter.name@,
        r matches Ok(f) ==> pages_fit_page(string_views(f.pages@), chapter.name@, body@, TEXT_SELECTOR@),
{
    let doc = Document::parse(body);
    match doc.select(TEXT_SELECTOR) {
        Ok(elements) => {
            let pages = chapter_writes(chapter.name.as_str(), &elements);
            proof {
                lemma_pages_fit(string_views(pages@), chapter.name@, elements@, body@, TEXT_SELECTOR@);
            }
            let path = chapter_file_path(chapter.novel_name.as_str(), chapter.name.as_str());
            Ok(ChapterFile { path, pages })
        },
        Err(e) => Err(e),
    }
}

} // verus!
