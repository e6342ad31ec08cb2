use vstd::prelude::*;
use crate::crawler;
use crate::crawler::{
    chapter_file_path, chapter_writes, lemma_pages_fit, pages_fit_page, novel_page_error, parts_fit_page,
    ChapterFile, SelectorViews,
};
use crate::html::{element_keys, opt_view, selected_elements, selector_accepted, Document, HtmlElement, ScrapeError};
use crate::text::string_views;

verus! {

/// A novel as the earlier crawler kept it: chapters and metadata.
#[derive(Debug, Clone)]
pub struct Novel {
    pub chapters: Vec<Chapter>,
    pub metadata: Metadata,
}

/// What the index page says about a novel.
#[derive(Debug, Clone)]
pub struct Metadata {
    pub title: String,
    pub author: Option<String>,
    pub total_chapters: usize,
    pub status: Option<String>,
}

/// One chapter: its name and its path on the site.
#[derive(Debug, Clone)]
pub struct Chapter {
    pub name: String,
    pub url: String,
}

/// The CSS selectors that locate a site's data in its pages.
#[derive(Debug, Clone)]
pub struct SelectorData {
    pub index_selector: String,
    pub title_selector: String,
    pub status_selector: String,
    pub author_selector: String,
    pub text_selector: String,
}

/// The chapters as (name, path) pairs.
pub open spec fn chapters_view(cs: Seq<Chapter>) -> Seq<(Seq<char>, Seq<char>)> {
    cs.map_values(|c: Chapter| (c.name@, c.url@))
}

/// Metadata as (title, author, total chapters, status).
pub open spec fn metadata_view(m: Metadata) -> (Seq<char>, Option<Seq<char>>, nat, Option<Seq<char>>) {
    (m.title@, opt_view(m.author), m.total_chapters as nat, opt_view(m.status))
}

/// The texts of the selectors, in the order index, title, status, author, text.
pub open spec fn selector_views(d: SelectorData) -> SelectorViews {
    (d.index_selector@, d.title_selector@, d.status_selector@, d.author_selector@, d.text_selector@)
}

fn to_current_selectors(sd: &SelectorData) -> (r: crawler::SelectorData)
    ensures
        crawler::selector_views(r) == selector_views(*sd),
{
    crawler::SelectorData {
        index_selector: sd.index_selector.clone(),
        title_selector: sd.title_selector.clone(),
        status_selector: sd.status_selector.clone(),
        author_selector: sd.author_selector.clone(),
        text_selector: sd.text_selector.clone(),
    }
}

fn from_current_chapters(cs: &Vec<crawler::Chapter>) -> (r: Vec<Chapter>)
    ensures
        chapters_view(r@) == crawler::chapters_view(cs@),
{
    let mut out: Vec<Chapter> = Vec::new();
    for i in 0..cs.len()
        invariant
            chapters_view(out@) == crawler::chapters_view(cs@.take(i as int)),
    {
        out.push(Chapter { name: cs[i].name.clone(), url: cs[i].url.clone() });
        assert(crawler::chapters_view(cs@.take(i + 1)) =~= crawler::chapters_view(
            cs@.take(i as int),
        ).push((cs@[i as int].name@, cs@[i as int].url@)));
        assert(chapters_view(out@) =~= crawler::chapters_view(cs@.take(i + 1)));
    }
    assert(cs@.take(cs.len() as int) =~= cs@);
    out
}

/// Reads a novel from the text of its index page with the given selectors.
pub fn novel_from_page(body: &str, sd: &SelectorData) -> (r: Result<Novel, ScrapeError>)
    ensures
        r is Err <==> novel_page_error(body@, selector_views(*sd)) is Some,
        r matches Err(e) ==> novel_page_error(body@, selector_views(*sd)) == Some(e),
        r matches Ok(n) ==> parts_fit_page(
            chapters_view(n.chapters@),
            metadata_view(n.metadata),
            body@,
            selector_views(*sd),
        ),
{
    match crawler::novel_from_page(body, to_current_selectors(sd)) {
        Ok(n) => {
            let chapters = from_current_chapters(&n.chapters);
            let metadata = Metadata {
                title: n.metadata.title,
                author: n.metadata.author,
                total_chapters: n.metadata.total_chapters,
                status: n.metadata.status,
            };
            Ok(Novel { chapters, metadata })
        },
        Err(e) => Err(e),
    }
}

/// The file and contents that saving a chapter writes, given the chapter's page.
pub fn save_html(chapter: &Chapter, body: &str, meta: &Metadata, sd: &SelectorData) -> (r: Result<
    ChapterFile,
    ScrapeError,
>)
    ensures
        r is Err <==> !selector_accepted(sd.text_selector@),
        r matches Err(e) ==> e == ScrapeError::InvalidSelector,
        r matches Ok(f) ==> f.path@ == "./"@ + meta.title@ + "/"@ + chapter.name@,
        r matches Ok(f) ==> pages_fit_page(string_views(f.pages@), chapter.name@, body@, sd.text_selector@),
{
    let doc = Document::parse(body);
    match doc.select(sd.text_selector.as_str()) {
        Ok(elements) => {
            let pages = chapter_writes(chapter.name.as_str(), &elements);
            proof {
                lemma_pages_fit(string_views(pages@), chapter.name@, elements@, body@, sd.text_selector@);
            }
            let path = chapter_file_path(meta.title.as_str(), chapter.name.as_str());
            Ok(ChapterFile { path, pages })
        },
        Err(e) => Err(e),
    }
}

} // verus!
