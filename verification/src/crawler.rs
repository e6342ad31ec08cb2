use vstd::prelude::*;
use crate::html::{
    element_keys, markups_fit, opt_view, selected_elements, selector_accepted, serializes_match,
    Document, HtmlElement, ScrapeError,
};
use crate::text::{
    concat, concat_strings, contains_seq, lemma_concat_front, lemma_replace_without_match,
    lemma_split_concat, lemma_split_without_sep, occurs_at, replace_all, replaced, split_on,
    split_pieces, string_views,
};
use crate::wuxiaworldco::BASE_URL;

verus! {

/// The site the novels are downloaded from.
pub const URL: &'static str = "https://www.wuxiaworld.co";

/// The notice that the site puts into chapter pages; saved chapters leave it out.
pub const AD_TEXT: &'static str = "Find authorized novels in Webnovel，faster updates, better experience，Please click www.webnovel.com  for visiting.";

/// A novel as read from its index page.
#[derive(Debug, Clone)]
pub struct Novel {
    pub chapters: Vec<Chapter>,
    pub metadata: Metadata,
    pub selector: SelectorData,
}

/// What the index page says about a novel.
#[derive(Debug, Clone)]
pub struct Metadata {
    pub title: String,
    pub author: Option<String>,
    pub total_chapters: usize,
    pub status: Option<String>,
}

/// One chapter: its name and its path on the site.
#[derive(Debug, Clone)]
pub struct Chapter {
    pub name: String,
    pub url: String,
}

/// The CSS selectors that locate a site's data in its pages.
#[derive(Debug, Clone)]
pub struct SelectorData {
    /// chapter links in the index page
    pub index_selector: String,
    pub title_selector: String,
    pub status_selector: String,
    pub author_selector: String,
    /// the chapter's text, without its title
    pub text_selector: String,
}

/// The sites the crawler knows.
#[derive(Debug, Clone, Copy, PartialEq, Eq, Structural)]
pub enum Source {
    Wuxiaworldco,
}

/// The piece of a url that names its host: the third piece between slashes.
pub open spec fn url_host(url: Seq<char>) -> Option<Seq<char>> {
    let pieces = split_on(url, '/');
    if pieces.len() > 2 {
        Some(pieces[2])
    } else {
        None
    }
}

/// The site a novel url belongs to, if the crawler knows it.
pub open spec fn spec_source_for_url(url: Seq<char>) -> Option<Source> {
    if url_host(url) == Some(BASE_URL@) {
        Some(Source::Wuxiaworldco)
    } else {
        None
    }
}

/// The host piece of a url (`None` when the url has fewer than three pieces).
pub fn host_of_url(url: &str) -> (r: Option<String>)
    ensures
        opt_view(r) == url_host(url@),
{
    let pieces = split_pieces(url, '/');
    if pieces.len() > 2 {
        proof {
            assert(string_views(pieces@)[2] == pieces@[2]@);
        }
        Some(pieces[2].clone())
    } else {
        None
    }
}

/// Picks the site module for a novel url.
pub fn source_for_url(url: &str) -> (r: Option<Source>)
    ensures
        r == spec_source_for_url(url@),
{
    match host_of_url(url) {
        Some(host) => {
            if host == BASE_URL.to_string() {
                Some(Source::Wuxiaworldco)
            } else {
                None
            }
        },
        None => None,
    }
}

/// Where a chapter is requested from: the site's url followed by the chapter's path.
pub fn chapter_request_url(chapter: &Chapter) -> (r: String)
    ensures
        r@ == URL@ + chapter.url@,
{
    let mut r = URL.to_string();
    r.append(chapter.url.as_str());
    r
}

/// The folder that holds a novel's chapters.
pub fn novel_dir_path(title: &str) -> (r: String)
    ensures
        r@ == "./"@ + title@,
{
    let mut r = "./".to_string();
    r.append(title);
    r
}

/// The file that holds one chapter of a novel.
pub fn chapter_file_path(title: &str, name: &str) -> (r: String)
    ensures
        r@ == "./"@ + title@ + "/"@ + name@,
{
    let mut r = novel_dir_path(title);
    r.append("/");
    r.append(name);
    r
}

/// A saved chapter: its name as a heading, then the chapter's markup without the notice.
pub open spec fn chapter_page(name: Seq<char>, markup: Seq<char>) -> Seq<char> {
    "<h1>"@ + name + "</h1>"@ + replaced(markup, AD_TEXT@, ""@)
}

/// The pages saved for a chapter, one per element matched in its page.
pub open spec fn chapter_pages_of(name: Seq<char>, elements: Seq<HtmlElement>) -> Seq<Seq<char>> {
    elements.map_values(|e: HtmlElement| chapter_page(name, e.html@))
}

/// A chapter whose markup does not hold the site's notice is saved as it is, under its
/// name as a heading.
pub proof fn lemma_clean_chapter_page(name: Seq<char>, markup: Seq<char>)
    requires
        !contains_seq(markup, AD_TEXT@),
    ensures
        chapter_page(name, markup) == "<h1>"@ + name + "</h1>"@ + markup,
{
    reveal_strlit("Find authorized novels in Webnovel，faster updates, better experience，Please click www.webnovel.com  for visiting.");
    lemma_replace_without_match(markup, AD_TEXT@, ""@);
}

/// The page saved for one matched element of a chapter.
pub fn chapter_document(name: &str, markup: &str) -> (r: String)
    ensures
        r@ == chapter_page(name@, markup@),
{
    proof {
        reveal_strlit("Find authorized novels in Webnovel，faster updates, better experience，Please click www.webnovel.com  for visiting.");
    }
    let mut r = "<h1>".to_string();
    r.append(name);
    r.append("</h1>");
    let body = replace_all(markup, AD_TEXT, "");
    r.append(body.as_str());
    r
}

/// The contents written to a chapter's file, in order, one for each matched element
/// (each write replaces the previous one, so the last one stays).
pub fn chapter_writes(name: &str, elements: &Vec<HtmlElement>) -> (r: Vec<String>)
    ensures
        string_views(r@) == chapter_pages_of(name@, elements@),
{
    let mut out: Vec<String> = Vec::new();
    for i in 0..elements.len()
        invariant
            string_views(out@) == chapter_pages_of(name@, elements@.take(i as int)),
    {
        let page = chapter_document(name, elements[i].html.as_str());
        out.push(page);
        assert(chapter_pages_of(name@, elements@.take(i + 1)) =~= chapter_pages_of(
            name@,
            elements@.take(i as int),
        ).push(page@));
        assert(string_views(out@) =~= chapter_pages_of(name@, elements@.take(i + 1)));
    }
    assert(elements@.take(elements.len() as int) =~= elements@);
    out
}


/// What the logic reads of a matched element: its text nodes and its `href`.
pub type ElementKey = (Seq<Seq<char>>, Option<Seq<char>>);

/// A chapter as a (name, path) pair.
pub open spec fn chapter_view(c: Chapter) -> (Seq<char>, Seq<char>) {
    (c.name@, c.url@)
}

/// The chapters as (name, path) pairs.
pub open spec fn chapters_view(cs: Seq<Chapter>) -> Seq<(Seq<char>, Seq<char>)> {
    cs.map_values(|c: Chapter| chapter_view(c))
}

/// The chapter that a link of the index stands for: its text is the name, its `href`
/// the path.
pub open spec fn chapter_of_link(k: ElementKey) -> (Seq<char>, Seq<char>) {
    (concat(k.0), k.1.unwrap())
}

/// The chapters that the links of an index stand for.
pub open spec fn chapters_of_links(keys: Seq<ElementKey>) -> Seq<(Seq<char>, Seq<char>)> {
    keys.map_values(|k: ElementKey| chapter_of_link(k))
}

/// Every link has an `href`.
pub open spec fn all_have_href(keys: Seq<ElementKey>) -> bool {
    forall|i: int| 0 <= i < keys.len() ==> (#[trigger] keys[i]).1 is Some
}

/// The text of the first matched element.
pub open spec fn first_text_of(keys: Seq<ElementKey>) -> Seq<char> {
    concat(keys[0].0)
}

/// The texts of a site's selectors, in the order index, title, status, author, text.
pub type SelectorViews = (Seq<char>, Seq<char>, Seq<char>, Seq<char>, Seq<char>);

/// The texts of the selectors.
pub open spec fn selector_views(d: SelectorData) -> SelectorViews {
    (d.index_selector@, d.title_selector@, d.status_selector@, d.author_selector@, d.text_selector@)
}

/// Metadata as (title, author, total chapters, status).
pub open spec fn metadata_view(m: Metadata) -> (Seq<char>, Option<Seq<char>>, nat, Option<Seq<char>>) {
    (m.title@, opt_view(m.author), m.total_chapters as nat, opt_view(m.status))
}

/// Chapters and metadata are those read from these matched elements.
pub open spec fn parts_fit(
    chapters: Seq<(Seq<char>, Seq<char>)>,
    meta: (Seq<char>, Option<Seq<char>>, nat, Option<Seq<char>>),
    index: Seq<ElementKey>,
    titles: Seq<ElementKey>,
    authors: Seq<ElementKey>,
    statuses: Seq<ElementKey>,
) -> bool {
    &&& chapters == chapters_of_links(index)
    &&& meta.0 == first_text_of(titles)
    &&& meta.1 == Some(first_text_of(authors))
    &&& meta.2 == chapters.len()
    &&& meta.3 == Some(first_text_of(statuses))
}

/// The novel `n` is the one read from these matched elements.
pub open spec fn novel_fits(
    n: Novel,
    index: Seq<ElementKey>,
    titles: Seq<ElementKey>,
    authors: Seq<ElementKey>,
    statuses: Seq<ElementKey>,
) -> bool {
    parts_fit(chapters_view(n.chapters@), metadata_view(n.metadata), index, titles, authors, statuses)
}

/// Chapters and metadata are those that the page `body` yields with these selectors.
pub open spec fn parts_fit_page(
    chapters: Seq<(Seq<char>, Seq<char>)>,
    meta: (Seq<char>, Option<Seq<char>>, nat, Option<Seq<char>>),
    body: Seq<char>,
    s: SelectorViews,
) -> bool {
    parts_fit(
        chapters,
        meta,
        selected_elements(body, s.0),
        selected_elements(body, s.1),
        selected_elements(body, s.3),
        selected_elements(body, s.2),
    )
}

/// Why a page yields no novel, checked in the order the crawler reads the page:
/// the selectors, the chapter links, then title, author and status.
pub open spec fn novel_page_error(body: Seq<char>, s: SelectorViews) -> Option<ScrapeError> {
    if !(selector_accepted(s.0) && selector_accepted(s.1) && selector_accepted(s.2)
        && selector_accepted(s.3)) {
        Some(ScrapeError::InvalidSelector)
    } else if !all_have_href(selected_elements(body, s.0)) {
        Some(ScrapeError::MissingHref)
    } else if selected_elements(body, s.1).len() == 0 {
        Some(ScrapeError::MissingTitle)
    } else if selected_elements(body, s.3).len() == 0 {
        Some(ScrapeError::MissingAuthor)
    } else if selected_elements(body, s.2).len() == 0 {
        Some(ScrapeError::MissingStatus)
    } else {
        None
    }
}

/// The novel `n` is the one that the page `body` yields with these selectors.
pub open spec fn novel_fits_page(n: Novel, body: Seq<char>, s: SelectorViews) -> bool {
    parts_fit_page(chapters_view(n.chapters@), metadata_view(n.metadata), body, s)
}

/// The chapters that the links of an index stand for.
pub fn chapters_from_links(links: &Vec<HtmlElement>) -> (r: Vec<Chapter>)
    requires
        all_have_href(element_keys(links@)),
    ensures
        chapters_view(r@) == chapters_of_links(element_keys(links@)),
{
    let mut out: Vec<Chapter> = Vec::new();
    let ghost keys = element_keys(links@);
    for i in 0..links.len()
        invariant
            keys == element_keys(links@),
            all_have_href(keys),
            chapters_view(out@) == chapters_of_links(keys.take(i as int)),
    {
        let link = &links[i];
        assert(keys[i as int].1 is Some);
        let url = match &link.href {
            Some(h) => h.clone(),
            None => String::new(),
        };
        let name = concat_strings(&link.texts);
        out.push(Chapter { name, url });
        assert(chapters_of_links(keys.take(i + 1)) =~= chapters_of_links(keys.take(i as int)).push(
            chapter_of_link(keys[i as int]),
        ));
        assert(chapters_view(out@) =~= chapters_of_links(keys.take(i + 1)));
    }
    assert(keys.take(links.len() as int) =~= keys);
    out
}

/// The text of the first matched element (what `select(..).next().unwrap().text()`
/// collects).
pub fn first_text(elements: &Vec<HtmlElement>) -> (r: String)
    requires
        elements.len() > 0,
    ensures
        r@ == first_text_of(element_keys(elements@)),
{
    concat_strings(&elements[0].texts)
}

/// The novel read from the matched elements of its index page.
pub fn novel_from_elements(
    index: &Vec<HtmlElement>,
    titles: &Vec<HtmlElement>,
    authors: &Vec<HtmlElement>,
    statuses: &Vec<HtmlElement>,
    data: SelectorData,
) -> (r: Novel)
    requires
        all_have_href(element_keys(index@)),
        titles.len() > 0,
        authors.len() > 0,
        statuses.len() > 0,
    ensures
        novel_fits(
            r,
            element_keys(index@),
            element_keys(titles@),
            element_keys(authors@),
            element_keys(statuses@),
        ),
        r.selector == data,
{
    let chapters = chapters_from_links(index);
    let metadata = Metadata {
        title: first_text(titles),
        author: Some(first_text(authors)),
        total_chapters: chapters.len(),
        status: Some(first_text(statuses)),
    };
    Novel { chapters, metadata, selector: data }
}

/// Whether every link has an `href`.
pub fn links_have_href(links: &Vec<HtmlElement>) -> (r: bool)
    ensures
        r == all_have_href(element_keys(links@)),
{
    let ghost keys = element_keys(links@);
    for i in 0..links.len()
        invariant
            keys == element_keys(links@),
            forall|j: int| 0 <= j < i ==> (#[trigger] keys[j]).1 is Some,
    {
        if links[i].href.is_none() {
            assert(keys[i as int].1 is None);
            return false;
        }
    }
    true
}

/// Reads a novel from the text of its index page with the given selectors.
pub fn novel_from_page(body: &str, data: SelectorData) -> (r: Result<Novel, ScrapeError>)
    ensures
        r is Err <==> novel_page_error(body@, selector_views(data)) is Some,
        r matches Err(e) ==> novel_page_error(body@, selector_views(data)) == Some(e),
        r matches Ok(n) ==> novel_fits_page(n, body@, selector_views(data)) && n.selector == data,
{
    let doc = Document::parse(body);
    let index = doc.select(data.index_selector.as_str());
    let titles = doc.select(data.title_selector.as_str());
    let statuses = doc.select(data.status_selector.as_str());
    let authors = doc.select(data.author_selector.as_str());
    match (index, titles, statuses, authors) {
        (Ok(index), Ok(titles), Ok(statuses), Ok(authors)) => {
            if !links_have_href(&index) {
                Err(ScrapeError::MissingHref)
            } else if titles.len() == 0 {
                Err(ScrapeError::MissingTitle)
            } else if authors.len() == 0 {
                Err(ScrapeError::MissingAuthor)
            } else if statuses.len() == 0 {
                Err(ScrapeError::MissingStatus)
            } else {
                Ok(novel_from_elements(&index, &titles, &authors, &statuses, data))
            }
        },
        _ => Err(ScrapeError::InvalidSelector),
    }
}


/// The pages saved for a chapter are those of the elements that the selector matches
/// in its page, one per element and in order: each is the chapter's heading followed by
/// one of that element's serializations, without the notice.
pub open spec fn pages_fit_page(
    pages: Seq<Seq<char>>,
    name: Seq<char>,
    body: Seq<char>,
    selector: Seq<char>,
) -> bool {
    &&& pages.len() == selected_elements(body, selector).len()
    &&& forall|i: int|
        0 <= i < pages.len() ==> #[trigger] page_of_match(pages[i], name, body, selector, i)
}

/// The page is the chapter's heading followed by one of the serializations of the
/// `i`-th matched element, without the notice.
pub open spec fn page_of_match(
    page: Seq<char>,
    name: Seq<char>,
    body: Seq<char>,
    selector: Seq<char>,
    i: int,
) -> bool {
    exists|m: Seq<char>| #[trigger] serializes_match(body, selector, i, m) && page == chapter_page(name, m)
}

/// Pages made from elements that a selector returned fit the page they came from.
pub proof fn lemma_pages_fit(
    pages: Seq<Seq<char>>,
    name: Seq<char>,
    elements: Seq<HtmlElement>,
    body: Seq<char>,
    selector: Seq<char>,
)
    requires
        pages == chapter_pages_of(name, elements),
        element_keys(elements) == selected_elements(body, selector),
        markups_fit(elements, body, selector),
    ensures
        pages_fit_page(pages, name, body, selector),
{
    assert(element_keys(elements).len() == elements.len());
    assert(pages.len() == elements.len());
    assert forall|i: int| 0 <= i < pages.len() implies #[trigger] page_of_match(
        pages[i],
        name,
        body,
        selector,
        i,
    ) by {
        assert(serializes_match(body, selector, i, elements[i].html@));
        assert(pages[i] == chapter_page(name, elements[i].html@));
    }
}

/// What saving a chapter writes: the file and the contents written to it, in order.
#[derive(Debug, Clone)]
pub struct ChapterFile {
    pub path: String,
    pub pages: Vec<String>,
}

/// The file and contents that saving a chapter writes, given the chapter's page.
pub fn save_html(chapter: &Chapter, body: &str, meta: &Metadata, sd: &SelectorData) -> (r: Result<
    ChapterFile,
    ScrapeError,
>)
    ensures
        r is Err <==> !selector_accepted(sd.text_selector@),
        r matches Err(e) ==> e == ScrapeError::InvalidSelector,
        r matches Ok(f) ==> f.path@ == "./"@ + meta.title@ + "/"@ + chapter.name@,
        r matches Ok(f) ==> pages_fit_page(
            string_views(f.pages@),
            chapter.name@,
            body@,
            sd.text_selector@,
        ),
{
    let doc = Document::parse(body);
    match doc.select(sd.text_selector.as_str()) {
        Ok(elements) => {
            let pages = chapter_writes(chapter.name.as_str(), &elements);
            let path = chapter_file_path(meta.title.as_str(), chapter.name.as_str());
            proof {
                lemma_pages_fit(
                    string_views(pages@),
                    chapter.name@,
                    elements@,
                    body@,
                    sd.text_selector@,
                );
            }
            Ok(ChapterFile { path, pages })
        },
        Err(e) => Err(e),
    }
}

/// Adding a text node at the end of the first matched element adds its text at the end
/// of what is read for the title, author or status (all text nodes are read, in order);
/// an element without text nodes reads as empty; the other matched elements play no part.
pub proof fn lemma_first_text_reads_every_node(
    nodes: Seq<Seq<char>>,
    node: Seq<char>,
    href: Option<Seq<char>>,
    rest: Seq<ElementKey>,
    others: Seq<ElementKey>,
)
    ensures
        first_text_of(seq![(nodes.push(node), href)] + rest) == first_text_of(
            seq![(nodes, href)] + others,
        ) + node,
        first_text_of(seq![(Seq::<Seq<char>>::empty(), href)] + rest) == Seq::<char>::empty(),
{
    assert((seq![(nodes.push(node), href)] + rest)[0] == (nodes.push(node), href));
    assert((seq![(nodes, href)] + others)[0] == (nodes, href));
    assert((seq![(Seq::<Seq<char>>::empty(), href)] + rest)[0] == (
        Seq::<Seq<char>>::empty(),
        href,
    ));
    assert(nodes.push(node).drop_last() =~= nodes);
}

/// Adding a text node at the end of an index link adds its text at the end of the
/// chapter's name (the name is all the link's text nodes, in order); the path is the
/// link's `href`.
pub proof fn lemma_chapter_name_reads_every_node(
    nodes: Seq<Seq<char>>,
    node: Seq<char>,
    href: Seq<char>,
)
    ensures
        chapter_of_link((nodes.push(node), Some(href))).0 == chapter_of_link((nodes, Some(href))).0
            + node,
        chapter_of_link((Seq::<Seq<char>>::empty(), Some(href))).0 == Seq::<char>::empty(),
        chapter_of_link((nodes, Some(href))).1 == href,
{
    assert(nodes.push(node).drop_last() =~= nodes);
}

/// A url `scheme//host` or `scheme//host/path`, whose scheme and host hold no `/`, is
/// assigned to wuxiaworld.co exactly when its host is that site's host; any other
/// host, however close, has no source.
pub proof fn lemma_source_is_exact_host(scheme: Seq<char>, host: Seq<char>, path: Seq<char>)
    requires
        forall|i: int| 0 <= i < scheme.len() ==> #[trigger] scheme[i] != '/',
        forall|i: int| 0 <= i < host.len() ==> #[trigger] host[i] != '/',
    ensures
        spec_source_for_url(scheme + seq!['/', '/'] + host) is Some <==> host == BASE_URL@,
        spec_source_for_url(scheme + seq!['/', '/'] + host + seq!['/'] + path) is Some <==> host
            == BASE_URL@,
        host == BASE_URL@ ==> spec_source_for_url(scheme + seq!['/', '/'] + host + seq!['/'] + path)
            == Some(Source::Wuxiaworldco),
{
    let empty = Seq::<char>::empty();
    let u1 = scheme + seq!['/', '/'] + host;
    assert(u1 =~= scheme + seq!['/'] + (empty + seq!['/'] + host));
    lemma_split_without_sep(scheme, '/');
    lemma_split_without_sep(empty, '/');
    lemma_split_without_sep(host, '/');
    lemma_split_concat(empty, host, '/');
    lemma_split_concat(scheme, empty + seq!['/'] + host, '/');
    assert(split_on(u1, '/') =~= seq![scheme, empty, host]);
    let u2 = scheme + seq!['/', '/'] + host + seq!['/'] + path;
    assert(u2 =~= u1 + seq!['/'] + path);
    lemma_split_concat(u1, path, '/');
    assert(split_on(u2, '/')[2] == host);
}

/// The parts joined with the site's notice between each two.
pub open spec fn joined_by_notice(parts: Seq<Seq<char>>) -> Seq<char>
    decreases parts.len(),
{
    if parts.len() == 0 {
        Seq::empty()
    } else if parts.len() == 1 {
        parts[0]
    } else {
        parts[0] + AD_TEXT@ + joined_by_notice(parts.skip(1))
    }
}

/// The notice overlaps itself nowhere: its first character does not occur again in it.
proof fn lemma_notice_unbordered()
    ensures
        AD_TEXT@.len() > 0,
        forall|d: int| 0 < d < AD_TEXT@.len() ==> #[trigger] AD_TEXT@[d] != AD_TEXT@[0],
{
    reveal_strlit("Find authorized novels in Webnovel，faster updates, better experience，Please click www.webnovel.com  for visiting.");
}

/// Markup that starts with a notice-free piece followed by the notice loses that notice,
/// and the piece is kept as it is.
proof fn lemma_notice_after_clean_piece(p: Seq<char>, rest: Seq<char>)
    requires
        !contains_seq(p, AD_TEXT@),
    ensures
        replaced(p + AD_TEXT@ + rest, AD_TEXT@, Seq::empty()) == p + replaced(
            rest,
            AD_TEXT@,
            Seq::empty(),
        ),
    decreases p.len(),
{
    lemma_notice_unbordered();
    let pat = AD_TEXT@;
    let s = p + pat + rest;
    let l = pat.len();
    if p.len() == 0 {
        assert(s =~= pat + rest);
        assert(s.take(l as int) =~= pat);
        assert(s.skip(l as int) =~= rest);
        assert(Seq::<char>::empty() + replaced(rest, pat, Seq::empty()) =~= replaced(
            rest,
            pat,
            Seq::empty(),
        ));
        assert(p + replaced(rest, pat, Seq::empty()) =~= replaced(rest, pat, Seq::empty()));
    } else {
        if l <= s.len() && s.take(l as int) == pat {
            if p.len() >= l {
                assert(p.subrange(0, l as int) =~= s.take(l as int));
                assert(occurs_at(p, pat, 0));
            } else {
                let d = p.len() as int;
                assert(s[d] == pat[0]);
                assert(s.take(l as int)[d] == s[d]);
                assert(pat[d] != pat[0]);
            }
        }
        let p1 = p.skip(1);
        assert forall|i: int| !#[trigger] occurs_at(p1, pat, i) by {
            if occurs_at(p1, pat, i) {
                assert(p.subrange(i + 1, i + 1 + l) =~= p1.subrange(i, i + l));
                assert(occurs_at(p, pat, i + 1));
            }
        }
        lemma_notice_after_clean_piece(p1, rest);
        assert(s.skip(1) =~= p1 + pat + rest);
        assert(seq![p[0]] + (p1 + replaced(rest, pat, Seq::empty())) =~= p + replaced(
            rest,
            pat,
            Seq::empty(),
        ));
    }
}

/// Every occurrence of the site's notice is removed from a chapter's saved page, not only
/// the first: markup made of notice-free pieces with the notice between each two is saved
/// as the chapter's heading followed by the pieces, in order, with nothing between them.
pub proof fn lemma_chapter_page_removes_every_notice(name: Seq<char>, pieces: Seq<Seq<char>>)
    requires
        pieces.len() > 0,
        forall|i: int| 0 <= i < pieces.len() ==> !contains_seq(#[trigger] pieces[i], AD_TEXT@),
    ensures
        chapter_page(name, joined_by_notice(pieces)) == "<h1>"@ + name + "</h1>"@ + concat(pieces),
{
    reveal_strlit("");
    assert(""@ =~= Seq::<char>::empty());
    lemma_pieces_lose_notices(pieces);
}

proof fn lemma_pieces_lose_notices(pieces: Seq<Seq<char>>)
    requires
        pieces.len() > 0,
        forall|i: int| 0 <= i < pieces.len() ==> !contains_seq(#[trigger] pieces[i], AD_TEXT@),
    ensures
        replaced(joined_by_notice(pieces), AD_TEXT@, Seq::empty()) == concat(pieces),
    decreases pieces.len(),
{
    lemma_notice_unbordered();
    lemma_concat_front(pieces);
    if pieces.len() == 1 {
        assert(!contains_seq(pieces[0], AD_TEXT@));
        lemma_replace_without_match(pieces[0], AD_TEXT@, Seq::empty());
        assert(pieces.skip(1) =~= Seq::<Seq<char>>::empty());
        assert(pieces[0] + concat(pieces.skip(1)) =~= pieces[0]);
    } else {
        let tail = pieces.skip(1);
        assert forall|i: int| 0 <= i < tail.len() implies !contains_seq(
            #[trigger] tail[i],
            AD_TEXT@,
        ) by {
            assert(tail[i] == pieces[i + 1]);
        }
        lemma_pieces_lose_notices(tail);
        assert(!contains_seq(pieces[0], AD_TEXT@));
        lemma_notice_after_clean_piece(pieces[0], joined_by_notice(tail));
    }
}

} // verus!
