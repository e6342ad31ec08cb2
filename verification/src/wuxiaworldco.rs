use vstd::prelude::*;
use crate::crawler::{
    novel_fits_page, novel_from_page, novel_page_error, selector_views, ElementKey, Novel,
    SelectorData, SelectorViews,
};
use crate::html::{element_keys, select_in_page, selected_elements, selector_accepted, HtmlElement, ScrapeError};
use crate::search::{results_view, SearchResult};

verus! {

/// The host of the site.
pub const BASE_URL: &'static str = "www.wuxiaworld.co";

/// Where the site's search is.
pub const SEARCH_URL: &'static str = "https://www.wuxiaworld.co/search/";


/// The selector that picks the links of a search's results.
pub const RESULT_SELECTOR: &'static str = "ul.result-list > li > div.item-info > a.book-name";

/// The texts of the site's selectors.
pub open spec fn site_selectors() -> SelectorViews {
    (
        "ul.chapter-list > a.chapter-item"@,
        "div.book-name"@,
        "div.book-state"@,
        "div.author"@,
        "div.chapter-entity"@,
    )
}

/// The selectors of the site's pages.
pub fn get_data() -> (d: SelectorData)
    ensures
        selector_views(d) == site_selectors(),
{
    SelectorData {
        index_selector: "ul.chapter-list > a.chapter-item".to_string(),
        title_selector: "div.book-name".to_string(),
        status_selector: "div.book-state".to_string(),
        author_selector: "div.author".to_string(),
        text_selector: "div.chapter-entity".to_string(),
    }
}

/// Reads a novel from the text of its index page on this site.
pub fn get_novel(body: &str) -> (r: Result<Novel, ScrapeError>)
    ensures
        r is Err <==> novel_page_error(body@, site_selectors()) is Some,
        r matches Err(e) ==> novel_page_error(body@, site_selectors()) == Some(e),
        r matches Ok(n) ==> novel_fits_page(n, body@, site_selectors()) && selector_views(
            n.selector,
        ) == site_selectors(),
{
    novel_from_page(body, get_data())
}

/// Where the site's search for `query` is requested from.
pub fn search_request_url(query: &str) -> (r: String)
    ensures
        r@ == SEARCH_URL@ + query@ + "/1"@,
{
    let mut r = SEARCH_URL.to_string();
    r.append(query);
    r.append("/1");
    r
}

/// Why a search result link cannot be read: it has no text, or no `href`.
pub open spec fn link_error(k: ElementKey) -> Option<ScrapeError> {
    if k.0.len() == 0 {
        Some(ScrapeError::MissingText)
    } else if k.1 is None {
        Some(ScrapeError::MissingHref)
    } else {
        None
    }
}

/// The first link, in order, that cannot be read, and why.
pub open spec fn first_link_error(keys: Seq<ElementKey>) -> Option<ScrapeError>
    decreases keys.len(),
{
    if keys.len() == 0 {
        None
    } else if link_error(keys[0]) is Some {
        link_error(keys[0])
    } else {
        first_link_error(keys.skip(1))
    }
}

/// The search result that a link stands for: its first text node is the name, its
/// `href` the path.
pub open spec fn result_of_link(k: ElementKey) -> (Seq<char>, Seq<char>) {
    (k.0[0], k.1.unwrap())
}

/// The search results that links stand for.
pub open spec fn results_of_links(keys: Seq<ElementKey>) -> Seq<(Seq<char>, Seq<char>)> {
    keys.map_values(|k: ElementKey| result_of_link(k))
}

proof fn lemma_first_link_error(keys: Seq<ElementKey>, i: int)
    requires
        0 <= i <= keys.len(),
        forall|j: int| 0 <= j < i ==> link_error(#[trigger] keys[j]) is None,
    ensures
        first_link_error(keys) == first_link_error(keys.skip(i)),
    decreases i,
{
    if i > 0 {
        assert(keys.skip(1).skip(i - 1) =~= keys.skip(i));
        assert forall|j: int| 0 <= j < i - 1 implies link_error(#[trigger] keys.skip(1)[j]) is None by {
            assert(keys.skip(1)[j] == keys[j + 1]);
        }
        lemma_first_link_error(keys.skip(1), i - 1);
        assert(link_error(keys[0]) is None);
    } else {
        assert(keys.skip(0) =~= keys);
    }
}

/// The search results that the matched links stand for.
pub fn results_from_links(links: &Vec<HtmlElement>) -> (r: Result<Vec<SearchResult>, ScrapeError>)
    ensures
        r is Err <==> first_link_error(element_keys(links@)) is Some,
        r matches Err(e) ==> first_link_error(element_keys(links@)) == Some(e),
        r matches Ok(v) ==> results_view(v@) == results_of_links(element_keys(links@)),
{
    let ghost keys = element_keys(links@);
    let mut out: Vec<SearchResult> = Vec::new();
    for i in 0..links.len()
        invariant
            keys == element_keys(links@),
            forall|j: int| 0 <= j < i ==> link_error(#[trigger] keys[j]) is None,
            results_view(out@) == results_of_links(keys.take(i as int)),
    {
        let link = &links[i];
        proof {
            lemma_first_link_error(keys, i as int);
            assert(keys.skip(i as int)[0] == keys[i as int]);
        }
        if link.texts.len() == 0 {
            return Err(ScrapeError::MissingText);
        }
        let url = match &link.href {
            Some(h) => h.clone(),
            None => {
                return Err(ScrapeError::MissingHref);
            },
        };
        let name = link.texts[0].clone();
        out.push(SearchResult { name, url });
        assert(results_of_links(keys.take(i + 1)) =~= results_of_links(keys.take(i as int)).push(
            result_of_link(keys[i as int]),
        ));
        assert(results_view(out@) =~= results_of_links(keys.take(i + 1)));
    }
    proof {
        lemma_first_link_error(keys, keys.len() as int);
        assert(keys.skip(keys.len() as int) =~= Seq::<ElementKey>::empty());
    }
    assert(keys.take(links.len() as int) =~= keys);
    Ok(out)
}

/// The novels that a page of the site's search lists, in order.
pub fn search(body: &str) -> (r: Result<Vec<SearchResult>, ScrapeError>)
    ensures
        !selector_accepted(RESULT_SELECTOR@) ==> r == Err::<Vec<SearchResult>, ScrapeError>(
            ScrapeError::InvalidSelector,
        ),
        selector_accepted(RESULT_SELECTOR@) ==> {
            let keys = selected_elements(body@, RESULT_SELECTOR@);
            &&& r is Err <==> first_link_error(keys) is Some
            &&& r matches Err(e) ==> first_link_error(keys) == Some(e)
            &&& r matches Ok(v) ==> results_view(v@) == results_of_links(keys)
        },
{
    match select_in_page(body, RESULT_SELECTOR) {
        Ok(links) => results_from_links(&links),
        Err(e) => Err(e),
    }
}

/// A search lists one result per matched link, in the links' order: as many results as
/// links, the `i`-th named by the `i`-th link's first text node and pointing to its
/// `href`; one more link at the end adds exactly its result at the end.
pub proof fn lemma_one_result_per_link(keys: Seq<ElementKey>, k: ElementKey)
    ensures
        results_of_links(keys).len() == keys.len(),
        forall|i: int|
            0 <= i < keys.len() ==> #[trigger] results_of_links(keys)[i] == (
                keys[i].0[0],
                keys[i].1.unwrap(),
            ),
        results_of_links(keys.push(k)) == results_of_links(keys).push((k.0[0], k.1.unwrap())),
        results_of_links(Seq::<ElementKey>::empty()) == Seq::<(Seq<char>, Seq<char>)>::empty(),
{
    assert(results_of_links(keys.push(k)) =~= results_of_links(keys).push((k.0[0], k.1.unwrap())));
    assert(results_of_links(Seq::<ElementKey>::empty()) =~= Seq::<(Seq<char>, Seq<char>)>::empty());
}

} // verus!
