use vstd::prelude::*;
use crate::text::string_views;

verus! {

#[verifier::external_type_specification]
#[verifier::external_body]
pub struct ExHtml(::scraper::Html);

#[verifier::external_type_specification]
#[verifier::external_body]
pub struct ExSelector(::scraper::Selector);

/// Why a page could not be turned into the data the crawler needs.
#[derive(Debug, Clone, Copy, PartialEq, Eq, Structural)]
pub enum ScrapeError {
    /// A CSS selector was rejected by the selector parser.
    InvalidSelector,
    /// A chapter or search link had no `href` attribute.
    MissingHref,
    /// A search result link had no text.
    MissingText,
    /// The page had no element for the novel's title.
    MissingTitle,
    /// The page had no element for the novel's author.
    MissingAuthor,
    /// The page had no element for the novel's status.
    MissingStatus,
}

/// One element that a CSS selector matched, held as plain values: its descendant
/// text nodes in the order the parsed tree holds them, its `href` attribute and its
/// serialized markup.
#[derive(Debug, Clone)]
pub struct HtmlElement {
    pub texts: Vec<String>,
    pub href: Option<String>,
    pub html: String,
}

/// The view of an optional string.
pub open spec fn opt_view(o: Option<String>) -> Option<Seq<char>> {
    match o {
        Some(s) => Some(s@),
        None => None,
    }
}

/// What the logic reads of an element, up to its markup: its text nodes and `href`.
pub open spec fn element_key(e: HtmlElement) -> (Seq<Seq<char>>, Option<Seq<char>>) {
    (string_views(e.texts@), opt_view(e.href))
}

/// The keys of a sequence of elements.
pub open spec fn element_keys(v: Seq<HtmlElement>) -> Seq<(Seq<Seq<char>>, Option<Seq<char>>)> {
    v.map_values(|e: HtmlElement| element_key(e))
}

/// Whether the `scraper` crate's CSS selector parser accepts this selector text.
pub uninterp spec fn selector_accepted(selector: Seq<char>) -> bool;

/// The elements, in the order the parsed tree holds its nodes, that the selector matches
/// in the HTML document
/// parsed from `source`: for each, its text nodes and its `href` attribute.
pub uninterp spec fn selected_elements(source: Seq<char>, selector: Seq<char>) -> Seq<
    (Seq<Seq<char>>, Option<Seq<char>>),
>;

/// Whether `markup` is one of the serializations of the `index`-th element that the
/// selector matches in the HTML document parsed from `source` (`ElementRef::html`; the
/// serializations differ only in the order of each element's attributes).
pub uninterp spec fn serializes_match(
    source: Seq<char>,
    selector: Seq<char>,
    index: int,
    markup: Seq<char>,
) -> bool;

/// Every element's markup is one of the serializations of the element it stands for.
pub open spec fn markups_fit(v: Seq<HtmlElement>, source: Seq<char>, selector: Seq<char>) -> bool {
    forall|i: int| 0 <= i < v.len() ==> serializes_match(source, selector, i, (#[trigger] v[i]).html@)
}

/// Calls `scraper::Html::parse_document`, which never fails (errors are recorded in the
/// tree). Nothing is stated of the tree: `Document` keeps the source beside it.
#[verifier::external_body]
fn parse_html_document(body: &str) -> (tree: ::scraper::Html) {
    ::scraper::Html::parse_document(body)
}

/// Calls `scraper::Selector::parse`; claims that it succeeds exactly on the selector
/// texts that `selector_accepted` names. The parse error itself is dropped.
#[verifier::external_body]
fn compile_selector(text: &str) -> (r: Option<::scraper::Selector>)
    ensures
        r is Some <==> selector_accepted(text@),
{
    ::scraper::Selector::parse(text).ok()
}

/// An HTML document together with the text it was parsed from.
pub struct Document {
    source: String,
    tree: ::scraper::Html,
}

/// A compiled CSS selector together with its text.
pub struct CssSelector {
    source: String,
    compiled: ::scraper::Selector,
}

/// Calls `scraper::Html::select` and, for each matched element, `ElementRef::text`,
/// `Element::attr("href")` and `ElementRef::html`. Claims that the text nodes and the
/// `href` of the elements are those named by `selected_elements` for the document's
/// source and the selector's text (both types keep their text beside the value made
/// from it, in private fields that only their constructors set). Of the markup
/// (`html`) it claims only that it is one of the element's serializations, which
/// `serializes_match` names: the attribute order follows a hash map seeded per process.
#[verifier::external_body]
fn select_elements(doc: &Document, selector: &CssSelector) -> (r: Vec<HtmlElement>)
    ensures
        element_keys(r@) == selected_elements(doc.source(), selector.source()),
        forall|i: int|
            0 <= i < r.len() ==> serializes_match(
                doc.source(),
                selector.source(),
                i,
                (#[trigger] r@[i]).html@,
            ),
{
    let mut out = Vec::new();
    for e in doc.tree.select(&selector.compiled) {
        let texts = e.text().map(|t| t.to_string()).collect();
        let href = e.value().attr("href").map(|a| a.to_string());
        out.push(HtmlElement { texts, href, html: e.html() });
    }
    out
}

impl CssSelector {
    /// The selector's text.
    pub closed spec fn source(&self) -> Seq<char> {
        self.source@
    }

    /// Compiles a selector; `None` when the selector parser rejects the text.
    pub fn parse(text: &str) -> (r: Option<CssSelector>)
        ensures
            r is Some <==> selector_accepted(text@),
            r matches Some(c) ==> c.source() == text@,
    {
        match compile_selector(text) {
            Some(compiled) => Some(CssSelector { source: text.to_string(), compiled }),
            None => None,
        }
    }
}

impl Document {
    /// The text the document was parsed from.
    pub closed spec fn source(&self) -> Seq<char> {
        self.source@
    }

    /// Parses an HTML document.
    pub fn parse(body: &str) -> (d: Document)
        ensures
            d.source() == body@,
    {
        Document { source: body.to_string(), tree: parse_html_document(body) }
    }

    /// The elements that a selector matches, in the order of the parsed tree's nodes.
    pub fn select(&self, selector: &str) -> (r: Result<Vec<HtmlElement>, ScrapeError>)
        ensures
            r is Err <==> !selector_accepted(selector@),
            r matches Err(e) ==> e == ScrapeError::InvalidSelector,
            r matches Ok(v) ==> element_keys(v@) == selected_elements(self.source(), selector@),
            r matches Ok(v) ==> markups_fit(v@, self.source(), selector@),
    {
        match CssSelector::parse(selector) {
            Some(sel) => Ok(select_elements(self, &sel)),
            None => Err(ScrapeError::InvalidSelector),
        }
    }
}

/// The elements that a selector matches in the document parsed from `body`.
pub fn select_in_page(body: &str, selector: &str) -> (r: Result<Vec<HtmlElement>, ScrapeError>)
    ensures
        r is Err <==> !selector_accepted(selector@),
        r matches Err(e) ==> e == ScrapeError::InvalidSelector,
        r matches Ok(v) ==> element_keys(v@) == selected_elements(body@, selector@),
        r matches Ok(v) ==> markups_fit(v@, body@, selector@),
{
    let doc = Document::parse(body);
    doc.select(selector)
}

} // verus!
