use vstd::prelude::*;
use crate::crawler::{Chapter, Novel};
use crate::text::string_views;
use epub_builder::{EpubBuilder, ZipLibrary};
use vstd::utf8::encode_utf8;

verus! {

#[verifier::external_type_specification]
#[verifier::external_body]
pub struct ExZipLibrary(ZipLibrary);

#[verifier::external_type_specification]
#[verifier::external_body]
pub struct ExEpubError(epub_builder::Error);

/// Why an EPUB could not be built.
#[derive(Debug)]
pub enum EpubError {
    /// The EPUB builder reported this error.
    Builder(epub_builder::Error),
}

/// The kind of a document, which the book's guide records for it.
#[derive(Debug, Clone, Copy, PartialEq, Eq, Structural)]
pub enum ReferenceType {
    /// The cover page.
    Cover,
    /// The page with title, author and publisher.
    TitlePage,
    /// The table of contents.
    Toc,
    /// The text proper.
    Text,
}

/// An EPUB book under construction: an `epub_builder::EpubBuilder` that zips in memory.
#[verifier::external_body]
pub struct EpubBook {
    builder: EpubBuilder<ZipLibrary>,
}

/// A document of a book: its file name, its text, its title and its kind.
pub type DocumentView = (Seq<char>, Seq<char>, Seq<char>, ReferenceType);

/// The XHTML documents that `add_content` has put into a book's builder, in order:
/// for each, its file name in the book, its text, its title and its reference type.
pub uninterp spec fn epub_documents(book: EpubBook) -> Seq<DocumentView>;

/// Whether the book's zip archive can still take entries: it is not finished, and no
/// entry written so far is over 4 GiB.
pub uninterp spec fn epub_open(book: EpubBook) -> bool;

/// Whether the zip library is as `ZipLibrary::new` made it: only its `mimetype` entry.
pub uninterp spec fn zip_fresh(zip: ZipLibrary) -> bool;

/// The largest document text, in bytes, that a book is owed to take.
pub open spec fn entry_limit() -> nat {
    0xF000_0000
}

/// The largest weight of a book's documents that generating it is owed to handle.
pub open spec fn book_limit() -> nat {
    0x8000_0000
}

/// A bound on what the documents add to the package, contents and navigation files:
/// each document's file name and title appear there a few times, escaped at most
/// six-fold, with a few hundred bytes of markup.
pub open spec fn docs_weight(docs: Seq<DocumentView>) -> nat
    decreases docs.len(),
{
    if docs.len() == 0 {
        0
    } else {
        let d = docs.last();
        docs_weight(docs.drop_last()) + 64 * (encode_utf8(d.0).len() + encode_utf8(d.2).len())
            + 4096
    }
}

/// Calls `epub_builder::ZipLibrary::new`, which starts an in-memory zip archive with its
/// `mimetype` entry. Claims that it succeeds: every step writes to a fresh in-memory
/// writer, whose error paths the zip crate takes only once the archive is closed or an
/// entry is over 4 GiB.
#[verifier::external_body]
fn new_zip_library() -> (r: Result<ZipLibrary, epub_builder::Error>)
    ensures
        r is Ok,
        r matches Ok(z) ==> zip_fresh(z),
{
    ZipLibrary::new()
}

/// Calls `epub_builder::EpubBuilder::new`, which writes the two `META-INF` files into the
/// archive. Claims that on a fresh zip library it succeeds, with a builder that holds
/// no documents and whose archive is open.
#[verifier::external_body]
fn new_book(zip: ZipLibrary) -> (r: Result<EpubBook, epub_builder::Error>)
    requires
        zip_fresh(zip),
    ensures
        r is Ok,
        r matches Ok(b) ==> epub_documents(b) == Seq::<DocumentView>::empty() && epub_open(b),
{
    EpubBuilder::new(zip).map(|builder| EpubBook { builder })
}

/// Calls `epub_builder::EpubBuilder::add_content` with an `EpubContent` made of the file
/// name, the bytes of `content`, the title and the reference type (mapped one variant to
/// one variant). Claims:
/// - on success the document is appended to the builder's documents, and on failure
///   they are unchanged (the file is written before the document is recorded);
/// - it succeeds, and leaves the archive open, when the archive is open and the text
///   is within `entry_limit` bytes (the zip crate fails a write only on a closed archive
///   or past 4 GiB in one entry, and closes the archive then);
/// - it fails when the archive is not open.
#[verifier::external_body]
fn add_xhtml_content(
    book: &mut EpubBook,
    file_name: String,
    content: &str,
    title: String,
    reftype: ReferenceType,
) -> (r: Result<(), epub_builder::Error>)
    ensures
        r is Ok ==> epub_documents(*final(book)) == epub_documents(*old(book)).push(
            (file_name@, content@, title@, reftype),
        ),
        r is Err ==> epub_documents(*final(book)) == epub_documents(*old(book)),
        epub_open(*old(book)) && encode_utf8(content@).len() <= entry_limit() ==> r is Ok
            && epub_open(*final(book)),
        !epub_open(*old(book)) ==> r is Err,
{
    let kind = match reftype {
        ReferenceType::Cover => epub_builder::ReferenceType::Cover,
        ReferenceType::TitlePage => epub_builder::ReferenceType::TitlePage,
        ReferenceType::Toc => epub_builder::ReferenceType::Toc,
        ReferenceType::Text => epub_builder::ReferenceType::Text,
    };
    let item = epub_builder::EpubContent::new(file_name, content.as_bytes());
    book.builder.add_content(item.title(title).reftype(kind)).map(|_| ())
}

/// The bytes begin as an EPUB container must: a zip local file header (`PK\x03\x04`)
/// for the entry `mimetype`, stored uncompressed and without extra field, whose data is
/// `application/epub+zip`.
pub open spec fn is_epub_container(bytes: Seq<u8>) -> bool {
    &&& bytes.len() >= 58
    &&& bytes.subrange(0, 4) == seq![0x50u8, 0x4b, 0x03, 0x04]
    &&& bytes.subrange(30, 38) == seq![0x6du8, 0x69, 0x6d, 0x65, 0x74, 0x79, 0x70, 0x65]
    &&& bytes.subrange(38, 58) == seq![
        0x61u8, 0x70, 0x70, 0x6c, 0x69, 0x63, 0x61, 0x74, 0x69, 0x6f, 0x6e, 0x2f,
        0x65, 0x70, 0x75, 0x62, 0x2b, 0x7a, 0x69, 0x70,
    ]
}

/// A little-endian 16-bit field of `b` at `i`.
pub open spec fn le16(b: Seq<u8>, i: int) -> int {
    b[i] as int + 256 * (b[i + 1] as int)
}

/// A little-endian 32-bit field of `b` at `i`.
pub open spec fn le32(b: Seq<u8>, i: int) -> int {
    le16(b, i) + 65536 * le16(b, i + 2)
}

/// The signature that opens a zip local file header.
pub open spec fn zip_local_signature() -> Seq<u8> {
    seq![0x50u8, 0x4b, 0x03, 0x04]
}

/// The entries of a zip archive as its local file headers lay them out, starting at
/// `off`: for each, its name, its compression method and its (compressed) data. The
/// walk stops at the first place that holds no local file header.
pub open spec fn zip_entries_from(b: Seq<u8>, off: int) -> Seq<(Seq<u8>, int, Seq<u8>)>
    decreases b.len() - off,
{
    if 0 <= off && off + 30 <= b.len() && b.subrange(off, off + 4) == zip_local_signature() {
        let n = le16(b, off + 26);
        let start = off + 30 + n + le16(b, off + 28);
        let next = start + le32(b, off + 18);
        if next <= b.len() {
            seq![(b.subrange(off + 30, off + 30 + n), le16(b, off + 8), b.subrange(start, next))]
                + zip_entries_from(b, next)
        } else {
            Seq::empty()
        }
    } else {
        Seq::empty()
    }
}

/// The path in the archive of a document's file: under `OEBPS/`, as `Path::join` puts
/// it (a file name that starts with `/` replaces the folder).
pub open spec fn archive_path(file: Seq<char>) -> Seq<char> {
    if file.len() > 0 && file[0] == '/' {
        file
    } else {
        "OEBPS/"@ + file
    }
}

/// The names of the entries of a generated EPUB, in order: the container files that
/// `ZipLibrary::new` and `EpubBuilder::new` write, one per document, then the stylesheet,
/// package, table of contents and navigation files that `generate` writes.
pub open spec fn epub_entry_names(docs: Seq<DocumentView>) -> Seq<Seq<u8>> {
    seq![
        encode_utf8("mimetype"@),
        encode_utf8("META-INF/container.xml"@),
        encode_utf8("META-INF/com.apple.ibooks.display-options.xml"@),
    ] + docs.map_values(|d: DocumentView| encode_utf8(archive_path(d.0))) + seq![
        encode_utf8("OEBPS/stylesheet.css"@),
        encode_utf8("OEBPS/content.opf"@),
        encode_utf8("OEBPS/toc.ncx"@),
        encode_utf8("OEBPS/nav.xhtml"@),
    ]
}

/// The text holds no line break.
pub open spec fn single_line(s: Seq<char>) -> bool {
    forall|i: int| 0 <= i < s.len() ==> #[trigger] s[i] != '\n' && s[i] != '\r'
}

/// A file name that every platform joins under `OEBPS/` alike: no `\` (a separator on
/// Windows, where the zip library turns it into `/`), no `:` (a drive prefix there) and
/// no line break.
pub open spec fn portable_file_name(s: Seq<char>) -> bool {
    &&& single_line(s)
    &&& forall|i: int| 0 <= i < s.len() ==> #[trigger] s[i] != '\\' && s[i] != ':'
}

/// The documents fit the archive's layout: portable file names whose archive paths fit
/// the 16-bit name length of a zip header, and titles on one line.
pub open spec fn docs_fit_archive(docs: Seq<DocumentView>) -> bool {
    forall|i: int|
        0 <= i < docs.len() ==> {
            let d = #[trigger] docs[i];
            &&& encode_utf8(archive_path(d.0)).len() <= 0xFFFF
            &&& portable_file_name(d.0)
            &&& single_line(d.2)
        }
}

/// A document's entry holds the document's text, where the entry is stored (method 0).
pub open spec fn entry_holds(e: (Seq<u8>, int, Seq<u8>), d: DocumentView) -> bool {
    e.1 == 0 ==> e.2 == encode_utf8(d.1)
}

/// The word that the package's guide uses for a reference type.
pub open spec fn reference_word(r: ReferenceType) -> Seq<char> {
    match r {
        ReferenceType::Cover => "cover"@,
        ReferenceType::TitlePage => "title-page"@,
        ReferenceType::Toc => "toc"@,
        ReferenceType::Text => "text"@,
    }
}

/// The text with each `"` written as `&quot;`.
pub open spec fn escape_quotes(s: Seq<char>) -> Seq<char>
    decreases s.len(),
{
    if s.len() == 0 {
        Seq::empty()
    } else {
        (if s[0] == '"' {
            "&quot;"@
        } else {
            seq![s[0]]
        }) + escape_quotes(s.drop_first())
    }
}

/// The line of the package's guide that lists a document: its kind, title and file.
pub open spec fn guide_reference(d: DocumentView) -> Seq<char> {
    "<reference type=\""@ + reference_word(d.3) + "\" title=\""@ + escape_quotes(d.2)
        + "\" href=\""@ + d.0 + "\"/>"@
}

/// `needle` occurs in `hay`.
pub open spec fn holds_bytes(hay: Seq<u8>, needle: Seq<u8>) -> bool {
    exists|k: int| 0 <= k && k + needle.len() <= hay.len() && #[trigger] hay.subrange(k, k + needle.len()) == needle
}

/// The package entry, where stored, lists the document in its guide.
pub open spec fn guide_lists(e: (Seq<u8>, int, Seq<u8>), d: DocumentView) -> bool {
    e.1 == 0 ==> holds_bytes(e.2, encode_utf8(guide_reference(d)))
}

/// The bytes are a zip archive whose entries are those of an EPUB with these documents,
/// in order; each stored document entry holds its document's text, and the stored
/// package file lists each document's kind, title and file in its guide.
pub open spec fn archive_holds(bytes: Seq<u8>, docs: Seq<DocumentView>) -> bool {
    let es = zip_entries_from(bytes, 0);
    &&& es.len() == docs.len() + 7
    &&& es.map_values(|e: (Seq<u8>, int, Seq<u8>)| e.0) == epub_entry_names(docs)
    &&& forall|i: int| 0 <= i < docs.len() ==> entry_holds(es[i + 3], #[trigger] docs[i])
    &&& forall|i: int| 0 <= i < docs.len() ==> guide_lists(es[docs.len() + 4int], #[trigger] docs[i])
}

/// Calls `epub_builder::EpubBuilder::generate` into a fresh buffer and returns the
/// buffer. Claims:
/// - the documents are unchanged, and the archive is finished after a success;
/// - it succeeds when the archive is open and the documents' weight is within
///   `book_limit` (then every file it writes stays far under 4 GiB), and fails when the
///   archive is not open;
/// - on success the buffer is the whole zip archive, which `ZipLibrary::new` began with
///   the stored `mimetype` entry (8-byte name, no extra field, as `FileOptions::default`
///   is not a large file);
/// - where the documents fit the archive's layout, the local file headers list the
///   entries that `ZipLibrary::new`, `EpubBuilder::new`, each `add_content` and
///   `generate` wrote, in that order (each header carries its name and, rewritten when
///   the entry ends, its compressed size); a stored document entry holds the bytes of
///   the document's text; and the stored `content.opf` holds each document's line of
///   the guide (`indent` keeps a line without line breaks whole).
/// Nothing is stated of the table of contents, the navigation file, or the header
/// fields that carry the time and the random identifier.
#[verifier::external_body]
fn generate_epub(book: &mut EpubBook) -> (r: Result<Vec<u8>, epub_builder::Error>)
    ensures
        epub_documents(*final(book)) == epub_documents(*old(book)),
        r is Ok ==> !epub_open(*final(book)),
        epub_open(*old(book)) && docs_weight(epub_documents(*old(book))) <= book_limit() ==> r is Ok,
        !epub_open(*old(book)) ==> r is Err,
        r matches Ok(bytes) ==> is_epub_container(bytes@),
        r matches Ok(bytes) ==> docs_fit_archive(epub_documents(*old(book))) ==> archive_holds(
            bytes@,
            epub_documents(*old(book)),
        ),
{
    let mut out: Vec<u8> = Vec::new();
    book.builder.generate(&mut out).map(|_| out)
}

/// The text before a chapter's contents in its XHTML document.
pub const XHTML_HEAD: &'static str = "<?xml version=\"1.0\" encoding=\"UTF-8\"?>\n\t\t<html xmlns=\"http://www.w3.org/1999/xhtml\" xmlns:epub=\"http://www.idpf.org/2007/ops\">\n\t\t\n\t\t<body>\n\t\t";

/// The text after a chapter's contents in its XHTML document.
pub const XHTML_TAIL: &'static str = "\n\t\t</body>\n\t\t</html>";

/// A chapter's XHTML document around its saved contents.
pub open spec fn xhtml_wrap(content: Seq<char>) -> Seq<char> {
    XHTML_HEAD@ + content + XHTML_TAIL@
}

/// The document a chapter becomes in the book: file `name.xhtml`, its XHTML document,
/// titled `name`, of the kind `Text`.
pub open spec fn chapter_entry(name: Seq<char>, content: Seq<char>) -> DocumentView {
    (name + ".xhtml"@, xhtml_wrap(content), name, ReferenceType::Text)
}

/// The documents of a novel's book: one per chapter, in the chapters' order.
pub open spec fn book_entries(chapters: Seq<Chapter>, contents: Seq<Seq<char>>) -> Seq<DocumentView>
    recommends
        chapters.len() == contents.len(),
{
    Seq::new(chapters.len(), |i: int| chapter_entry(chapters[i].name@, contents[i]))
}

/// Every chapter's XHTML document is within the size a book is owed to take.
pub open spec fn contents_fit(contents: Seq<Seq<char>>) -> bool {
    forall|i: int|
        0 <= i < contents.len() ==> encode_utf8(xhtml_wrap(#[trigger] contents[i])).len()
            <= entry_limit()
}

/// Wraps a chapter's saved contents into an XHTML document.
pub fn xhtml_page(content: &str) -> (r: String)
    ensures
        r@ == xhtml_wrap(content@),
{
    let mut r = XHTML_HEAD.to_string();
    r.append(content);
    r.append(XHTML_TAIL);
    r
}

/// The file a novel's book is written to.
pub fn epub_path(title: &str) -> (r: String)
    ensures
        r@ == "./"@ + title@ + ".epub"@,
{
    let mut r = "./".to_string();
    r.append(title);
    r.append(".epub");
    r
}

impl EpubBook {
    /// The documents of the book, in order: file name, text, title, kind.
    pub open spec fn documents(&self) -> Seq<DocumentView> {
        epub_documents(*self)
    }

    /// Whether the book can still take documents and be generated.
    pub open spec fn is_open(&self) -> bool {
        epub_open(*self)
    }

    /// A book without documents.
    pub fn new() -> (r: Result<EpubBook, EpubError>)
        ensures
            r is Ok,
            r matches Ok(b) ==> b.documents() == Seq::<DocumentView>::empty() && b.is_open(),
    {
        let zip = match new_zip_library() {
            Ok(z) => z,
            Err(e) => {
                return Err(EpubError::Builder(e));
            },
        };
        match new_book(zip) {
            Ok(book) => Ok(book),
            Err(e) => Err(EpubError::Builder(e)),
        }
    }

    /// Adds a chapter: its contents wrapped as XHTML, under the file `name.xhtml`,
    /// titled `name`, of the kind `Text`.
    pub fn add_chapter(&mut self, name: &str, content: &str) -> (r: Result<(), EpubError>)
        ensures
            r is Ok ==> final(self).documents() == old(self).documents().push(
                chapter_entry(name@, content@),
            ),
            r is Err ==> final(self).documents() == old(self).documents(),
            old(self).is_open() && encode_utf8(xhtml_wrap(content@)).len() <= entry_limit()
                ==> r is Ok && final(self).is_open(),
            !old(self).is_open() ==> r is Err,
    {
        let mut file_name = name.to_string();
        file_name.append(".xhtml");
        let page = xhtml_page(content);
        match add_xhtml_content(
            self,
            file_name,
            page.as_str(),
            name.to_string(),
            ReferenceType::Text,
        ) {
            Ok(()) => Ok(()),
            Err(e) => Err(EpubError::Builder(e)),
        }
    }

    /// The bytes of the EPUB file; the book is finished afterwards.
    pub fn generate(&mut self) -> (r: Result<Vec<u8>, EpubError>)
        ensures
            final(self).documents() == old(self).documents(),
            r is Ok ==> !final(self).is_open(),
            old(self).is_open() && docs_weight(old(self).documents()) <= book_limit() ==> r is Ok,
            !old(self).is_open() ==> r is Err,
            r matches Ok(bytes) ==> is_epub_container(bytes@),
            r matches Ok(bytes) ==> docs_fit_archive(old(self).documents()) ==> archive_holds(
                bytes@,
                old(self).documents(),
            ),
    {
        match generate_epub(self) {
            Ok(bytes) => Ok(bytes),
            Err(e) => Err(EpubError::Builder(e)),
        }
    }
}

/// The book of a novel: one document per chapter, in order, holding the chapter's saved
/// contents (`contents[i]` is what was saved for `novel.chapters[i]`). It is built, and
/// stays open, when every chapter's document is within the size a book is owed to take.
pub fn build_book(novel: &Novel, contents: &Vec<String>) -> (r: Result<EpubBook, EpubError>)
    requires
        contents.len() == novel.chapters.len(),
    ensures
        r matches Ok(b) ==> b.documents() == book_entries(novel.chapters@, string_views(contents@)),
        contents_fit(string_views(contents@)) ==> r is Ok,
        contents_fit(string_views(contents@)) ==> (r matches Ok(b) ==> b.is_open()),
{
    let mut book = EpubBook::new()?;
    let ghost views = string_views(contents@);
    for i in 0..novel.chapters.len()
        invariant
            contents.len() == novel.chapters.len(),
            views == string_views(contents@),
            book.documents() == book_entries(novel.chapters@.take(i as int), views.take(i as int)),
            contents_fit(views) ==> book.is_open(),
    {
        let ghost before = book.documents();
        proof {
            if contents_fit(views) {
                assert(encode_utf8(xhtml_wrap(views[i as int])).len() <= entry_limit());
                assert(views[i as int] == contents@[i as int]@);
            }
        }
        book.add_chapter(novel.chapters[i].name.as_str(), contents[i].as_str())?;
        assert(book_entries(novel.chapters@.take(i + 1), views.take(i + 1)) =~= before.push(
            chapter_entry(novel.chapters@[i as int].name@, contents@[i as int]@),
        ));
    }
    assert(novel.chapters@.take(novel.chapters.len() as int) =~= novel.chapters@);
    assert(views.take(contents.len() as int) =~= views);
    Ok(book)
}

/// The bytes of a novel's EPUB file (`contents[i]` is what was saved for
/// `novel.chapters[i]`): an archive with one entry per chapter, in order, named after
/// the chapter and holding its XHTML document, with each chapter's title and kind in the
/// package's guide. It is made when the chapters' documents are within the sizes the
/// builder is owed to handle; otherwise the builder's error is passed on.
pub fn create_epub(novel: &Novel, contents: &Vec<String>) -> (r: Result<Vec<u8>, EpubError>)
    requires
        contents.len() == novel.chapters.len(),
    ensures
        contents_fit(string_views(contents@)) && docs_weight(
            book_entries(novel.chapters@, string_views(contents@)),
        ) <= book_limit() ==> r is Ok,
        r matches Ok(bytes) ==> is_epub_container(bytes@),
        r matches Ok(bytes) ==> docs_fit_archive(
            book_entries(novel.chapters@, string_views(contents@)),
        ) ==> archive_holds(bytes@, book_entries(novel.chapters@, string_views(contents@))),
{
    let mut book = build_book(novel, contents)?;
    book.generate()
}

/// A text without `"` is written into the guide as it is.
pub proof fn lemma_escape_quotes_plain(s: Seq<char>)
    requires
        forall|i: int| 0 <= i < s.len() ==> #[trigger] s[i] != '"',
    ensures
        escape_quotes(s) == s,
    decreases s.len(),
{
    if s.len() > 0 {
        let t = s.drop_first();
        assert forall|i: int| 0 <= i < t.len() implies #[trigger] t[i] != '"' by {
            assert(t[i] == s[i + 1]);
        }
        lemma_escape_quotes_plain(t);
        assert(seq![s[0]] + t =~= s);
    }
}

/// Each chapter becomes one document of the book, in the chapters' order: titled with
/// the chapter's full name, stored under that name with `.xhtml`, of the kind `Text`,
/// with the chapter's contents verbatim after the XHTML head; a name without `"` is
/// listed in the package's guide with its whole name as the title.
pub proof fn lemma_chapter_documents(chapters: Seq<Chapter>, contents: Seq<Seq<char>>)
    requires
        chapters.len() == contents.len(),
    ensures
        book_entries(chapters, contents).len() == chapters.len(),
        forall|i: int|
            0 <= i < chapters.len() ==> {
                let d = #[trigger] book_entries(chapters, contents)[i];
                &&& d.2 == chapters[i].name@
                &&& d.0 == chapters[i].name@ + ".xhtml"@
                &&& d.3 == ReferenceType::Text
                &&& d.1.subrange(
                    XHTML_HEAD@.len() as int,
                    XHTML_HEAD@.len() + contents[i].len() as int,
                ) == contents[i]
                &&& (forall|j: int|
                    0 <= j < chapters[i].name@.len() ==> #[trigger] chapters[i].name@[j] != '"')
                    ==> guide_reference(d) == "<reference type=\""@ + "text"@ + "\" title=\""@
                    + chapters[i].name@ + "\" href=\""@ + chapters[i].name@ + ".xhtml"@
                    + "\"/>"@
            },
{
    assert forall|i: int| 0 <= i < chapters.len() implies {
        let d = #[trigger] book_entries(chapters, contents)[i];
        &&& d.2 == chapters[i].name@
        &&& d.0 == chapters[i].name@ + ".xhtml"@
        &&& d.3 == ReferenceType::Text
        &&& d.1.subrange(XHTML_HEAD@.len() as int, XHTML_HEAD@.len() + contents[i].len() as int)
            == contents[i]
        &&& (forall|j: int|
            0 <= j < chapters[i].name@.len() ==> #[trigger] chapters[i].name@[j] != '"')
            ==> guide_reference(d) == "<reference type=\""@ + "text"@ + "\" title=\""@
            + chapters[i].name@ + "\" href=\""@ + chapters[i].name@ + ".xhtml"@ + "\"/>"@
    } by {
        let d = book_entries(chapters, contents)[i];
        let c = contents[i];
        assert(d.1 == XHTML_HEAD@ + c + XHTML_TAIL@);
        assert(d.1.subrange(XHTML_HEAD@.len() as int, XHTML_HEAD@.len() + c.len() as int) =~= c);
        if forall|j: int| 0 <= j < chapters[i].name@.len() ==> #[trigger] chapters[i].name@[j]
            != '"' {
            lemma_escape_quotes_plain(chapters[i].name@);
        }
    }
}

} // verus!
