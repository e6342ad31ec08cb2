use lndown::crawler::{Chapter, Metadata, Novel};
use lndown::epub_util::{build_book, create_epub, epub_path, xhtml_page, EpubBook};
use lndown::wuxiaworldco::get_data;

fn novel() -> Novel {
    Novel {
        chapters: vec![
            Chapter { name: "Chapter 1".to_string(), url: "/n/1".to_string() },
            Chapter { name: "Chapter 2".to_string(), url: "/n/2".to_string() },
        ],
        metadata: Metadata { title: "N".to_string(), author: None, total_chapters: 2, status: None },
        selector: get_data(),
    }
}

#[test]
fn xhtml_page_wraps_content() {
    let expected = "<?xml version=\"1.0\" encoding=\"UTF-8\"?>\n\t\t<html xmlns=\"http://www.w3.org/1999/xhtml\" xmlns:epub=\"http://www.idpf.org/2007/ops\">\n\t\t\n\t\t<body>\n\t\t<h1>A</h1>\n\t\t</body>\n\t\t</html>";
    assert_eq!(xhtml_page("<h1>A</h1>"), expected);
}

#[test]
fn epub_path_of_title() {
    assert_eq!(epub_path("Martial God"), "./Martial God.epub");
}

#[test]
fn book_generates_a_zip() {
    let mut book = EpubBook::new().unwrap();
    book.add_chapter("Chapter 1", "<h1>Chapter 1</h1>").unwrap();
    let bytes = book.generate().unwrap();
    assert!(bytes.len() > 4);
    assert_eq!(&bytes[0..2], b"PK");
}

#[test]
fn create_epub_for_a_novel() {
    let contents = vec!["<h1>Chapter 1</h1>".to_string(), "<h1>Chapter 2</h1>".to_string()];
    let bytes = create_epub(&novel(), &contents).unwrap();
    assert_eq!(&bytes[0..2], b"PK");
    let text = String::from_utf8_lossy(&bytes);
    assert!(text.contains("Chapter 2.xhtml"));
}

#[test]
fn build_book_for_a_novel() {
    let contents = vec!["a".to_string(), "b".to_string()];
    let mut book = build_book(&novel(), &contents).unwrap();
    assert!(book.generate().is_ok());
}

#[test]
fn epub_bytes_open_with_the_mimetype_entry() {
    let contents = vec!["a".to_string(), "b".to_string()];
    let bytes = create_epub(&novel(), &contents).unwrap();
    assert_eq!(&bytes[0..4], b"PK\x03\x04");
    assert_eq!(&bytes[30..38], b"mimetype");
    assert_eq!(&bytes[38..58], b"application/epub+zip");
    let mut book = EpubBook::new().unwrap();
    let generated = book.generate().unwrap();
    assert_eq!(&generated[30..58], b"mimetypeapplication/epub+zip");
}

fn le16(b: &[u8], i: usize) -> usize {
    b[i] as usize + 256 * b[i + 1] as usize
}

fn le32(b: &[u8], i: usize) -> usize {
    le16(b, i) + 65536 * le16(b, i + 2)
}

/// (name, method, data) of each local file header, in order.
fn zip_entries(b: &[u8]) -> Vec<(String, usize, Vec<u8>)> {
    let mut out = vec![];
    let mut off = 0;
    while off + 30 <= b.len() && &b[off..off + 4] == b"PK\x03\x04" {
        let n = le16(b, off + 26);
        let start = off + 30 + n + le16(b, off + 28);
        let next = start + le32(b, off + 18);
        out.push((
            String::from_utf8(b[off + 30..off + 30 + n].to_vec()).unwrap(),
            le16(b, off + 8),
            b[start..next].to_vec(),
        ));
        off = next;
    }
    out
}

#[test]
fn epub_holds_one_entry_per_chapter_in_order() {
    let contents = vec!["<h1>Chapter 1</h1>".to_string(), "<h1>Chapter 2</h1>".to_string()];
    let bytes = create_epub(&novel(), &contents).unwrap();
    let entries = zip_entries(&bytes);
    let names: Vec<&str> = entries.iter().map(|e| e.0.as_str()).collect();
    assert_eq!(
        names,
        vec![
            "mimetype",
            "META-INF/container.xml",
            "META-INF/com.apple.ibooks.display-options.xml",
            "OEBPS/Chapter 1.xhtml",
            "OEBPS/Chapter 2.xhtml",
            "OEBPS/stylesheet.css",
            "OEBPS/content.opf",
            "OEBPS/toc.ncx",
            "OEBPS/nav.xhtml",
        ]
    );
    assert_eq!(entries[3].1, 0);
    assert_eq!(entries[3].2, xhtml_page("<h1>Chapter 1</h1>").into_bytes());
    assert_eq!(entries[4].2, xhtml_page("<h1>Chapter 2</h1>").into_bytes());
}

#[test]
fn package_guide_lists_title_and_kind() {
    let mut n = novel();
    n.chapters[1].name = "Say \"hi\"".to_string();
    let contents = vec!["a".to_string(), "b".to_string()];
    let bytes = create_epub(&n, &contents).unwrap();
    let entries = zip_entries(&bytes);
    assert_eq!(entries.len(), 9);
    let opf = &entries[6];
    assert_eq!(opf.0, "OEBPS/content.opf");
    assert_eq!(opf.1, 0);
    let text = String::from_utf8(opf.2.clone()).unwrap();
    assert!(text.contains("<reference type=\"text\" title=\"Chapter 1\" href=\"Chapter 1.xhtml\"/>"));
    assert!(text.contains(
        "<reference type=\"text\" title=\"Say &quot;hi&quot;\" href=\"Say \"hi\".xhtml\"/>"
    ));
}

#[test]
fn finished_book_takes_nothing_more() {
    let mut book = EpubBook::new().unwrap();
    assert!(book.generate().is_ok());
    assert!(book.generate().is_err());
    assert!(book.add_chapter("late", "x").is_err());
}
