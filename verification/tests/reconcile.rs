use lopdf::{Dictionary, Document, Object};
use pdf_viewer::persistence::{is_wanted, sync_entry, sync_files, sync_state, DiscState, SourceFile};
use pdf_viewer::routes::stats::{Moment, ReadCategory, ReadingEvent, ReadingStatistics};
use pdf_viewer::state::{AccessTime, Pdf, PdfCollection};

fn name_object(name: &str) -> Object {
    Object::Name(name.as_bytes().to_vec())
}

fn pdf_with_pages(n: usize) -> Vec<u8> {
    let mut doc = Document::with_version("1.5");
    let pages_id = doc.new_object_id();
    let mut kids = Vec::new();
    for _ in 0..n {
        let mut page = Dictionary::new();
        page.set("Type", name_object("Page"));
        page.set("Parent", Object::Reference(pages_id));
        let id = doc.add_object(Object::Dictionary(page));
        kids.push(Object::Reference(id));
    }
    let mut pages = Dictionary::new();
    pages.set("Type", name_object("Pages"));
    pages.set("Kids", Object::Array(kids));
    pages.set("Count", Object::Integer(n as i64));
    doc.objects.insert(pages_id, Object::Dictionary(pages));
    let mut catalog = Dictionary::new();
    catalog.set("Type", name_object("Catalog"));
    catalog.set("Pages", Object::Reference(pages_id));
    let catalog_id = doc.add_object(Object::Dictionary(catalog));
    doc.trailer.set("Root", Object::Reference(catalog_id));
    let mut out = Vec::new();
    doc.save_to(&mut out).unwrap();
    out
}

fn file(path: &str, content: &[u8]) -> SourceFile {
    SourceFile { path: path.to_string(), content: content.to_vec() }
}

fn summary(c: &PdfCollection) -> Vec<(String, String, u16, u16, String)> {
    let mut all: Vec<(String, String, u16, u16, String)> = c
        .pdfs()
        .iter()
        .map(|p| {
            (
                p.name().to_string(),
                p.path().clone(),
                p.current_page(),
                p.total_pages(),
                p.last_access().to_string(),
            )
        })
        .collect();
    all.sort();
    all
}

#[test]
fn new_document_is_named_by_the_stem_and_counts_its_pages() {
    let p = Pdf::new("content/alpha.pdf".to_string(), &pdf_with_pages(3));
    assert_eq!(p.name(), "alpha");
    assert_eq!(p.path().as_str(), "content/alpha.pdf");
    assert_eq!(p.current_page(), 1);
    assert_eq!(p.total_pages(), 3);
    assert!(matches!(p.last_access(), AccessTime::Never));
    assert_eq!(Pdf::new("a.pdf".to_string(), &pdf_with_pages(1)).total_pages(), 1);
    assert_eq!(Pdf::new("a.pdf".to_string(), &pdf_with_pages(12)).total_pages(), 12);
}

#[test]
fn unreadable_source_gets_the_placeholder() {
    let p = Pdf::new("content/broken.pdf".to_string(), b"this is no document");
    assert_eq!(p.name(), "broken");
    assert_eq!(p.total_pages(), 1);
    assert_eq!(p.current_page(), 1);
    let q = Pdf::new("content/empty.pdf".to_string(), &[]);
    assert_eq!(q.total_pages(), 1);
    let r = Pdf::new("content/none.pdf".to_string(), &pdf_with_pages(0));
    assert_eq!(r.total_pages(), 1);
}

#[test]
fn stem_is_the_file_name_without_its_last_extension() {
    let name = |path: &str| Pdf::try_new(path.to_string(), &[]).map(|p| p.name().to_string());
    assert_eq!(name("alpha.pdf"), Some("alpha".to_string()));
    assert_eq!(name("/srv/books/alpha.pdf"), Some("alpha".to_string()));
    assert_eq!(name("books/a.b.pdf"), Some("a.b".to_string()));
    assert_eq!(name("books/x.pdf.pdf"), Some("x.pdf".to_string()));
    assert_eq!(name("books/plain"), Some("plain".to_string()));
    assert_eq!(name("books/.hidden"), Some(".hidden".to_string()));
    assert_eq!(name("books/alpha.pdf/"), Some("alpha".to_string()));
    assert_eq!(name("/"), None);
    assert_eq!(name(""), None);
    assert_eq!(name("books/.."), None);
}

#[test]
fn wanted_goes_by_extension_and_registry() {
    let mut c = PdfCollection::new();
    assert!(is_wanted(&c, "content/alpha.pdf"));
    assert!(is_wanted(&c, "alpha.pdf"));
    assert!(!is_wanted(&c, "content/alpha.txt"));
    assert!(!is_wanted(&c, "content/alpha"));
    assert!(!is_wanted(&c, "content/alpha.PDF"));
    assert!(!is_wanted(&c, "content/alpha.pdf.bak"));
    assert!(!is_wanted(&c, "content/.pdf"));
    assert!(!is_wanted(&c, "content/pdf"));
    assert!(!is_wanted(&c, "/"));
    assert!(!is_wanted(&c, ""));
    c.add_book(Pdf::discovered("alpha".to_string(), "x".to_string(), None));
    assert!(!is_wanted(&c, "content/alpha.pdf"));
    assert!(!is_wanted(&c, "elsewhere/alpha.pdf"));
    assert!(is_wanted(&c, "content/beta.pdf"));
}

#[test]
fn one_cycle_adds_the_document_found() {
    let mut c = PdfCollection::new();
    let files = vec![file("content/alpha.pdf", &pdf_with_pages(5))];
    assert_eq!(sync_files(&mut c, &files), 1);
    assert!(c.has_book("alpha"));
    let alpha = c.get_book_by_name("alpha").unwrap();
    assert_eq!(alpha.current_page(), 1);
    assert_eq!(alpha.total_pages(), 5);
    assert_eq!(alpha.path().as_str(), "content/alpha.pdf");
    assert_eq!(c.set_page_by_name("alpha", 42), Some(()));
    assert_eq!(c.get_book_by_name("alpha").unwrap().current_page(), 42);
}

#[test]
fn second_cycle_changes_nothing() {
    let mut c = PdfCollection::new();
    let files = vec![
        file("content/alpha.pdf", &pdf_with_pages(5)),
        file("content/notes.txt", b"notes"),
        file("content/beta.pdf", b"broken"),
        file("other/alpha.pdf", &pdf_with_pages(9)),
        file("content/x.pdf.pdf", &pdf_with_pages(2)),
    ];
    assert_eq!(sync_files(&mut c, &files), 3);
    let first = summary(&c);
    assert_eq!(
        first,
        vec![
            ("alpha".to_string(), "content/alpha.pdf".to_string(), 1, 5, "never".to_string()),
            ("beta".to_string(), "content/beta.pdf".to_string(), 1, 1, "never".to_string()),
            ("x.pdf".to_string(), "content/x.pdf.pdf".to_string(), 1, 2, "never".to_string()),
        ]
    );
    sync_files(&mut c, &files);
    assert_eq!(summary(&c), first);
    sync_files(&mut c, &files);
    assert_eq!(summary(&c), first);
}

#[test]
fn second_cycle_keeps_the_page_reached() {
    let mut c = PdfCollection::new();
    let files = vec![file("content/alpha.pdf", &pdf_with_pages(5))];
    sync_files(&mut c, &files);
    c.set_page_by_name("alpha", 4);
    assert_eq!(sync_files(&mut c, &files), 0);
    assert_eq!(c.get_book_by_name("alpha").unwrap().current_page(), 4);
    assert_eq!(c.pdfs().len(), 1);
}

#[test]
fn sync_entry_says_whether_it_added() {
    let mut c = PdfCollection::new();
    assert!(sync_entry(&mut c, "content/alpha.pdf".to_string(), &pdf_with_pages(2)));
    assert!(!sync_entry(&mut c, "content/alpha.pdf".to_string(), &pdf_with_pages(7)));
    assert!(!sync_entry(&mut c, "content/readme.md".to_string(), b"text"));
    assert_eq!(c.pdfs().len(), 1);
    assert_eq!(c.get_book_by_name("alpha").unwrap().total_pages(), 2);
}

#[test]
fn vanished_file_leaves_its_document() {
    let mut c = PdfCollection::new();
    sync_files(&mut c, &vec![file("content/alpha.pdf", b"x"), file("content/beta.pdf", b"y")]);
    sync_files(&mut c, &vec![file("content/beta.pdf", b"y")]);
    assert!(c.has_book("alpha"));
    assert!(c.has_book("beta"));
}

#[test]
fn empty_state_holds_nothing() {
    let s = DiscState::empty();
    assert!(s.pdfs.pdfs().is_empty());
    assert!(s.reading_history.events().is_empty());
}

#[test]
fn snapshot_and_restore_keep_every_field() {
    let mut c = PdfCollection::new();
    c.add_book(Pdf::from_parts(
        AccessTime::Once("2024-02-03 04:05:06".to_string()),
        "alpha".to_string(),
        "content/alpha.pdf".to_string(),
        7,
        30,
    ));
    c.add_book(Pdf::discovered("beta".to_string(), "content/beta.pdf".to_string(), None));
    let events = vec![
        ReadingEvent { time: Moment::new(1_700_000_000, 5), validity: ReadCategory::Week },
        ReadingEvent { time: Moment::new(1_700_500_000, 6), validity: ReadCategory::Day },
    ];
    let h = ReadingStatistics::from_events(events.clone());
    let snap = DiscState::snapshot(&c, &h);
    c.set_page_by_name("alpha", 8);
    assert_eq!(snap.pdfs.get_book_by_name("alpha").unwrap().current_page(), 7);
    let back = DiscState::restore(snap.pdfs.pdfs(), snap.reading_history.events());
    assert_eq!(summary(&back.pdfs), summary(&snap.pdfs));
    assert_eq!(
        summary(&back.pdfs),
        vec![
            (
                "alpha".to_string(),
                "content/alpha.pdf".to_string(),
                7,
                30,
                "2024-02-03 04:05:06".to_string()
            ),
            ("beta".to_string(), "content/beta.pdf".to_string(), 1, 1, "never".to_string()),
        ]
    );
    assert_eq!(back.reading_history.events(), events);
}

#[test]
fn sync_state_reconciles_refreshes_and_snapshots() {
    let mut c = PdfCollection::new();
    let now = Moment::new(1_700_000_000, 0);
    let mut h = ReadingStatistics::from_events(vec![
        ReadingEvent { time: Moment::new(1_700_000_000 - 40 * 86_400, 0), validity: ReadCategory::Day },
        ReadingEvent { time: Moment::new(1_700_000_000 - 3 * 86_400, 0), validity: ReadCategory::Day },
    ]);
    let files = vec![file("content/alpha.pdf", &pdf_with_pages(4))];
    let state = sync_state(&files, &mut c, &mut h, now);
    assert!(c.has_book("alpha"));
    assert_eq!(
        h.events(),
        vec![ReadingEvent {
            time: Moment::new(1_700_000_000 - 3 * 86_400, 0),
            validity: ReadCategory::Week
        }]
    );
    assert_eq!(summary(&state.pdfs), summary(&c));
    assert_eq!(state.reading_history.events(), h.events());
    c.set_page_by_name("alpha", 2);
    assert_eq!(state.pdfs.get_book_by_name("alpha").unwrap().current_page(), 1);
}
