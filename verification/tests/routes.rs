use pdf_viewer::routes::main_page::{get_template, messages, MainTemplate};
use pdf_viewer::routes::set_page::{
    record_turn, record_turn_at, set_page, set_page_at, turn_page, turn_page_at, SetPageData,
};
use pdf_viewer::routes::stats::{Moment, ReadCategory, ReadingEvent, ReadingStatistics};
use pdf_viewer::routes::status::status;
use pdf_viewer::routes::view_pdf::{view_pdf, view_pdf_at};
use pdf_viewer::routes::RouteError;
use pdf_viewer::state::{AccessTime, Pdf, PdfCollection};

const NOW: Moment = Moment { secs: 1_700_000_000, nanos: 0 };

fn registry() -> PdfCollection {
    let mut c = PdfCollection::new();
    c.add_book(Pdf::discovered("alpha".to_string(), "content/alpha.pdf".to_string(), Some(50)));
    c.add_book(Pdf::discovered("beta".to_string(), "content/beta.pdf".to_string(), Some(20)));
    c
}

fn request(name: &str, page: u16) -> SetPageData {
    SetPageData { token: "t".to_string(), pdf_name: name.to_string(), new_page: page }
}

fn stamp() -> AccessTime {
    AccessTime::Once("2024-03-04 05:06:07".to_string())
}

#[test]
fn forward_move_is_one_reading_event() {
    let mut c = registry();
    let mut h = ReadingStatistics::new();
    assert_eq!(set_page_at("alpha.pdf", &request("alpha", 5), &mut c, &mut h, stamp(), NOW), Ok(()));
    let alpha = c.get_book_by_name("alpha").unwrap();
    assert_eq!(alpha.current_page(), 5);
    assert_eq!(alpha.last_access().to_string(), "2024-03-04 05:06:07");
    assert_eq!(h.events(), vec![ReadingEvent { time: NOW, validity: ReadCategory::Day }]);
    assert_eq!(c.get_book_by_name("beta").unwrap().last_access().to_string(), "never");
}

#[test]
fn backward_or_lateral_move_is_no_reading_event() {
    let mut c = registry();
    let mut h = ReadingStatistics::new();
    c.set_page_by_name("alpha", 10);
    assert_eq!(set_page_at("alpha", &request("alpha", 10), &mut c, &mut h, stamp(), NOW), Ok(()));
    assert_eq!(set_page_at("alpha", &request("alpha", 3), &mut c, &mut h, stamp(), NOW), Ok(()));
    assert_eq!(c.get_book_by_name("alpha").unwrap().current_page(), 3);
    assert!(h.events().is_empty());
    assert_eq!(set_page_at("alpha", &request("alpha", 4), &mut c, &mut h, stamp(), NOW), Ok(()));
    assert_eq!(h.events().len(), 1);
}

#[test]
fn missing_body_name_changes_nothing() {
    let mut c = registry();
    let mut h = ReadingStatistics::new();
    assert_eq!(
        set_page_at("alpha", &request("gamma", 5), &mut c, &mut h, stamp(), NOW),
        Err(RouteError::NotFound)
    );
    let alpha = c.get_book_by_name("alpha").unwrap();
    assert_eq!(alpha.current_page(), 1);
    assert_eq!(alpha.last_access().to_string(), "never");
    assert!(h.events().is_empty());
}

#[test]
fn missing_route_name_records_only_the_opening() {
    let mut c = registry();
    let mut h = ReadingStatistics::new();
    assert_eq!(
        set_page_at("gamma", &request("alpha", 5), &mut c, &mut h, stamp(), NOW),
        Err(RouteError::NotFound)
    );
    let alpha = c.get_book_by_name("alpha").unwrap();
    assert_eq!(alpha.current_page(), 1);
    assert_eq!(alpha.last_access().to_string(), "2024-03-04 05:06:07");
    assert!(h.events().is_empty());
}

#[test]
fn old_page_is_that_of_the_body_name() {
    let mut c = registry();
    c.set_page_by_name("alpha", 30);
    c.set_page_by_name("beta", 2);
    assert_eq!(turn_page_at(&mut c, "beta", &request("alpha", 10), stamp()), Ok(30));
    assert_eq!(c.get_book_by_name("beta").unwrap().current_page(), 10);
    assert_eq!(c.get_book_by_name("alpha").unwrap().current_page(), 30);
    assert_eq!(c.get_book_by_name("alpha").unwrap().last_access().to_string(), "2024-03-04 05:06:07");
    assert_eq!(c.get_book_by_name("beta").unwrap().last_access().to_string(), "never");
}

#[test]
fn recorded_turn_refreshes_the_log() {
    let mut h = ReadingStatistics::from_events(vec![
        ReadingEvent { time: Moment::new(NOW.secs - 50 * 86_400, 0), validity: ReadCategory::Day },
        ReadingEvent { time: Moment::new(NOW.secs - 2 * 86_400, 0), validity: ReadCategory::Day },
    ]);
    record_turn_at(&mut h, 5, 5, NOW);
    assert_eq!(h.events().len(), 2);
    record_turn_at(&mut h, 5, 4, NOW);
    assert_eq!(h.events().len(), 2);
    record_turn_at(&mut h, 5, 6, NOW);
    assert_eq!(
        h.events(),
        vec![
            ReadingEvent { time: Moment::new(NOW.secs - 2 * 86_400, 0), validity: ReadCategory::Week },
            ReadingEvent { time: NOW, validity: ReadCategory::Day },
        ]
    );
}

#[test]
fn set_page_by_the_clock() {
    let mut c = registry();
    let mut h = ReadingStatistics::new();
    assert_eq!(set_page("alpha", &request("alpha", 2), &mut c, &mut h), Ok(()));
    assert_eq!(c.get_book_by_name("alpha").unwrap().current_page(), 2);
    assert!(matches!(c.get_book_by_name("alpha").unwrap().last_access(), AccessTime::Once(_)));
    assert_eq!((h.last_day(), h.last_week(), h.last_month()), (1, 0, 0));
    assert_eq!(set_page("nope", &request("nope", 2), &mut c, &mut h), Err(RouteError::NotFound));
    assert_eq!(h.events().len(), 1);
}

#[test]
fn viewing_opens_the_document() {
    let mut c = registry();
    c.set_page_by_name("beta", 11);
    assert_eq!(view_pdf_at("beta.pdf", &mut c, stamp()), Ok(11));
    assert_eq!(c.get_book_by_name("beta").unwrap().last_access().to_string(), "2024-03-04 05:06:07");
    assert_eq!(c.get_book_by_name("beta").unwrap().current_page(), 11);
    assert_eq!(view_pdf_at("gamma", &mut c, stamp()), Err(RouteError::NotFound));
    assert_eq!(c.pdfs().len(), 2);
    assert_eq!(view_pdf("alpha", &mut c), Ok(1));
    assert!(matches!(c.get_book_by_name("alpha").unwrap().last_access(), AccessTime::Once(_)));
    assert_eq!(view_pdf("gamma", &mut c), Err(RouteError::NotFound));
}

#[test]
fn status_is_the_page_or_minus_one() {
    let mut c = registry();
    c.set_page_by_name("alpha", 65535);
    assert_eq!(status("alpha", &c), 65535);
    assert_eq!(status("beta.pdf", &c), 1);
    assert_eq!(status("gamma", &c), -1);
}

#[test]
fn overview_sorts_by_total_pages() {
    let mut c = PdfCollection::new();
    for (name, pages) in [("e", 30usize), ("a", 10), ("d", 20), ("b", 10), ("c", 5)] {
        c.add_book(Pdf::discovered(name.to_string(), format!("{name}.pdf"), Some(pages)));
    }
    let h = ReadingStatistics::from_events(vec![
        ReadingEvent { time: NOW, validity: ReadCategory::Day },
        ReadingEvent { time: NOW, validity: ReadCategory::Month },
        ReadingEvent { time: NOW, validity: ReadCategory::Day },
    ]);
    let t = get_template(&c, &h);
    let shown: Vec<(String, u16)> =
        t.pdfs().iter().map(|p| (p.name().to_string(), p.total_pages())).collect();
    assert_eq!(
        shown,
        vec![
            ("c".to_string(), 5),
            ("a".to_string(), 10),
            ("b".to_string(), 10),
            ("d".to_string(), 20),
            ("e".to_string(), 30),
        ]
    );
    assert_eq!((t.today(), t.week(), t.month()), (2, 0, 1));
    assert!(messages().iter().any(|m| m == t.message()));
}

#[test]
fn default_overview_is_empty_under_a_greeting() {
    assert_eq!(
        messages(),
        vec!["WOW", "study!", "stuDYING", "read!", "Reading is cool!", "Reading is radical!"]
    );
    let mut seen = std::collections::BTreeSet::new();
    for _ in 0..400 {
        let t = MainTemplate::default();
        assert!(t.pdfs().is_empty());
        assert_eq!((t.today(), t.week(), t.month()), (0, 0, 0));
        assert!(messages().iter().any(|m| m == t.message()));
        seen.insert(t.message().to_string());
    }
    assert!(seen.len() > 1);
}

#[test]
fn overview_from_parts() {
    let t = MainTemplate::new(
        vec![Pdf::discovered("a".to_string(), "a.pdf".to_string(), Some(2))],
        1,
        2,
        3,
        "hello".to_string(),
    );
    assert_eq!(t.pdfs().len(), 1);
    assert_eq!(t.pdfs()[0].name(), "a");
    assert_eq!((t.today(), t.week(), t.month()), (1, 2, 3));
    assert_eq!(t.message(), "hello");
}

#[test]
fn turn_and_record_by_the_clock() {
    let mut c = registry();
    let mut h = ReadingStatistics::new();
    assert_eq!(turn_page(&mut c, "alpha", &request("alpha", 9)), Ok(1));
    assert_eq!(c.get_book_by_name("alpha").unwrap().current_page(), 9);
    assert!(matches!(c.get_book_by_name("alpha").unwrap().last_access(), AccessTime::Once(_)));
    assert_eq!(turn_page(&mut c, "alpha", &request("nope", 9)), Err(RouteError::NotFound));
    record_turn(&mut h, 1, 9);
    assert_eq!((h.last_day(), h.last_week(), h.last_month()), (1, 0, 0));
    record_turn(&mut h, 9, 9);
    record_turn(&mut h, 9, 2);
    assert_eq!(h.events().len(), 1);
}
