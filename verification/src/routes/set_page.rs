//! Moving a reader to another page, and counting it as reading where the
//! reader moved forward.

use crate::routes::stats::{refreshed_events, Moment, ReadingEvent, ReadingStatistics};
use crate::routes::RouteError;
use crate::state::{
    is_time_text, lookup, page_set, replaced, AccessTime, PdfCollection, PdfView,
};
use vstd::prelude::*;

verus! {

/// What a request to set a page carries.
#[derive(Debug)]
pub struct SetPageData {
    /// The reader's token. Nothing is decided by it.
    pub token: String,
    /// The document whose last opening is recorded and whose old page is
    /// compared.
    pub pdf_name: String,
    /// The page to move to.
    pub new_page: u16,
}

/// Registry `m` after the document called `name` was opened at `when`; `m`
/// itself where there is no such document.
pub open spec fn opened(m: Map<Seq<char>, PdfView>, name: Seq<char>, when: Option<Seq<char>>) -> Map<
    Seq<char>,
    PdfView,
> {
    match lookup(m, name) {
        Some(d) => replaced(m, name, PdfView { last_access: when, ..d }),
        None => m,
    }
}

/// Registry `m` after a request to set a page: the document named in the
/// request's body is opened at `when`, then the one named in the route is
/// moved to `page`. Nothing changes where the first is missing, and only the
/// opening is recorded where the second is.
pub open spec fn page_turned(
    m: Map<Seq<char>, PdfView>,
    route: Seq<char>,
    body: Seq<char>,
    page: u16,
    when: Option<Seq<char>>,
) -> Map<Seq<char>, PdfView> {
    if lookup(m, body) is None {
        m
    } else {
        page_set(opened(m, body, when), route, page)
    }
}

/// The reading log after a reader went from page `old_page` to `new_page`
/// at `now`: with one fresh event, then refreshed, where the reader moved
/// forward; as it was where not.
pub open spec fn turn_recorded(
    s: Seq<ReadingEvent>,
    old_page: u16,
    new_page: u16,
    now: Moment,
) -> Seq<ReadingEvent> {
    if old_page < new_page {
        refreshed_events(s.push(ReadingEvent::fresh(now)), now)
    } else {
        s
    }
}

/// The registry's part of setting a page, with `when` as the time of the
/// opening. Returns the page the reader was on, or `NotFound` where either
/// name is missing.
pub fn turn_page_at(pdfs: &mut PdfCollection, pdf: &str, json: &SetPageData, when: AccessTime) -> (old_page:
    Result<u16, RouteError>)
    requires
        old(pdfs).wf(),
    ensures
        final(pdfs).wf(),
        final(pdfs)@ == page_turned(old(pdfs)@, pdf@, json.pdf_name@, json.new_page, when@),
        old_page is Ok <==> lookup(old(pdfs)@, json.pdf_name@) is Some && lookup(old(pdfs)@, pdf@)
            is Some,
        old_page matches Ok(page) ==> page == lookup(
            old(pdfs)@,
            json.pdf_name@,
        ).unwrap().current_page,
{
    let old_page: u16 = match pdfs.get_book_by_name_mut(json.pdf_name.as_str()) {
        Some(b) => {
            b.access_at(when);
            b.current_page()
        },
        None => {
            return Err(RouteError::NotFound);
        },
    };
    if pdfs.set_page_by_name(pdf, json.new_page).is_none() {
        return Err(RouteError::NotFound);
    }
    Ok(old_page)
}

/// The reading log's part of setting a page: a move forward is one reading
/// event at `now`, and the log is refreshed; any other move is none.
pub fn record_turn_at(state: &mut ReadingStatistics, old_page: u16, new_page: u16, now: Moment)
    ensures
        final(state)@ == turn_recorded(old(state)@, old_page, new_page, now),
{
    if old_page < new_page {
        state.increment_at(now);
        state.update_at(now);
    }
}

/// The registry's part of setting a page, with the opening timed by the
/// local clock: the time recorded is a date and time laid out year to
/// second.
pub fn turn_page(pdfs: &mut PdfCollection, pdf: &str, json: &SetPageData) -> (old_page: Result<
    u16,
    RouteError,
>)
    requires
        old(pdfs).wf(),
    ensures
        final(pdfs).wf(),
        exists|when: Option<Seq<char>>|
            {
                &&& when matches Some(text) && is_time_text(text)
                &&& final(pdfs)@ == #[trigger] page_turned(
                    old(pdfs)@,
                    pdf@,
                    json.pdf_name@,
                    json.new_page,
                    when,
                )
            },
        old_page is Ok <==> lookup(old(pdfs)@, json.pdf_name@) is Some && lookup(old(pdfs)@, pdf@)
            is Some,
        old_page matches Ok(page) ==> page == lookup(
            old(pdfs)@,
            json.pdf_name@,
        ).unwrap().current_page,
{
    turn_page_at(pdfs, pdf, json, AccessTime::now())
}

/// The reading log's part of setting a page, timed by the system clock.
pub fn record_turn(state: &mut ReadingStatistics, old_page: u16, new_page: u16)
    ensures
        exists|now: Moment|
            !now.in_leap_second() && final(state)@ == #[trigger] turn_recorded(
                old(state)@,
                old_page,
                new_page,
                now,
            ),
{
    record_turn_at(state, old_page, new_page, crate::routes::stats::clock_now());
}

/// Sets the page of the document named in the route, with `when` as the
/// time of the opening and `now` as the time of the reading event.
pub fn set_page_at(
    pdf: &str,
    json: &SetPageData,
    pdfs: &mut PdfCollection,
    state: &mut ReadingStatistics,
    when: AccessTime,
    now: Moment,
) -> (done: Result<(), RouteError>)
    requires
        old(pdfs).wf(),
    ensures
        final(pdfs).wf(),
        final(pdfs)@ == page_turned(old(pdfs)@, pdf@, json.pdf_name@, json.new_page, when@),
        done is Ok <==> lookup(old(pdfs)@, json.pdf_name@) is Some && lookup(old(pdfs)@, pdf@)
            is Some,
        done is Ok ==> final(state)@ == turn_recorded(
            old(state)@,
            lookup(old(pdfs)@, json.pdf_name@).unwrap().current_page,
            json.new_page,
            now,
        ),
        done is Err ==> final(state)@ == old(state)@,
{
    match turn_page_at(pdfs, pdf, json, when) {
        Ok(old_page) => {
            record_turn_at(state, old_page, json.new_page, now);
            Ok(())
        },
        Err(e) => Err(e),
    }
}

/// Sets the page of the document named in the route, timed by the system
/// clock: the opening is recorded as a date and time laid out year to
/// second, and a move forward as one reading event at the present moment.
pub fn set_page(
    pdf: &str,
    json: &SetPageData,
    pdfs: &mut PdfCollection,
    state: &mut ReadingStatistics,
) -> (done: Result<(), RouteError>)
    requires
        old(pdfs).wf(),
    ensures
        final(pdfs).wf(),
        exists|when: Option<Seq<char>>|
            {
                &&& when matches Some(text) && is_time_text(text)
                &&& final(pdfs)@ == #[trigger] page_turned(
                    old(pdfs)@,
                    pdf@,
                    json.pdf_name@,
                    json.new_page,
                    when,
                )
            },
        done is Ok <==> lookup(old(pdfs)@, json.pdf_name@) is Some && lookup(old(pdfs)@, pdf@)
            is Some,
        done is Ok ==> exists|now: Moment|
            !now.in_leap_second() && final(state)@ == #[trigger] turn_recorded(
                old(state)@,
                lookup(old(pdfs)@, json.pdf_name@).unwrap().current_page,
                json.new_page,
                now,
            ),
        done is Err ==> final(state)@ == old(state)@,
{
    let when: AccessTime = AccessTime::now();
    let now: Moment = crate::routes::stats::clock_now();
    set_page_at(pdf, json, pdfs, state, when, now)
}

} // verus!
