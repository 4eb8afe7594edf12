//! Opening a document for viewing.

use crate::routes::set_page::opened;
use crate::routes::RouteError;
use crate::state::{is_time_text, lookup, AccessTime, PdfCollection};
use vstd::prelude::*;

verus! {

/// Opens the document called `pdf` at `when` and returns the page to show.
pub fn view_pdf_at(pdf: &str, pdfs: &mut PdfCollection, when: AccessTime) -> (page: Result<
    u16,
    RouteError,
>)
    requires
        old(pdfs).wf(),
    ensures
        final(pdfs).wf(),
        final(pdfs)@ == opened(old(pdfs)@, pdf@, when@),
        match page {
            Ok(p) => lookup(old(pdfs)@, pdf@) matches Some(d) && p == d.current_page,
            Err(_) => lookup(old(pdfs)@, pdf@) is None,
        },
{
    match pdfs.get_book_by_name_mut(pdf) {
        Some(b) => {
            b.access_at(when);
            Ok(b.current_page())
        },
        None => Err(RouteError::NotFound),
    }
}

/// Opens the document called `pdf` now, and returns the page to show. The
/// time recorded is a date and time laid out year to second, as the local
/// clock shows it.
pub fn view_pdf(pdf: &str, pdfs: &mut PdfCollection) -> (page: Result<u16, RouteError>)
    requires
        old(pdfs).wf(),
    ensures
        final(pdfs).wf(),
        exists|when: Option<Seq<char>>|
            {
                &&& when matches Some(text) && is_time_text(text)
                &&& final(pdfs)@ == #[trigger] opened(old(pdfs)@, pdf@, when)
            },
        match page {
            Ok(p) => lookup(old(pdfs)@, pdf@) matches Some(d) && p == d.current_page,
            Err(_) => lookup(old(pdfs)@, pdf@) is None,
        },
{
    view_pdf_at(pdf, pdfs, AccessTime::now())
}

} // verus!
