//! Asking where a reader stands.

use crate::state::{lookup, PdfCollection};
use vstd::prelude::*;

verus! {

/// The page that the reader of the document called `pdf` is on, or -1 where
/// there is no such document.
pub fn status(pdf: &str, pdfs: &PdfCollection) -> (page: i32)
    requires
        pdfs.wf(),
    ensures
        page == match lookup(pdfs@, pdf@) {
            Some(d) => d.current_page as int,
            None => -1,
        },
{
    match pdfs.get_book_by_name(pdf) {
        Some(n) => n.current_page() as i32,
        None => -1,
    }
}

} // verus!
