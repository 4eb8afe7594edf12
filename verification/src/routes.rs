//! Operations behind the request handlers.

use vstd::prelude::*;

pub mod main_page;
pub mod set_page;
pub mod stats;
pub mod status;
pub mod view_pdf;

verus! {

/// Why a request could not be served.
#[derive(Clone, Copy, Debug, PartialEq, Eq, Structural)]
pub enum RouteError {
    /// The registry holds no document of the name asked for.
    NotFound,
}

} // verus!
