//! What the client knows of the server: where it is, and what it last said.

use crate::routes::main_page::MainTemplate;
use crate::state::Pdf;
use crate::tui::stateful_table::{access_text, TableItem, TableItemView};
use vstd::prelude::*;
use vstd::string::*;

verus! {

/// Why the client could not learn the server's state.
#[derive(Debug)]
pub enum ApiError {
    /// No answer from the address given.
    NoConnection(String),
    /// An answer that could not be read.
    InvalidResponse,
}

impl ApiError {
    /// The error in words.
    pub open spec fn text(&self) -> Seq<char> {
        match self {
            ApiError::InvalidResponse => "Failed to parse JSON response"@,
            ApiError::NoConnection(s) => "Failed to connect to server at: \""@ + s@ + "\""@,
        }
    }

    /// The error in words.
    pub fn message(&self) -> (text: String)
        ensures
            text@ == self.text(),
    {
        match self {
            ApiError::InvalidResponse => "Failed to parse JSON response".to_owned(),
            ApiError::NoConnection(s) => {
                let mut text: String = "Failed to connect to server at: \"".to_owned();
                text.append(s.as_str());
                text.append("\"");
                text
            },
        }
    }
}

/// The row that shows a document.
pub open spec fn row_of(p: Pdf) -> TableItemView {
    TableItemView {
        pdf_name: p@.name,
        cur_page: p@.current_page,
        total_pages: p@.total_pages,
        last_access: access_text(p@.last_access),
    }
}

/// The client's picture of the server.
#[derive(Debug)]
pub struct ApiClient {
    connection_ip: String,
    pdf_list: Vec<Pdf>,
    read_history: (usize, usize, usize),
}

impl ApiClient {
    /// The server's address.
    pub closed spec fn address(&self) -> Seq<char> {
        self.connection_ip@
    }

    /// The documents last heard of.
    pub closed spec fn documents(&self) -> Seq<Pdf> {
        self.pdf_list@
    }

    /// The counts last heard of: month, week, day.
    pub closed spec fn history(&self) -> (usize, usize, usize) {
        self.read_history
    }

    /// A client of the server at `ip` that has heard nothing yet.
    pub fn new(ip: String) -> (client: Self)
        ensures
            client.address() == ip@,
            client.documents() == Seq::<Pdf>::empty(),
            client.history() == (0usize, 0usize, 0usize),
    {
        Self { connection_ip: ip, pdf_list: Vec::new(), read_history: (0, 0, 0) }
    }

    /// The address to ask for the overview.
    pub fn api_address(&self) -> (url: String)
        ensures
            url@ == self.address() + "/api/"@,
    {
        let mut url: String = self.connection_ip.clone();
        url.append("/api/");
        url
    }

    /// Takes over what the overview `template` says: its documents, and its
    /// counts as month, week, day.
    pub fn apply(&mut self, template: &MainTemplate)
        ensures
            final(self).address() == old(self).address(),
            final(self).documents() == template.documents(),
            final(self).history() == (
                template.counts().2,
                template.counts().1,
                template.counts().0,
            ),
    {
        let shown: &[Pdf] = template.pdfs();
        let n: usize = shown.len();
        let mut list: Vec<Pdf> = Vec::new();
        let mut i: usize = 0;
        while i < n
            invariant
                i <= n,
                n == shown@.len(),
                list@ == shown@.take(i as int),
            decreases n - i,
        {
            list.push(shown[i].clone());
            proof {
                assert(shown@.take(i + 1) =~= shown@.take(i as int).push(shown@[i as int]));
            }
            i = i + 1;
        }
        proof {
            assert(shown@.take(n as int) =~= shown@);
        }
        self.pdf_list = list;
        self.read_history = (template.month(), template.week(), template.today());
    }

    /// The documents last heard of, one row each, in their order.
    pub fn pdfs_as_table_item(&self) -> (rows: Vec<TableItem>)
        ensures
            rows@.len() == self.documents().len(),
            forall|i: int|
                0 <= i < rows@.len() ==> (#[trigger] rows@[i])@ == row_of(self.documents()[i]),
    {
        let n: usize = self.pdf_list.len();
        let mut rows: Vec<TableItem> = Vec::new();
        let mut i: usize = 0;
        while i < n
            invariant
                i <= n,
                n == self.pdf_list.len(),
                rows@.len() == i,
                forall|j: int| 0 <= j < i ==> (#[trigger] rows@[j])@ == row_of(self.pdf_list@[j]),
            decreases n - i,
        {
            rows.push(TableItem::from_pdf(self.pdf_list[i].clone()));
            i = i + 1;
        }
        rows
    }

    /// The server's address.
    pub fn connection_ip(&self) -> (ip: &str)
        ensures
            ip@ == self.address(),
    {
        self.connection_ip.as_str()
    }

    /// The counts last heard of: month, week, day.
    pub fn read_history(&self) -> (counts: (usize, usize, usize))
        ensures
            counts == self.history(),
    {
        self.read_history
    }
}

} // verus!
