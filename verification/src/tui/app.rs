//! The terminal client's state, and what a key does to it.

use crate::routes::main_page::MainTemplate;
use crate::state::Pdf;
use crate::tui::api_client::{row_of, ApiClient, ApiError};
use crate::tui::stateful_table::{
    row_above, row_below, SortDirection, StatefulTable, TableItem, COLUMNS,
};
use vstd::prelude::*;
use vstd::string::*;

verus! {

/// A key, as far as the client tells keys apart.
#[derive(Clone, Copy, Debug, PartialEq, Eq, Structural)]
pub enum KeyCode {
    Char(char),
    Enter,
    Down,
    Up,
    Left,
    Right,
    Other,
}

/// What the program has to do after a key, beyond the change of state.
#[derive(Debug)]
pub enum Action {
    /// Go on.
    Continue,
    /// Leave the program.
    Quit,
    /// Open the page at this address in a browser.
    Open(String),
    /// Ask the server for its state.
    Refresh,
}

/// The client: its table, what it knows of the server, and the message it
/// shows on top, if any, as title and text.
#[derive(Debug)]
pub struct App {
    table: StatefulTable,
    client: ApiClient,
    popup: Option<(String, String)>,
}

/// The address of the page that shows the document of row `row`, on the
/// server at `ip`.
pub open spec fn page_address(ip: Seq<char>, name: Seq<char>) -> Seq<char> {
    ip + "/view/"@ + name + ".pdf"@
}

impl App {
    /// The row picked.
    pub closed spec fn picked(&self) -> Option<usize> {
        self.table.picked()
    }

    /// The rows of the table.
    pub closed spec fn rows(&self) -> Seq<TableItem> {
        self.table.rows()
    }

    /// The column picked.
    pub closed spec fn column(&self) -> usize {
        self.table.column()
    }

    /// The way the rows are sorted.
    pub closed spec fn direction(&self) -> SortDirection {
        self.table.direction()
    }

    /// The server's address.
    pub closed spec fn address(&self) -> Seq<char> {
        self.client.address()
    }

    /// The documents last heard of.
    pub closed spec fn documents(&self) -> Seq<Pdf> {
        self.client.documents()
    }

    /// The counts last heard of: month, week, day.
    pub closed spec fn history(&self) -> (usize, usize, usize) {
        self.client.history()
    }

    /// The message on top, if any, as title and text.
    pub closed spec fn message(&self) -> Option<(Seq<char>, Seq<char>)> {
        match self.popup {
            Some((title, text)) => Some((title@, text@)),
            None => None,
        }
    }

    /// The row that stands for the picked one where the table is asked for
    /// a document: the first where none is picked.
    pub open spec fn opened_row(&self) -> int {
        match self.picked() {
            Some(i) => i as int,
            None => 0,
        }
    }

    /// A client with the documents of `api_client` as its rows, and no
    /// message on top.
    pub fn new(api_client: ApiClient) -> (app: Self)
        ensures
            app.address() == api_client.address(),
            app.documents() == api_client.documents(),
            app.history() == api_client.history(),
            app.rows().len() == api_client.documents().len(),
            forall|i: int|
                0 <= i < app.rows().len() ==> (#[trigger] app.rows()[i])@ == row_of(
                    api_client.documents()[i],
                ),
            app.picked() == (if api_client.documents().len() > 0 {
                Some(0usize)
            } else {
                None
            }),
            app.column() == 0,
            app.direction() == SortDirection::Unsorted,
            app.message() is None,
    {
        let items: Vec<TableItem> = api_client.pdfs_as_table_item();
        Self { table: StatefulTable::with_items(items), client: api_client, popup: None }
    }

    /// The table.
    pub fn table(&self) -> (table: &StatefulTable)
        ensures
            table.picked() == self.picked(),
            table.rows() == self.rows(),
            table.column() == self.column(),
            table.direction() == self.direction(),
    {
        &self.table
    }

    /// What is known of the server.
    pub fn client(&self) -> (client: &ApiClient)
        ensures
            client.address() == self.address(),
            client.documents() == self.documents(),
            client.history() == self.history(),
    {
        &self.client
    }

    /// The message on top, if any, as title and text.
    pub fn popup(&self) -> (message: &Option<(String, String)>)
        ensures
            match message {
                Some((title, text)) => self.message() == Some((title@, text@)),
                None => self.message() is None,
            },
    {
        &self.popup
    }

    /// The address of the page that shows the picked document, or the first
    /// where none is picked; `None` where the table has no such row.
    pub fn open_pdf(&self) -> (url: Option<String>)
        ensures
            match url {
                Some(u) => 0 <= self.opened_row() < self.rows().len() && u@ == page_address(
                    self.address(),
                    self.rows()[self.opened_row()]@.pdf_name,
                ),
                None => self.opened_row() >= self.rows().len(),
            },
    {
        let selection_index: usize = match self.table.selected() {
            Some(i) => i,
            None => 0,
        };
        let items: &Vec<TableItem> = self.table.items();
        if selection_index < items.len() {
            let mut url: String = self.client.connection_ip().to_owned();
            url.append("/view/");
            url.append(items[selection_index].pdf_name());
            url.append(".pdf");
            Some(url)
        } else {
            None
        }
    }

    /// Takes over what the server said: the documents and counts of
    /// `template`, one row to a document, with the rest of the table as it
    /// is.
    pub fn refreshed(&mut self, template: &MainTemplate)
        ensures
            final(self).address() == old(self).address(),
            final(self).documents() == template.documents(),
            final(self).history() == (
                template.counts().2,
                template.counts().1,
                template.counts().0,
            ),
            final(self).rows().len() == template.documents().len(),
            forall|i: int|
                0 <= i < final(self).rows().len() ==> (#[trigger] final(self).rows()[i])@
                    == row_of(template.documents()[i]),
            final(self).picked() == old(self).picked(),
            final(self).column() == old(self).column(),
            final(self).direction() == old(self).direction(),
            final(self).message() == old(self).message(),
    {
        self.client.apply(template);
        let items: Vec<TableItem> = self.client.pdfs_as_table_item();
        self.table.set_items(items);
    }

    /// Puts the failure to hear from the server on top, under the title
    /// `Error`.
    pub fn refresh_failed(&mut self, error: &ApiError)
        ensures
            final(self).message() == Some(("Error"@, error.text())),
            final(self).picked() == old(self).picked(),
            final(self).rows() == old(self).rows(),
            final(self).column() == old(self).column(),
            final(self).direction() == old(self).direction(),
            final(self).address() == old(self).address(),
            final(self).documents() == old(self).documents(),
            final(self).history() == old(self).history(),
    {
        self.popup = Some(("Error".to_owned(), error.message()));
    }

    /// What a key does. A key that is not pressed does nothing. While a
    /// message is on top, any key takes it away and does nothing else.
    /// Otherwise `q` leaves, Enter opens the picked document, the arrows move
    /// through rows and columns, `r` asks the server again, `s` goes on to
    /// the next way of sorting, and any other key does nothing.
    pub fn on_key(&mut self, pressed: bool, code: KeyCode) -> (action: Action)
        ensures
            final(self).address() == old(self).address(),
            final(self).documents() == old(self).documents(),
            final(self).history() == old(self).history(),
            final(self).rows() == old(self).rows(),
            final(self).message() == (if pressed {
                None
            } else {
                old(self).message()
            }),
            final(self).picked() == (if pressed && old(self).message() is None {
                match code {
                    KeyCode::Down => row_below(old(self).picked(), old(self).rows().len()),
                    KeyCode::Up => row_above(old(self).picked(), old(self).rows().len()),
                    _ => old(self).picked(),
                }
            } else {
                old(self).picked()
            }),
            final(self).column() == (if pressed && old(self).message() is None {
                match code {
                    KeyCode::Right => if old(self).column() < COLUMNS - 1 {
                        (old(self).column() + 1) as usize
                    } else {
                        old(self).column()
                    },
                    KeyCode::Left => if old(self).column() > 0 {
                        (old(self).column() - 1) as usize
                    } else {
                        0usize
                    },
                    _ => old(self).column(),
                }
            } else {
                old(self).column()
            }),
            final(self).direction() == (if pressed && old(self).message() is None && code
                == KeyCode::Char('s') {
                old(self).direction().following()
            } else {
                old(self).direction()
            }),
            action is Quit <==> pressed && old(self).message() is None && code == KeyCode::Char(
                'q',
            ),
            action is Refresh <==> pressed && old(self).message() is None && code == KeyCode::Char(
                'r',
            ),
            action is Open <==> pressed && old(self).message() is None && code == KeyCode::Enter
                && old(self).opened_row() < old(self).rows().len(),
            action matches Action::Open(url) ==> url@ == page_address(
                old(self).address(),
                old(self).rows()[old(self).opened_row()]@.pdf_name,
            ),
    {
        if !pressed {
            return Action::Continue;
        }
        if self.popup.is_some() {
            self.popup = None;
            return Action::Continue;
        }
        match code {
            KeyCode::Char(c) => {
                if c == 'q' {
                    Action::Quit
                } else if c == 'r' {
                    Action::Refresh
                } else if c == 's' {
                    self.table.next_sort_direction();
                    Action::Continue
                } else {
                    Action::Continue
                }
            },
            KeyCode::Enter => match self.open_pdf() {
                Some(url) => Action::Open(url),
                None => Action::Continue,
            },
            KeyCode::Down => {
                self.table.next();
                Action::Continue
            },
            KeyCode::Up => {
                self.table.previous();
                Action::Continue
            },
            KeyCode::Left => {
                self.table.previous_header();
                Action::Continue
            },
            KeyCode::Right => {
                self.table.next_header();
                Action::Continue
            },
            KeyCode::Other => Action::Continue,
        }
    }
}

} // verus!
