//! The table of documents: its rows, the row and column picked, and the
//! order in which two rows stand.

use crate::state::Pdf;
use std::cmp::Ordering;
use vstd::prelude::*;
use vstd::string::*;

verus! {

/// The character that stands for digit `d`.
pub open spec fn digit_char(d: int) -> char {
    if d == 0 {
        '0'
    } else if d == 1 {
        '1'
    } else if d == 2 {
        '2'
    } else if d == 3 {
        '3'
    } else if d == 4 {
        '4'
    } else if d == 5 {
        '5'
    } else if d == 6 {
        '6'
    } else if d == 7 {
        '7'
    } else if d == 8 {
        '8'
    } else {
        '9'
    }
}

/// `n` written in decimal, without leading zeros.
pub open spec fn decimal(n: nat) -> Seq<char>
    decreases n,
{
    if n < 10 {
        seq![digit_char(n as int)]
    } else {
        decimal(n / 10).push(digit_char((n % 10) as int))
    }
}

/// The text of one digit.
fn digit_text(d: u16) -> (text: String)
    requires
        d < 10,
    ensures
        text@ == seq![digit_char(d as int)],
{
    proof {
        reveal_strlit("0");
        reveal_strlit("1");
        reveal_strlit("2");
        reveal_strlit("3");
        reveal_strlit("4");
        reveal_strlit("5");
        reveal_strlit("6");
        reveal_strlit("7");
        reveal_strlit("8");
        reveal_strlit("9");
    }
    let text: &str = if d == 0 {
        "0"
    } else if d == 1 {
        "1"
    } else if d == 2 {
        "2"
    } else if d == 3 {
        "3"
    } else if d == 4 {
        "4"
    } else if d == 5 {
        "5"
    } else if d == 6 {
        "6"
    } else if d == 7 {
        "7"
    } else if d == 8 {
        "8"
    } else {
        "9"
    };
    assert(text@ =~= seq![digit_char(d as int)]);
    text.to_owned()
}

/// `n` written in decimal.
pub fn decimal_text(n: u16) -> (text: String)
    ensures
        text@ == decimal(n as nat),
    decreases n,
{
    if n < 10 {
        digit_text(n)
    } else {
        let mut text: String = decimal_text(n / 10);
        let last: String = digit_text(n % 10);
        text.append(last.as_str());
        assert(text@ =~= decimal((n / 10) as nat).push(digit_char((n % 10) as int)));
        text
    }
}

/// One row, as plain values.
pub struct TableItemView {
    pub pdf_name: Seq<char>,
    pub cur_page: u16,
    pub total_pages: u16,
    pub last_access: Seq<char>,
}

/// One row of the table: a document as the client shows it.
#[derive(Debug)]
pub struct TableItem {
    pdf_name: String,
    cur_page: u16,
    total_pages: u16,
    last_access: String,
}

impl View for TableItem {
    type V = TableItemView;

    closed spec fn view(&self) -> TableItemView {
        TableItemView {
            pdf_name: self.pdf_name@,
            cur_page: self.cur_page,
            total_pages: self.total_pages,
            last_access: self.last_access@,
        }
    }
}

impl Clone for TableItem {
    fn clone(&self) -> (r: Self)
        ensures
            r == *self,
    {
        TableItem {
            pdf_name: self.pdf_name.clone(),
            cur_page: self.cur_page,
            total_pages: self.total_pages,
            last_access: self.last_access.clone(),
        }
    }
}

/// The text shown for an access time.
pub open spec fn access_text(t: Option<Seq<char>>) -> Seq<char> {
    match t {
        None => "never"@,
        Some(s) => s,
    }
}

impl TableItem {
    /// A row of the given cells.
    pub fn new(pdf_name: String, cur_page: u16, total_pages: u16, last_access: String) -> (item:
        Self)
        ensures
            item@ == (TableItemView {
                pdf_name: pdf_name@,
                cur_page,
                total_pages,
                last_access: last_access@,
            }),
    {
        TableItem { pdf_name, cur_page, total_pages, last_access }
    }

    /// The row that shows document `p`.
    pub fn from_pdf(p: Pdf) -> (item: Self)
        ensures
            item@ == (TableItemView {
                pdf_name: p@.name,
                cur_page: p@.current_page,
                total_pages: p@.total_pages,
                last_access: access_text(p@.last_access),
            }),
    {
        TableItem {
            pdf_name: p.name().to_owned(),
            cur_page: p.current_page(),
            total_pages: p.total_pages(),
            last_access: p.last_access().to_string(),
        }
    }

    /// The four cells of the row: name, page, total pages, last access.
    pub fn as_vec(&self) -> (cells: Vec<String>)
        ensures
            cells@.len() == 4,
            cells@[0]@ == self@.pdf_name,
            cells@[1]@ == decimal(self@.cur_page as nat),
            cells@[2]@ == decimal(self@.total_pages as nat),
            cells@[3]@ == self@.last_access,
    {
        let mut cells: Vec<String> = Vec::new();
        cells.push(self.pdf_name.clone());
        cells.push(decimal_text(self.cur_page));
        cells.push(decimal_text(self.total_pages));
        cells.push(self.last_access.clone());
        cells
    }

    /// The document's name.
    pub fn pdf_name(&self) -> (name: &str)
        ensures
            name@ == self@.pdf_name,
    {
        self.pdf_name.as_str()
    }

    /// The page the reader is on.
    pub fn cur_page(&self) -> (page: u16)
        ensures
            page == self@.cur_page,
    {
        self.cur_page
    }

    /// The document's total pages.
    pub fn total_pages(&self) -> (pages: u16)
        ensures
            pages == self@.total_pages,
    {
        self.total_pages
    }

    /// When the document was last opened, as text.
    pub fn last_access(&self) -> (text: &str)
        ensures
            text@ == self@.last_access,
    {
        self.last_access.as_str()
    }
}

/// The order of two page numbers.
pub open spec fn pages_order(a: u16, b: u16) -> Ordering {
    if a < b {
        Ordering::Less
    } else if a == b {
        Ordering::Equal
    } else {
        Ordering::Greater
    }
}

/// The order of two texts by their bytes: the first byte that differs
/// decides, and of two texts of which one begins the other the shorter comes
/// first.
pub open spec fn bytes_order(a: Seq<u8>, b: Seq<u8>) -> Ordering
    decreases a.len(),
{
    if a.len() == 0 {
        if b.len() == 0 {
            Ordering::Equal
        } else {
            Ordering::Less
        }
    } else if b.len() == 0 {
        Ordering::Greater
    } else if a[0] < b[0] {
        Ordering::Less
    } else if a[0] > b[0] {
        Ordering::Greater
    } else {
        bytes_order(a.drop_first(), b.drop_first())
    }
}

/// The order of two moments given as seconds and nanoseconds.
pub open spec fn key_order(a: (i64, u32), b: (i64, u32)) -> Ordering {
    if a.0 < b.0 {
        Ordering::Less
    } else if a.0 > b.0 {
        Ordering::Greater
    } else if a.1 < b.1 {
        Ordering::Less
    } else if a.1 == b.1 {
        Ordering::Equal
    } else {
        Ordering::Greater
    }
}

/// An order turned round.
pub open spec fn turned(o: Ordering) -> Ordering {
    match o {
        Ordering::Less => Ordering::Greater,
        Ordering::Equal => Ordering::Equal,
        Ordering::Greater => Ordering::Less,
    }
}

/// The moment that `chrono` reads from `text` as a date and time laid out
/// `%Y-%m-%d %H:%M:%S`: seconds since the Unix epoch and nanoseconds past
/// them, with the date and time taken as universal time; `None` where the
/// text is no such date and time.
pub uninterp spec fn access_time_key(text: Seq<char>) -> Option<(i64, u32)>;

/// `chrono::NaiveDateTime::parse_from_str` on `text` with the layout
/// `%Y-%m-%d %H:%M:%S`, and of the moment read `timestamp` and
/// `timestamp_subsec_nanos` in UTC; `None` for the error of `chrono`. The
/// result depends on the text alone; two such pairs stand in the order in
/// which `chrono` orders the moments.
#[verifier::external_body]
fn parse_access_time(text: &str) -> (key: Option<(i64, u32)>)
    ensures
        key == access_time_key(text@),
{
    match chrono::NaiveDateTime::parse_from_str(text, "%Y-%m-%d %H:%M:%S") {
        Ok(t) => Some((t.and_utc().timestamp(), t.and_utc().timestamp_subsec_nanos())),
        Err(_) => None,
    }
}

/// The moment by which a row is sorted: the one read from its access time,
/// and the Unix epoch for a row whose access time is no date and time, such
/// as `never`.
pub open spec fn key_or_epoch(key: Option<(i64, u32)>) -> (i64, u32) {
    match key {
        Some(k) => k,
        None => (0i64, 0u32),
    }
}

/// Computes `key_or_epoch` for the access time written as `text`.
fn sort_key(text: &str) -> (key: (i64, u32))
    ensures
        key == key_or_epoch(access_time_key(text@)),
{
    match parse_access_time(text) {
        Some(k) => k,
        None => (0, 0),
    }
}

/// The order of two texts by `Ord` of `str`, which std documents as the
/// order of their bytes.
#[verifier::external_body]
fn order_texts(a: &str, b: &str) -> (o: Ordering)
    ensures
        o == bytes_order(a.spec_bytes(), b.spec_bytes()),
{
    a.cmp(b)
}

/// Computes `pages_order`.
fn order_pages(a: u16, b: u16) -> (o: Ordering)
    ensures
        o == pages_order(a, b),
{
    if a < b {
        Ordering::Less
    } else if a == b {
        Ordering::Equal
    } else {
        Ordering::Greater
    }
}

/// Computes `key_order`.
pub fn order_keys(a: (i64, u32), b: (i64, u32)) -> (o: Ordering)
    ensures
        o == key_order(a, b),
{
    if a.0 < b.0 {
        Ordering::Less
    } else if a.0 > b.0 {
        Ordering::Greater
    } else if a.1 < b.1 {
        Ordering::Less
    } else if a.1 == b.1 {
        Ordering::Equal
    } else {
        Ordering::Greater
    }
}

/// Which way the rows are sorted.
#[derive(Clone, Copy, Debug, PartialEq, Eq, Structural)]
pub enum SortDirection {
    /// In the order given.
    Unsorted,
    /// Smallest first.
    Ascending,
    /// Largest first.
    Descending,
}

/// The order of rows `a` and `b` by column `index`, ascending: by name in
/// column 0, by page in column 1, by total pages in column 2, by the time of
/// the last access in column 3.
pub open spec fn column_order(index: usize, a: TableItemView, b: TableItemView) -> Ordering {
    if index == 0 {
        bytes_order(vstd::utf8::encode_utf8(a.pdf_name), vstd::utf8::encode_utf8(b.pdf_name))
    } else if index == 1 {
        pages_order(a.cur_page, b.cur_page)
    } else if index == 2 {
        pages_order(a.total_pages, b.total_pages)
    } else {
        key_order(
            key_or_epoch(access_time_key(a.last_access)),
            key_or_epoch(access_time_key(b.last_access)),
        )
    }
}

impl SortDirection {
    /// The mark shown beside the heading of the sorted column.
    pub fn to_string(&self) -> (mark: String)
        ensures
            mark@ == match self {
                SortDirection::Ascending => " \u{25bc}"@,
                SortDirection::Descending => " \u{25b2}"@,
                SortDirection::Unsorted => Seq::<char>::empty(),
            },
    {
        match self {
            SortDirection::Ascending => " \u{25bc}".to_owned(),
            SortDirection::Descending => " \u{25b2}".to_owned(),
            SortDirection::Unsorted => String::new(),
        }
    }

    /// The direction that follows this one when the user asks for the next:
    /// ascending after none, descending after ascending, none after
    /// descending.
    pub open spec fn following(self) -> SortDirection {
        match self {
            SortDirection::Ascending => SortDirection::Descending,
            SortDirection::Descending => SortDirection::Unsorted,
            SortDirection::Unsorted => SortDirection::Ascending,
        }
    }

    /// The order in which rows `a` and `b` stand when sorted this way by
    /// column `index`, which must be one of the table's columns; `None`
    /// where the rows are not sorted at all, whatever the column.
    pub fn get_comparison(&self, index: usize, a: &TableItem, b: &TableItem) -> (o: Option<Ordering>)
        requires
            *self != SortDirection::Unsorted ==> index < COLUMNS,
        ensures
            o == match self {
                SortDirection::Unsorted => None::<Ordering>,
                SortDirection::Ascending => Some(column_order(index, a@, b@)),
                SortDirection::Descending => Some(turned(column_order(index, a@, b@))),
            },
    {
        match self {
            SortDirection::Unsorted => None,
            SortDirection::Ascending => Some(Self::ascending(index, a, b)),
            SortDirection::Descending => {
                proof {
                    lemma_order_turns(index, a@, b@);
                }
                Some(Self::ascending(index, b, a))
            },
        }
    }

    /// The ascending order of rows `a` and `b` by column `index`.
    fn ascending(index: usize, a: &TableItem, b: &TableItem) -> (o: Ordering)
        requires
            index < 4,
        ensures
            o == column_order(index, a@, b@),
    {
        if index == 0 {
            order_texts(a.pdf_name(), b.pdf_name())
        } else if index == 1 {
            order_pages(a.cur_page(), b.cur_page())
        } else if index == 2 {
            order_pages(a.total_pages(), b.total_pages())
        } else {
            let first: (i64, u32) = sort_key(a.last_access());
            let second: (i64, u32) = sort_key(b.last_access());
            order_keys(first, second)
        }
    }
}

/// The order in which rows `a` and `b` stand when sorted in `direction` by
/// column `index`.
pub open spec fn rows_order(
    direction: SortDirection,
    index: usize,
    a: TableItemView,
    b: TableItemView,
) -> Ordering {
    match direction {
        SortDirection::Descending => turned(column_order(index, a, b)),
        _ => column_order(index, a, b),
    }
}

/// The rows of `s` stand in the order that `direction` and column `index`
/// give: none comes before one that it should follow.
pub open spec fn rows_sorted(s: Seq<TableItem>, direction: SortDirection, index: usize) -> bool {
    forall|i: int, j: int|
        0 <= i < j < s.len() ==> rows_order(direction, index, (#[trigger] s[i])@, (#[trigger] s[j])@)
            != Ordering::Greater
}

/// The rows that stand level with row `e` when sorted in `direction` by
/// column `index`.
pub open spec fn level_with(direction: SortDirection, index: usize, e: TableItemView) -> spec_fn(
    TableItem,
) -> bool {
    |x: TableItem| rows_order(direction, index, x@, e) == Ordering::Equal
}

/// Computes `rows_order` for a direction that sorts.
pub fn order_rows(direction: SortDirection, index: usize, a: &TableItem, b: &TableItem) -> (o:
    Ordering)
    requires
        direction != SortDirection::Unsorted,
        index < COLUMNS,
    ensures
        o == rows_order(direction, index, a@, b@),
{
    match direction.get_comparison(index, a, b) {
        Some(o) => o,
        None => Ordering::Equal,
    }
}

/// `slice::sort_by` of std, with `order_rows` as the comparison. As std
/// documents it, the rows come out in ascending order of the comparison,
/// they are the rows that went in, and the sort is stable: rows that stand
/// level keep the order they had. `order_rows` orders any two rows and is
/// transitive, as std asks of the comparison.
#[verifier::external_body]
fn sort_rows(rows: &mut Vec<TableItem>, direction: SortDirection, index: usize)
    requires
        direction != SortDirection::Unsorted,
        index < COLUMNS,
    ensures
        rows_sorted(final(rows)@, direction, index),
        final(rows)@.to_multiset() == old(rows)@.to_multiset(),
        forall|e: TableItemView| #[trigger]
            final(rows)@.filter(level_with(direction, index, e)) == old(rows)@.filter(
                level_with(direction, index, e),
            ),
{
    rows.sort_by(|a, b| order_rows(direction, index, a, b));
}

/// Two texts taken the other way round stand in the order turned round.
pub proof fn lemma_bytes_order_turns(a: Seq<u8>, b: Seq<u8>)
    ensures
        bytes_order(b, a) == turned(bytes_order(a, b)),
    decreases a.len(),
{
    if a.len() > 0 && b.len() > 0 && a[0] == b[0] {
        lemma_bytes_order_turns(a.drop_first(), b.drop_first());
    }
}

/// Two rows taken the other way round stand in the order turned round:
/// sorting descending is sorting ascending with the rows exchanged.
pub proof fn lemma_order_turns(index: usize, a: TableItemView, b: TableItemView)
    ensures
        column_order(index, b, a) == turned(column_order(index, a, b)),
{
    lemma_bytes_order_turns(
        vstd::utf8::encode_utf8(a.pdf_name),
        vstd::utf8::encode_utf8(b.pdf_name),
    );
}

/// The order of texts by their bytes is transitive.
pub proof fn lemma_bytes_order_transitive(a: Seq<u8>, b: Seq<u8>, c: Seq<u8>)
    requires
        bytes_order(a, b) != Ordering::Greater,
        bytes_order(b, c) != Ordering::Greater,
    ensures
        bytes_order(a, c) != Ordering::Greater,
    decreases a.len(),
{
    if a.len() > 0 && b.len() > 0 && c.len() > 0 && a[0] == b[0] && b[0] == c[0] {
        lemma_bytes_order_transitive(a.drop_first(), b.drop_first(), c.drop_first());
    }
}

/// The order of rows is one that a sort can go by. Two rows taken the other
/// way round stand in the order turned round, so any two rows are ordered
/// and a row stands level with itself; and a row that does not follow a
/// second, which does not follow a third, does not follow the third.
pub proof fn law_rows_order_is_total(
    direction: SortDirection,
    index: usize,
    a: TableItemView,
    b: TableItemView,
    c: TableItemView,
)
    ensures
        rows_order(direction, index, b, a) == turned(rows_order(direction, index, a, b)),
        rows_order(direction, index, a, a) == Ordering::Equal,
        rows_order(direction, index, a, b) != Ordering::Greater && rows_order(
            direction,
            index,
            b,
            c,
        ) != Ordering::Greater ==> rows_order(direction, index, a, c) != Ordering::Greater,
{
    lemma_order_turns(index, a, b);
    lemma_order_turns(index, b, c);
    lemma_order_turns(index, a, c);
    lemma_order_turns(index, a, a);
    let x = vstd::utf8::encode_utf8(a.pdf_name);
    let y = vstd::utf8::encode_utf8(b.pdf_name);
    let z = vstd::utf8::encode_utf8(c.pdf_name);
    if bytes_order(x, y) != Ordering::Greater && bytes_order(y, z) != Ordering::Greater {
        lemma_bytes_order_transitive(x, y, z);
    }
    lemma_bytes_order_turns(x, y);
    lemma_bytes_order_turns(y, z);
    lemma_bytes_order_turns(x, z);
    if bytes_order(z, y) != Ordering::Greater && bytes_order(y, x) != Ordering::Greater {
        lemma_bytes_order_transitive(z, y, x);
    }
}

/// The table: its rows, the row picked, the column picked, and the way the
/// rows are sorted.
#[derive(Debug)]
pub struct StatefulTable {
    selected: Option<usize>,
    items: Vec<TableItem>,
    header_index: usize,
    sort_direction: SortDirection,
}

/// The number of columns.
pub const COLUMNS: usize = 4;

/// The row picked after a step down from `selected` in a table of `len`
/// rows: the next row, the first after the last, and the first where none
/// was picked.
pub open spec fn row_below(selected: Option<usize>, len: nat) -> Option<usize> {
    if len == 0 {
        selected
    } else {
        match selected {
            Some(i) => if i >= len - 1 {
                Some(0usize)
            } else {
                Some((i + 1) as usize)
            },
            None => Some(0usize),
        }
    }
}

/// The row picked after a step up from `selected` in a table of `len` rows:
/// the row before, the last before the first, and the first where none was
/// picked.
pub open spec fn row_above(selected: Option<usize>, len: nat) -> Option<usize> {
    if len == 0 {
        selected
    } else {
        match selected {
            Some(i) => if i == 0 {
                Some((len - 1) as usize)
            } else {
                Some((i - 1) as usize)
            },
            None => Some(0usize),
        }
    }
}

impl StatefulTable {
    /// The column picked is one of the table's columns.
    #[verifier::type_invariant]
    spec fn column_in_range(&self) -> bool {
        self.header_index < COLUMNS
    }

    /// The row picked.
    pub closed spec fn picked(&self) -> Option<usize> {
        self.selected
    }

    /// The rows.
    pub closed spec fn rows(&self) -> Seq<TableItem> {
        self.items@
    }

    /// The column picked.
    pub closed spec fn column(&self) -> usize {
        self.header_index
    }

    /// The way the rows are sorted.
    pub closed spec fn direction(&self) -> SortDirection {
        self.sort_direction
    }

    /// A table of `items`, unsorted, with the first column picked, and the
    /// first row where there is one.
    pub fn with_items(items: Vec<TableItem>) -> (table: Self)
        ensures
            table.rows() == items@,
            table.picked() == (if items@.len() > 0 {
                Some(0usize)
            } else {
                None
            }),
            table.column() == 0,
            table.direction() == SortDirection::Unsorted,
    {
        let selected: Option<usize> = if items.len() > 0 {
            Some(0)
        } else {
            None
        };
        StatefulTable { selected, items, header_index: 0, sort_direction: SortDirection::Unsorted }
    }

    /// Puts `items` in place of the rows, and leaves the rest as it is.
    pub fn set_items(&mut self, items: Vec<TableItem>)
        ensures
            final(self).rows() == items@,
            final(self).picked() == old(self).picked(),
            final(self).column() == old(self).column(),
            final(self).direction() == old(self).direction(),
    {
        proof {
            use_type_invariant(&*self);
        }
        self.items = items;
    }

    /// The row picked.
    pub fn selected(&self) -> (row: Option<usize>)
        ensures
            row == self.picked(),
    {
        self.selected
    }

    /// The rows.
    pub fn items(&self) -> (rows: &Vec<TableItem>)
        ensures
            rows@ == self.rows(),
    {
        &self.items
    }

    /// The rows as they are shown: in the order given where the table is
    /// unsorted, else sorted by the picked column in the picked direction.
    pub fn sorted_items(&self) -> (shown: Vec<TableItem>)
        ensures
            shown@.to_multiset() == self.rows().to_multiset(),
            self.direction() == SortDirection::Unsorted ==> shown@ == self.rows(),
            self.direction() != SortDirection::Unsorted ==> rows_sorted(
                shown@,
                self.direction(),
                self.column(),
            ),
            forall|e: TableItemView| #[trigger]
                shown@.filter(level_with(self.direction(), self.column(), e))
                    == self.rows().filter(level_with(self.direction(), self.column(), e)),
    {
        proof {
            use_type_invariant(self);
        }
        let mut shown: Vec<TableItem> = self.items.clone();
        match self.sort_direction {
            SortDirection::Unsorted => {},
            _ => {
                sort_rows(&mut shown, self.sort_direction, self.header_index);
            },
        }
        shown
    }

    /// Steps one row down, round to the first after the last.
    pub fn next(&mut self)
        ensures
            final(self).picked() == row_below(old(self).picked(), old(self).rows().len()),
            final(self).rows() == old(self).rows(),
            final(self).column() == old(self).column(),
            final(self).direction() == old(self).direction(),
    {
        proof {
            use_type_invariant(&*self);
        }
        if self.items.len() == 0 {
            return ;
        }
        let i: usize = match self.selected {
            Some(i) => {
                if i >= self.items.len() - 1 {
                    0
                } else {
                    i + 1
                }
            },
            None => 0,
        };
        self.selected = Some(i);
    }

    /// Steps one row up, round to the last before the first.
    pub fn previous(&mut self)
        ensures
            final(self).picked() == row_above(old(self).picked(), old(self).rows().len()),
            final(self).rows() == old(self).rows(),
            final(self).column() == old(self).column(),
            final(self).direction() == old(self).direction(),
    {
        proof {
            use_type_invariant(&*self);
        }
        if self.items.len() == 0 {
            return ;
        }
        let i: usize = match self.selected {
            Some(i) => {
                if i == 0 {
                    self.items.len() - 1
                } else {
                    i - 1
                }
            },
            None => 0,
        };
        self.selected = Some(i);
    }

    /// Steps one column to the right, and stays on the last.
    pub fn next_header(&mut self)
        ensures
            final(self).column() == (if old(self).column() < COLUMNS - 1 {
                (old(self).column() + 1) as usize
            } else {
                old(self).column()
            }),
            final(self).rows() == old(self).rows(),
            final(self).picked() == old(self).picked(),
            final(self).direction() == old(self).direction(),
    {
        if self.header_index < COLUMNS - 1 {
            self.header_index += 1;
        }
    }

    /// Steps one column to the left, and stays on the first.
    pub fn previous_header(&mut self)
        ensures
            final(self).column() == (if old(self).column() > 0 {
                (old(self).column() - 1) as usize
            } else {
                0usize
            }),
            final(self).rows() == old(self).rows(),
            final(self).picked() == old(self).picked(),
            final(self).direction() == old(self).direction(),
    {
        proof {
            use_type_invariant(&*self);
        }
        if self.header_index > 0 {
            self.header_index -= 1;
        }
    }

    /// The column picked.
    pub fn header_index(&self) -> (index: usize)
        ensures
            index == self.column(),
            index < COLUMNS,
    {
        proof {
            use_type_invariant(self);
        }
        self.header_index
    }

    /// The way the rows are sorted.
    pub fn sort_direction(&self) -> (direction: SortDirection)
        ensures
            direction == self.direction(),
    {
        self.sort_direction
    }

    /// Goes on to the next way of sorting: ascending, descending, none.
    pub fn next_sort_direction(&mut self)
        ensures
            final(self).direction() == old(self).direction().following(),
            final(self).rows() == old(self).rows(),
            final(self).picked() == old(self).picked(),
            final(self).column() == old(self).column(),
    {
        proof {
            use_type_invariant(&*self);
        }
        let new: SortDirection = match self.sort_direction {
            SortDirection::Ascending => SortDirection::Descending,
            SortDirection::Descending => SortDirection::Unsorted,
            SortDirection::Unsorted => SortDirection::Ascending,
        };
        self.sort_direction = new;
    }
}

} // verus!
