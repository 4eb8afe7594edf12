//! The overview: every document and the reading counts.

use crate::routes::stats::{count_in, ReadCategory, ReadingStatistics};
use crate::state::{distinct_names, map_of, Pdf, PdfCollection};
use vstd::prelude::*;

verus! {

/// The documents of `s` in ascending order of their total pages.
pub open spec fn sorted_by_pages(s: Seq<Pdf>) -> bool {
    forall|i: int, j: int|
        0 <= i <= j < s.len() ==> (#[trigger] s[i])@.total_pages <= (#[trigger] s[j])@.total_pages
}

/// The documents that have `n` pages in all.
pub open spec fn with_total(n: u16) -> spec_fn(Pdf) -> bool {
    |p: Pdf| p@.total_pages == n
}

/// `slice::sort_by_key` of std, with the total pages as the key. As std
/// documents it, the result is in ascending order of the key and the sort
/// is stable: the documents of any one key are those that were there
/// before, in the order they had.
#[verifier::external_body]
fn sort_by_total_pages(pdfs: &mut Vec<Pdf>)
    ensures
        sorted_by_pages(final(pdfs)@),
        forall|n: u16| #[trigger]
            final(pdfs)@.filter(with_total(n)) == old(pdfs)@.filter(with_total(n)),
{
    pdfs.sort_by_key(|a| a.total_pages());
}

/// `rand::seq::SliceRandom::choose` on `messages`, with the generator that
/// `rand::thread_rng` hands out. As its source shows, an empty list gives
/// `None` and any other list one of its entries; which one is up to chance.
#[verifier::external_body]
fn choose_message(messages: &Vec<String>) -> (chosen: Option<String>)
    ensures
        match chosen {
            Some(message) => messages@.contains(message),
            None => messages@.len() == 0,
        },
{
    rand::seq::SliceRandom::choose(messages.as_slice(), &mut rand::thread_rng()).cloned()
}

/// The greetings, one of which heads the overview.
pub open spec fn greetings() -> Seq<Seq<char>> {
    seq![
        "WOW"@,
        "study!"@,
        "stuDYING"@,
        "read!"@,
        "Reading is cool!"@,
        "Reading is radical!"@,
    ]
}

/// The greetings, as text.
pub fn messages() -> (all: Vec<String>)
    ensures
        all@.len() == greetings().len(),
        forall|i: int| 0 <= i < all@.len() ==> (#[trigger] all@[i])@ == greetings()[i],
{
    let mut all: Vec<String> = Vec::new();
    all.push("WOW".to_owned());
    all.push("study!".to_owned());
    all.push("stuDYING".to_owned());
    all.push("read!".to_owned());
    all.push("Reading is cool!".to_owned());
    all.push("Reading is radical!".to_owned());
    all
}

/// What the overview shows.
#[derive(Debug)]
pub struct MainTemplate {
    pdfs: Vec<Pdf>,
    today: usize,
    week: usize,
    month: usize,
    message: String,
}

impl MainTemplate {
    /// The documents shown, in the order shown.
    pub closed spec fn documents(&self) -> Seq<Pdf> {
        self.pdfs@
    }

    /// The counts shown: of the last day, week and month.
    pub closed spec fn counts(&self) -> (usize, usize, usize) {
        (self.today, self.week, self.month)
    }

    /// The greeting shown.
    pub closed spec fn greeting(&self) -> Seq<char> {
        self.message@
    }

    /// An overview of the given parts.
    pub fn new(pdfs: Vec<Pdf>, today: usize, week: usize, month: usize, message: String) -> (t:
        Self)
        ensures
            t.documents() == pdfs@,
            t.counts() == (today, week, month),
            t.greeting() == message@,
    {
        MainTemplate { pdfs, today, week, month, message }
    }

    /// The documents shown.
    pub fn pdfs(&self) -> (pdfs: &[Pdf])
        ensures
            pdfs@ == self.documents(),
    {
        self.pdfs.as_slice()
    }

    /// Reading events of the last day.
    pub fn today(&self) -> (n: usize)
        ensures
            n == self.counts().0,
    {
        self.today
    }

    /// Reading events of the last week, the last day apart.
    pub fn week(&self) -> (n: usize)
        ensures
            n == self.counts().1,
    {
        self.week
    }

    /// Reading events of the last four weeks, the last week apart.
    pub fn month(&self) -> (n: usize)
        ensures
            n == self.counts().2,
    {
        self.month
    }

    /// The greeting shown.
    pub fn message(&self) -> (text: &str)
        ensures
            text@ == self.greeting(),
    {
        self.message.as_str()
    }
}

impl Default for MainTemplate {
    /// An overview without documents or counts, under a greeting picked at
    /// random.
    fn default() -> (t: Self)
        ensures
            t.documents() == Seq::<Pdf>::empty(),
            t.counts() == (0usize, 0usize, 0usize),
            greetings().contains(t.greeting()),
    {
        let all: Vec<String> = messages();
        let message: String = match choose_message(&all) {
            Some(m) => m,
            None => String::new(),
        };
        proof {
            let i = choose|i: int| 0 <= i < all@.len() && all@[i] == message;
            assert(greetings()[i] == message@);
        }
        MainTemplate { pdfs: Vec::new(), today: 0, week: 0, month: 0, message }
    }
}

/// The overview of registry and reading log as they stand: a snapshot of
/// the documents in ascending order of their total pages, those of equal
/// length in the snapshot's order, and the three counts, under a greeting
/// picked at random.
pub fn get_template(book_state: &PdfCollection, stats: &ReadingStatistics) -> (t: MainTemplate)
    requires
        book_state.wf(),
    ensures
        sorted_by_pages(t.documents()),
        exists|snapshot: Seq<Pdf>|
            {
                &&& distinct_names(snapshot)
                &&& #[trigger] map_of(snapshot) == book_state@
                &&& forall|n: u16| #[trigger]
                    t.documents().filter(with_total(n)) == snapshot.filter(with_total(n))
            },
        t.counts() == (
            count_in(stats@, ReadCategory::Day) as usize,
            count_in(stats@, ReadCategory::Week) as usize,
            count_in(stats@, ReadCategory::Month) as usize,
        ),
        greetings().contains(t.greeting()),
{
    let mut pdfs: Vec<Pdf> = book_state.pdfs();
    let ghost snapshot = pdfs@;
    sort_by_total_pages(&mut pdfs);
    let today: usize = stats.last_day();
    let week: usize = stats.last_week();
    let month: usize = stats.last_month();
    let d: MainTemplate = MainTemplate::default();
    let t = MainTemplate { pdfs, today, week, month, message: d.message };
    assert(map_of(snapshot) == book_state@);
    t
}

} // verus!
