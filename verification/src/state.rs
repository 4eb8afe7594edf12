//! The documents and their registry.

use vstd::prelude::*;
use vstd::string::*;

verus! {

/// Total pages recorded for a document whose page count could not be read.
pub const PLACEHOLDER_PAGES: u16 = 1;

/// The suffix that a lookup ignores at the end of a name.
pub open spec fn pdf_suffix() -> Seq<char> {
    seq!['.', 'p', 'd', 'f']
}

/// The key under which a queried name is looked up: the name without one
/// trailing `.pdf`, or the name itself where it does not end so.
pub open spec fn normalized(name: Seq<char>) -> Seq<char> {
    if name.len() >= 4 && name.subrange(name.len() - 4, name.len() as int) == pdf_suffix() {
        name.subrange(0, name.len() - 4)
    } else {
        name
    }
}

/// Strips one trailing `.pdf` from `name`.
pub fn strip_pdf_suffix(name: &str) -> (key: &str)
    ensures
        key@ == normalized(name@),
{
    let n: usize = name.unicode_len();
    if n >= 4 && name.get_char(n - 4) == '.' && name.get_char(n - 3) == 'p' && name.get_char(n - 2)
        == 'd' && name.get_char(n - 1) == 'f' {
        assert(name@.subrange(n - 4, n as int) =~= pdf_suffix());
        name.substring_char(0, n - 4)
    } else {
        assert(n >= 4 ==> name@.subrange(n - 4, n as int) != pdf_suffix()) by {
            if n >= 4 {
                let tail = name@.subrange(n - 4, n as int);
                assert(tail[0] == name@[n - 4]);
                assert(tail[1] == name@[n - 3]);
                assert(tail[2] == name@[n - 2]);
                assert(tail[3] == name@[n - 1]);
            }
        }
        name
    }
}

/// When a document was last opened.
#[derive(Debug)]
pub enum AccessTime {
    /// Not opened yet.
    Never,
    /// Opened at the time that the text gives.
    Once(String),
}

impl View for AccessTime {
    type V = Option<Seq<char>>;

    open spec fn view(&self) -> Option<Seq<char>> {
        match self {
            AccessTime::Never => None,
            AccessTime::Once(s) => Some(s@),
        }
    }
}

impl Clone for AccessTime {
    fn clone(&self) -> (r: Self)
        ensures
            r == *self,
    {
        match self {
            AccessTime::Never => AccessTime::Never,
            AccessTime::Once(s) => AccessTime::Once(s.clone()),
        }
    }
}

/// Whether `c` is one of the ten decimal digits.
pub open spec fn is_digit(c: char) -> bool {
    '0' <= c && c <= '9'
}

/// Whether `text` is a date and time laid out year to second: a year, of
/// which the last four characters are digits, then `-`, two digits of the
/// month, `-`, two of the day, a space, two of the hour, `:`, two of the
/// minute, `:` and two of the second. What stands before the last four
/// characters of the year (a sign, further digits) is left open.
pub open spec fn is_time_text(text: Seq<char>) -> bool {
    let n = text.len() as int;
    &&& n >= 19
    &&& is_digit(text[n - 19])
    &&& is_digit(text[n - 18])
    &&& is_digit(text[n - 17])
    &&& is_digit(text[n - 16])
    &&& text[n - 15] == '-'
    &&& is_digit(text[n - 14])
    &&& is_digit(text[n - 13])
    &&& text[n - 12] == '-'
    &&& is_digit(text[n - 11])
    &&& is_digit(text[n - 10])
    &&& text[n - 9] == ' '
    &&& is_digit(text[n - 8])
    &&& is_digit(text[n - 7])
    &&& text[n - 6] == ':'
    &&& is_digit(text[n - 5])
    &&& is_digit(text[n - 4])
    &&& text[n - 3] == ':'
    &&& is_digit(text[n - 2])
    &&& is_digit(text[n - 1])
}

/// The local date and time as text, year to second: `chrono::Local::now`
/// read and laid out by `DateTime::format` with `%Y-%m-%d %H:%M:%S`. Which
/// moment the text names depends on the clock and the time zone of the
/// machine, so only its layout is claimed. As the source of `chrono` shows,
/// month, day, hour, minute and second are written with two digits each
/// between the marks of the layout, and the year with four digits, or with
/// a sign and at least four where it lies outside 0 to 9999.
#[verifier::external_body]
fn local_time_text() -> (text: String)
    ensures
        is_time_text(text@),
{
    chrono::Local::now().format("%Y-%m-%d %H:%M:%S").to_string()
}

impl AccessTime {
    /// The present moment, as the local clock shows it: an access at a date
    /// and time laid out year to second.
    pub fn now() -> (t: Self)
        ensures
            t matches AccessTime::Once(text) && is_time_text(text@),
    {
        AccessTime::Once(local_time_text())
    }

    /// The text shown for this access time: `never`, or the recorded time.
    pub fn to_string(&self) -> (text: String)
        ensures
            text@ == match self@ {
                None => "never"@,
                Some(s) => s,
            },
    {
        match self {
            AccessTime::Never => "never".to_owned(),
            AccessTime::Once(s) => s.clone(),
        }
    }
}

/// What a document is, as plain values.
pub struct PdfView {
    pub last_access: Option<Seq<char>>,
    pub name: Seq<char>,
    pub path: Seq<char>,
    pub current_page: u16,
    pub total_pages: u16,
}

/// One tracked document.
#[derive(Debug)]
pub struct Pdf {
    last_access: AccessTime,
    name: String,
    path: String,
    current_page: u16,
    total_pages: u16,
}

impl View for Pdf {
    type V = PdfView;

    closed spec fn view(&self) -> PdfView {
        PdfView {
            last_access: self.last_access@,
            name: self.name@,
            path: self.path@,
            current_page: self.current_page,
            total_pages: self.total_pages,
        }
    }
}

impl Clone for Pdf {
    fn clone(&self) -> (r: Self)
        ensures
            r == *self,
    {
        Pdf {
            last_access: self.last_access.clone(),
            name: self.name.clone(),
            path: self.path.clone(),
            current_page: self.current_page,
            total_pages: self.total_pages,
        }
    }
}

/// The total pages recorded for a document whose source holds `count`
/// pages, `None` standing for a source that could not be read: the count
/// cut down to sixteen bits, and the placeholder where nothing or zero is
/// left.
pub open spec fn total_pages_of(count: Option<usize>) -> u16 {
    match count {
        Some(n) if n % 65536 != 0 => (n % 65536) as u16,
        _ => PLACEHOLDER_PAGES,
    }
}

/// The share of `total` that `current` has reached, in whole percent,
/// rounded down. With no pages at all the share is 0 for page 0 and
/// unbounded otherwise.
pub open spec fn percentage_of(current: u16, total: u16) -> u32 {
    if total == 0 {
        if current == 0 {
            0
        } else {
            u32::MAX
        }
    } else {
        ((current * 100) / (total as int)) as u32
    }
}

/// Computes `total_pages_of`.
pub fn total_pages_from(count: Option<usize>) -> (pages: u16)
    ensures
        pages == total_pages_of(count),
        pages >= 1,
{
    match count {
        Some(n) => {
            let low: usize = n % 65536;
            if low != 0 {
                low as u16
            } else {
                PLACEHOLDER_PAGES
            }
        },
        None => PLACEHOLDER_PAGES,
    }
}

impl Pdf {
    /// A document from its stored fields, as they stand.
    pub fn from_parts(
        last_access: AccessTime,
        name: String,
        path: String,
        current_page: u16,
        total_pages: u16,
    ) -> (pdf: Pdf)
        ensures
            pdf@ == (PdfView {
                last_access: last_access@,
                name: name@,
                path: path@,
                current_page,
                total_pages,
            }),
    {
        Pdf { last_access, name, path, current_page, total_pages }
    }

    /// A newly found document called `name`, whose source at `path` holds
    /// `count` pages (`None`: the source could not be read). It starts on
    /// page 1 and has never been opened.
    pub fn discovered(name: String, path: String, count: Option<usize>) -> (pdf: Pdf)
        ensures
            pdf@ == (PdfView {
                last_access: None,
                name: name@,
                path: path@,
                current_page: 1,
                total_pages: total_pages_of(count),
            }),
    {
        Pdf {
            last_access: AccessTime::Never,
            name,
            path,
            current_page: 1,
            total_pages: total_pages_from(count),
        }
    }

    /// When the document was last opened.
    pub fn last_access(&self) -> (t: &AccessTime)
        ensures
            t@ == self@.last_access,
    {
        &self.last_access
    }

    /// The document's name.
    pub fn name(&self) -> (name: &str)
        ensures
            name@ == self@.name,
    {
        self.name.as_str()
    }

    /// Where the document's source lies.
    pub fn path(&self) -> (path: &String)
        ensures
            path@ == self@.path,
    {
        &self.path
    }

    /// The page the reader last reached.
    pub fn current_page(&self) -> (page: u16)
        ensures
            page == self@.current_page,
    {
        self.current_page
    }

    /// The number of pages recorded when the document was found.
    pub fn total_pages(&self) -> (pages: u16)
        ensures
            pages == self@.total_pages,
    {
        self.total_pages
    }

    /// Records `when` as the time of the last opening.
    pub fn access_at(&mut self, when: AccessTime)
        ensures
            final(self)@ == (PdfView { last_access: when@, ..old(self)@ }),
    {
        self.last_access = when;
    }

    /// Records the present moment as the time of the last opening: a date
    /// and time laid out year to second, as the local clock shows it.
    pub fn access(&mut self)
        ensures
            final(self)@.last_access matches Some(text) && is_time_text(text),
            final(self)@ == (PdfView { last_access: final(self)@.last_access, ..old(self)@ }),
    {
        self.access_at(AccessTime::now());
    }

    /// Moves the reader to `page`, whatever the number of pages.
    pub fn turn_to(&mut self, page: u16)
        ensures
            final(self)@ == (PdfView { current_page: page, ..old(self)@ }),
    {
        self.current_page = page;
    }

    /// Whether the reader stands on a page that the document has: from 1 up
    /// to the total. Nothing in the registry enforces this; a page is set as
    /// it is asked for.
    pub fn page_in_range(&self) -> (yes: bool)
        ensures
            yes == (1 <= self@.current_page <= self@.total_pages),
    {
        1 <= self.current_page && self.current_page <= self.total_pages
    }

    /// How much of the document has been read, in whole percent.
    pub fn percentage_read(&self) -> (percent: u32)
        ensures
            percent == percentage_of(self@.current_page, self@.total_pages),
    {
        if self.total_pages == 0 {
            if self.current_page == 0 {
                0
            } else {
                u32::MAX
            }
        } else {
            (self.current_page as u32 * 100) / (self.total_pages as u32)
        }
    }
}

/// The stem that `std::path::Path::file_stem` finds in the path written as
/// `path`, read as paths are read on the platform the library is built for:
/// the file name up to its last dot, the whole file name where it has no dot
/// or its only dot is its first character, and `None` where the path has no
/// file name.
pub uninterp spec fn path_file_stem(path: Seq<char>) -> Option<Seq<char>>;

/// `std::path::Path::file_stem` on `path`, as text. The result is the stem
/// that std finds, and `None` exactly where std finds none.
#[verifier::external_body]
pub(crate) fn file_stem(path: &str) -> (stem: Option<String>)
    ensures
        match stem {
            Some(s) => path_file_stem(path@) == Some(s@),
            None => path_file_stem(path@) is None,
        },
{
    match std::path::Path::new(path).file_stem() {
        Some(s) => s.to_str().map(String::from),
        None => None,
    }
}

/// `lopdf::Document::load_mem` on `source`: the document that `lopdf` reads
/// from the bytes, or its error. Nothing is claimed of the outcome: `lopdf`
/// reads large files on several threads, and on a damaged file the outcome
/// can turn on which thread comes first.
#[verifier::external_body]
fn load_document(source: &[u8]) -> (loaded: Result<lopdf::Document, lopdf::Error>) {
    lopdf::Document::load_mem(source)
}

/// The length of the page table that `lopdf::Document::get_pages` builds
/// for `document`. Nothing is claimed of the number.
#[verifier::external_body]
fn document_pages(document: &lopdf::Document) -> (count: usize) {
    document.get_pages().len()
}

/// The document that a newly found file at `path` becomes where the reading
/// of its content gave `count` pages (`None`: it could not be read): named
/// by the stem of the path, on page 1, never opened.
pub open spec fn found_document(path: Seq<char>, count: Option<usize>) -> PdfView {
    PdfView {
        last_access: None,
        name: path_file_stem(path).unwrap(),
        path,
        current_page: 1,
        total_pages: total_pages_of(count),
    }
}

impl Pdf {
    /// The document that a source file stands for: named by the stem of
    /// `path`, on page 1, never opened, with the pages that the reading of
    /// `source`, the file's content, gives. A source that cannot be read
    /// still gives a document, with the placeholder as its total. What the
    /// reading gives is up to `lopdf`; whatever it is, the total is at least
    /// 1.
    pub fn new(path: String, source: &[u8]) -> (pdf: Pdf)
        requires
            path_file_stem(path@) is Some,
        ensures
            exists|count: Option<usize>|
                pdf@ == #[trigger] found_document(path@, count),
            pdf@.total_pages >= 1,
    {
        let name: String = file_stem(path.as_str()).unwrap();
        let count: Option<usize> = match load_document(source) {
            Ok(document) => Some(document_pages(&document)),
            Err(_) => None,
        };
        let pdf = Pdf::discovered(name, path, count);
        assert(pdf@ == found_document(path@, count));
        pdf
    }

    /// As `new`, for any path: `None` where the path names no file.
    pub fn try_new(path: String, source: &[u8]) -> (found: Option<Pdf>)
        ensures
            found is Some <==> path_file_stem(path@) is Some,
            found matches Some(pdf) ==> pdf@.total_pages >= 1 && exists|count: Option<usize>|
                pdf@ == #[trigger] found_document(path@, count),
    {
        if file_stem(path.as_str()).is_some() {
            Some(Pdf::new(path, source))
        } else {
            None
        }
    }
}

/// The documents that `lopdf` reads.
#[verifier::external_type_specification]
#[verifier::external_body]
pub struct ExDocument(lopdf::Document);

/// The errors with which `lopdf` refuses a source.
#[verifier::external_type_specification]
#[verifier::external_body]
pub struct ExLopdfError(lopdf::Error);

/// The registry that a list of documents stands for: each is entered under
/// its own name, a later one replacing an earlier one of the same name.
pub open spec fn map_of(s: Seq<Pdf>) -> Map<Seq<char>, PdfView>
    decreases s.len(),
{
    if s.len() == 0 {
        Map::empty()
    } else {
        map_of(s.drop_last()).insert(s.last()@.name, s.last()@)
    }
}

/// No two documents of the list share a name.
pub open spec fn distinct_names(s: Seq<Pdf>) -> bool {
    forall|i: int, j: int| 0 <= i < j < s.len() ==> (#[trigger] s[i])@.name != (#[trigger] s[j])@.name
}

/// What a lookup of `name` finds in registry `m`.
pub open spec fn lookup(m: Map<Seq<char>, PdfView>, name: Seq<char>) -> Option<PdfView> {
    if m.contains_key(normalized(name)) {
        Some(m[normalized(name)])
    } else {
        None
    }
}

/// Registry `m` after document `d` was added.
pub open spec fn added(m: Map<Seq<char>, PdfView>, d: PdfView) -> Map<Seq<char>, PdfView> {
    m.insert(d.name, d)
}

/// Registry `m` after the document that a lookup of `name` finds was
/// replaced by `d`; `m` itself where the lookup finds none.
pub open spec fn replaced(m: Map<Seq<char>, PdfView>, name: Seq<char>, d: PdfView) -> Map<
    Seq<char>,
    PdfView,
> {
    if m.contains_key(normalized(name)) {
        m.insert(normalized(name), d)
    } else {
        m
    }
}

/// Registry `m` after the page of the document called `name` was set to
/// `page`; `m` itself where there is no such document.
pub open spec fn page_set(m: Map<Seq<char>, PdfView>, name: Seq<char>, page: u16) -> Map<
    Seq<char>,
    PdfView,
> {
    if m.contains_key(normalized(name)) {
        m.insert(normalized(name), PdfView { current_page: page, ..m[normalized(name)] })
    } else {
        m
    }
}

/// A name is in the registry of a list exactly if a document of the list
/// bears it.
pub proof fn lemma_map_of_dom(s: Seq<Pdf>, k: Seq<char>)
    ensures
        map_of(s).contains_key(k) <==> exists|i: int| 0 <= i < s.len() && (#[trigger] s[i])@.name == k,
    decreases s.len(),
{
    if s.len() > 0 {
        lemma_map_of_dom(s.drop_last(), k);
        if map_of(s).contains_key(k) {
            if s.last()@.name == k {
                assert(s[s.len() - 1]@.name == k);
            } else {
                let i = choose|i: int| 0 <= i < s.drop_last().len() && (#[trigger] s.drop_last()[i])@.name == k;
                assert(s[i]@.name == k);
            }
        }
        if exists|i: int| 0 <= i < s.len() && (#[trigger] s[i])@.name == k {
            let i = choose|i: int| 0 <= i < s.len() && (#[trigger] s[i])@.name == k;
            if i < s.len() - 1 {
                assert(s.drop_last()[i]@.name == k);
            }
        }
    }
}

/// Where names are distinct, each document of a list is what the registry
/// holds under its name.
pub proof fn lemma_map_of_index(s: Seq<Pdf>, i: int)
    requires
        distinct_names(s),
        0 <= i < s.len(),
    ensures
        map_of(s).contains_key(s[i]@.name),
        map_of(s)[s[i]@.name] == s[i]@,
    decreases s.len(),
{
    if i < s.len() - 1 {
        assert(s.drop_last()[i] == s[i]);
        assert(distinct_names(s.drop_last())) by {
            assert forall|a: int, b: int| 0 <= a < b < s.drop_last().len() implies (
            #[trigger] s.drop_last()[a])@.name != (#[trigger] s.drop_last()[b])@.name by {
                assert(s[a]@.name != s[b]@.name);
            }
        }
        lemma_map_of_index(s.drop_last(), i);
        assert(s[i]@.name != s[s.len() - 1]@.name);
    }
}

/// Replacing a document of a list by one of the same name enters the new
/// one in the registry, and keeps the names distinct.
pub proof fn lemma_map_of_update(s: Seq<Pdf>, i: int, p: Pdf)
    requires
        distinct_names(s),
        0 <= i < s.len(),
        p@.name == s[i]@.name,
    ensures
        distinct_names(s.update(i, p)),
        map_of(s.update(i, p)) == map_of(s).insert(p@.name, p@),
    decreases s.len(),
{
    let t = s.update(i, p);
    assert(distinct_names(t)) by {
        assert forall|a: int, b: int| 0 <= a < b < t.len() implies (#[trigger] t[a])@.name != (
        #[trigger] t[b])@.name by {
            assert(s[a]@.name != s[b]@.name);
        }
    }
    if i == s.len() - 1 {
        assert(t.drop_last() =~= s.drop_last());
        assert(map_of(t) =~= map_of(s).insert(p@.name, p@));
    } else {
        assert(distinct_names(s.drop_last())) by {
            assert forall|a: int, b: int| 0 <= a < b < s.drop_last().len() implies (
            #[trigger] s.drop_last()[a])@.name != (#[trigger] s.drop_last()[b])@.name by {
                assert(s[a]@.name != s[b]@.name);
            }
        }
        lemma_map_of_update(s.drop_last(), i, p);
        assert(t.drop_last() =~= s.drop_last().update(i, p));
        assert(t.last() == s.last());
        assert(s[i]@.name != s[s.len() - 1]@.name);
        assert(map_of(t) =~= map_of(s).insert(p@.name, p@));
    }
}

/// Every document of the registry of a list stands under its own name, and
/// the registry holds finitely many.
pub proof fn lemma_map_of_keyed(s: Seq<Pdf>)
    ensures
        map_of(s).dom().finite(),
        forall|k: Seq<char>| map_of(s).contains_key(k) ==> (#[trigger] map_of(s)[k]).name == k,
    decreases s.len(),
{
    if s.len() > 0 {
        lemma_map_of_keyed(s.drop_last());
    }
}

/// The registry: every tracked document under its name, no name twice.
///
/// The documents are kept in a list, which a lookup walks. Of a hash map
/// keyed by `String` nothing could be proved here: what vstd says of
/// `HashMap` holds only for keys whose hashing it knows, and `String` is not
/// among them.
#[derive(Debug)]
pub struct PdfCollection {
    pdfs: Vec<Pdf>,
}

impl View for PdfCollection {
    type V = Map<Seq<char>, PdfView>;

    closed spec fn view(&self) -> Map<Seq<char>, PdfView> {
        map_of(self.pdfs@)
    }
}

impl Clone for PdfCollection {
    fn clone(&self) -> (c: Self)
        ensures
            c@ == self@,
            self.wf() ==> c.wf(),
    {
        let n: usize = self.pdfs.len();
        let mut pdfs: Vec<Pdf> = Vec::new();
        let mut i: usize = 0;
        while i < n
            invariant
                i <= n,
                n == self.pdfs.len(),
                pdfs@ == self.pdfs@.take(i as int),
            decreases n - i,
        {
            pdfs.push(self.pdfs[i].clone());
            proof {
                assert(self.pdfs@.take(i + 1) =~= self.pdfs@.take(i as int).push(self.pdfs@[i as int]));
            }
            i = i + 1;
        }
        proof {
            assert(self.pdfs@.take(n as int) =~= self.pdfs@);
        }
        PdfCollection { pdfs }
    }
}

impl PdfCollection {
    /// The registry is sound: no two of its documents share a name.
    pub closed spec fn wf(&self) -> bool {
        distinct_names(self.pdfs@)
    }

    /// Every document stands under its own name, and there are finitely
    /// many.
    pub proof fn law_keyed_by_name(&self)
        ensures
            self@.dom().finite(),
            forall|k: Seq<char>| self@.contains_key(k) ==> (#[trigger] self@[k]).name == k,
    {
        lemma_map_of_keyed(self.pdfs@);
    }

    /// An empty registry.
    pub fn new() -> (c: Self)
        ensures
            c.wf(),
            c@ == Map::<Seq<char>, PdfView>::empty(),
    {
        PdfCollection { pdfs: Vec::new() }
    }

    /// Where the document with exactly the name `key` stands.
    fn position(&self, key: &String) -> (at: Option<usize>)
        requires
            self.wf(),
        ensures
            match at {
                Some(i) => i < self.pdfs.len() && self.pdfs[i as int]@.name == key@
                    && self@.contains_key(key@) && self@[key@] == self.pdfs[i as int]@,
                None => !self@.contains_key(key@),
            },
    {
        let n: usize = self.pdfs.len();
        let mut i: usize = 0;
        while i < n
            invariant
                i <= n,
                n == self.pdfs.len(),
                self.wf(),
                forall|j: int| 0 <= j < i ==> (#[trigger] self.pdfs[j])@.name != key@,
            decreases n - i,
        {
            if self.pdfs[i].name == *key {
                proof {
                    lemma_map_of_index(self.pdfs@, i as int);
                }
                return Some(i);
            }
            i = i + 1;
        }
        proof {
            lemma_map_of_dom(self.pdfs@, key@);
        }
        None
    }

    /// A copy of the document that a lookup of `name` finds.
    pub fn get_book_by_name(&self, name: &str) -> (found: Option<Pdf>)
        requires
            self.wf(),
        ensures
            match found {
                Some(pdf) => lookup(self@, name@) == Some(pdf@),
                None => lookup(self@, name@) is None,
            },
    {
        let key: String = strip_pdf_suffix(name).to_owned();
        match self.position(&key) {
            Some(i) => Some(self.pdfs[i].clone()),
            None => None,
        }
    }

    /// The document that a lookup of `name` finds, open to change. The
    /// registry follows whatever the caller does to it. It stays sound as
    /// long as the document keeps its name.
    pub fn get_book_by_name_mut(&mut self, name: &str) -> (found: Option<&mut Pdf>)
        requires
            old(self).wf(),
        ensures
            match found {
                Some(pdf) => {
                    &&& lookup(old(self)@, name@) == Some(pdf@)
                    &&& final(pdf)@.name == pdf@.name ==> final(self).wf() && final(self)@
                        == replaced(old(self)@, name@, final(pdf)@)
                },
                None => {
                    &&& lookup(old(self)@, name@) is None
                    &&& final(self).wf()
                    &&& final(self)@ == old(self)@
                },
            },
    {
        let key: String = strip_pdf_suffix(name).to_owned();
        match self.position(&key) {
            Some(i) => {
                proof {
                    assert forall|p: Pdf| p@.name == self.pdfs@[i as int]@.name implies distinct_names(
                        self.pdfs@.update(i as int, p),
                    ) && map_of(#[trigger] self.pdfs@.update(i as int, p)) == map_of(self.pdfs@).insert(
                        p@.name,
                        p@,
                    ) by {
                        lemma_map_of_update(self.pdfs@, i as int, p);
                    }
                }
                Some(&mut self.pdfs[i])
            },
            None => None,
        }
    }

    /// Whether a lookup of `name` finds a document.
    pub fn has_book(&self, name: &str) -> (has: bool)
        requires
            self.wf(),
        ensures
            has == lookup(self@, name@).is_some(),
    {
        let key: String = strip_pdf_suffix(name).to_owned();
        self.position(&key).is_some()
    }

    /// Sets the page of the document that a lookup of `name` finds to
    /// `new_page`, whatever its number of pages. `None` where there is no
    /// such document; the registry is then left as it was.
    pub fn set_page_by_name(&mut self, name: &str, new_page: u16) -> (done: Option<()>)
        requires
            old(self).wf(),
        ensures
            final(self).wf(),
            done is Some <==> lookup(old(self)@, name@) is Some,
            final(self)@ == page_set(old(self)@, name@, new_page),
    {
        let key: String = strip_pdf_suffix(name).to_owned();
        match self.position(&key) {
            Some(i) => {
                let mut pdf: Pdf = self.pdfs[i].clone();
                pdf.turn_to(new_page);
                proof {
                    lemma_map_of_update(self.pdfs@, i as int, pdf);
                }
                self.pdfs.set(i, pdf);
                Some(())
            },
            None => None,
        }
    }

    /// Enters `pdf` under its own name, in place of any document that bore
    /// the name before.
    pub fn add_book(&mut self, pdf: Pdf)
        requires
            old(self).wf(),
        ensures
            final(self).wf(),
            final(self)@ == added(old(self)@, pdf@),
    {
        match self.position(&pdf.name) {
            Some(i) => {
                proof {
                    lemma_map_of_update(self.pdfs@, i as int, pdf);
                }
                self.pdfs.set(i, pdf);
            },
            None => {
                proof {
                    let s = self.pdfs@;
                    assert(s.push(pdf).drop_last() =~= s);
                    assert(distinct_names(s.push(pdf))) by {
                        assert forall|a: int, b: int| 0 <= a < b < s.push(pdf).len() implies (
                        #[trigger] s.push(pdf)[a])@.name != (#[trigger] s.push(pdf)[b])@.name by {
                            if b < s.len() {
                                assert(s[a]@.name != s[b]@.name);
                            } else {
                                lemma_map_of_dom(s, pdf@.name);
                                assert(s[a]@.name != pdf@.name);
                            }
                        }
                    }
                }
                self.pdfs.push(pdf);
            },
        }
    }

    /// A copy of every document, in no particular order: a snapshot that
    /// later changes to the registry do not reach.
    pub fn pdfs(&self) -> (all: Vec<Pdf>)
        requires
            self.wf(),
        ensures
            distinct_names(all@),
            map_of(all@) == self@,
    {
        self.clone().pdfs
    }

    /// The registry that `pdfs` stands for: each entered in turn, so that of
    /// two with one name the later stays.
    pub fn from_pdfs(pdfs: Vec<Pdf>) -> (c: Self)
        ensures
            c.wf(),
            c@ == map_of(pdfs@),
    {
        let n: usize = pdfs.len();
        let mut c: PdfCollection = PdfCollection::new();
        let mut i: usize = 0;
        while i < n
            invariant
                i <= n,
                n == pdfs.len(),
                c.wf(),
                c@ == map_of(pdfs@.take(i as int)),
            decreases n - i,
        {
            proof {
                assert(pdfs@.take(i + 1).drop_last() =~= pdfs@.take(i as int));
            }
            c.add_book(pdfs[i].clone());
            i = i + 1;
        }
        proof {
            assert(pdfs@.take(n as int) =~= pdfs@);
        }
        c
    }
}

/// A name followed by `.pdf` is looked up under the name itself.
pub proof fn lemma_suffix_is_stripped(name: Seq<char>)
    ensures
        normalized(name + pdf_suffix()) == name,
{
    let long = name + pdf_suffix();
    assert(long.subrange(long.len() - 4, long.len() as int) =~= pdf_suffix());
    assert(long.subrange(0, long.len() - 4) =~= name);
}

/// A document that was added is found as it was added: under its name
/// followed by `.pdf` in any case, and under its name alone where the name
/// does not itself end in `.pdf`. (A lookup strips that ending from what it
/// is asked for; an addition strips nothing.)
pub proof fn law_add_then_lookup(m: Map<Seq<char>, PdfView>, d: PdfView)
    ensures
        lookup(added(m, d), d.name + pdf_suffix()) == Some(d),
        normalized(d.name) == d.name ==> lookup(added(m, d), d.name) == Some(d),
{
    lemma_suffix_is_stripped(d.name);
}

/// A lookup finds the same under a name and under that name followed by
/// `.pdf`, for every name that does not itself end in `.pdf`. For any name
/// at all, the lookup with `.pdf` finds what the registry holds under the
/// very name.
pub proof fn law_lookup_ignores_suffix(m: Map<Seq<char>, PdfView>, name: Seq<char>)
    ensures
        lookup(m, name + pdf_suffix()) == (if m.contains_key(name) {
            Some(m[name])
        } else {
            None
        }),
        normalized(name) == name ==> lookup(m, name + pdf_suffix()) == lookup(m, name),
{
    lemma_suffix_is_stripped(name);
}

/// Setting the page of a document that is there makes a lookup of the same
/// name find it on that page, with nothing else about it changed, and leaves
/// every other document as it was. Setting the page under a name that is not
/// there leaves the registry as it was.
pub proof fn law_set_page_then_lookup(m: Map<Seq<char>, PdfView>, name: Seq<char>, page: u16)
    ensures
        lookup(m, name) matches Some(d) ==> lookup(page_set(m, name, page), name) == Some(
            PdfView { current_page: page, ..d },
        ),
        lookup(m, name) is None ==> page_set(m, name, page) == m,
        page_set(m, name, page).dom() == m.dom(),
        forall|k: Seq<char>|
            k != normalized(name) && m.contains_key(k) ==> #[trigger] page_set(m, name, page)[k]
                == m[k],
{
    assert(page_set(m, name, page).dom() =~= m.dom());
}

/// Pages set under two different keys do not touch each other: either order
/// gives the same registry, and each document ends on its own page.
pub proof fn law_set_page_commutes(
    m: Map<Seq<char>, PdfView>,
    a: Seq<char>,
    p: u16,
    b: Seq<char>,
    q: u16,
)
    requires
        normalized(a) != normalized(b),
    ensures
        page_set(page_set(m, a, p), b, q) == page_set(page_set(m, b, q), a, p),
        lookup(m, a) is Some ==> lookup(page_set(page_set(m, a, p), b, q), a).unwrap().current_page
            == p,
        lookup(m, b) is Some ==> lookup(page_set(page_set(m, a, p), b, q), b).unwrap().current_page
            == q,
{
    assert(page_set(page_set(m, a, p), b, q) =~= page_set(page_set(m, b, q), a, p));
}

} // verus!
