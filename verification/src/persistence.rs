//! Keeping the registry in step with the source files, and the snapshot of
//! registry and reading log that is written out as one.

use crate::routes::stats::{refreshed_events, Moment, ReadingEvent, ReadingStatistics};
use crate::state::{
    added, file_stem, found_document, lookup, normalized, path_file_stem, Pdf, PdfCollection,
    PdfView,
};
use vstd::prelude::*;
use vstd::string::*;

verus! {

/// The extension that `std::path::Path::extension` finds in the path
/// written as `path`, read as paths are read on the platform the library is
/// built for: the part of the file name after its last dot, and `None`
/// where the path has no file name, the file name has no dot, or its only
/// dot is its first character.
pub uninterp spec fn path_extension(path: Seq<char>) -> Option<Seq<char>>;

/// `std::path::Path::extension` on `path`, as text. The result is the
/// extension that std finds, and `None` exactly where std finds none.
#[verifier::external_body]
fn extension(path: &str) -> (ext: Option<String>)
    ensures
        match ext {
            Some(e) => path_extension(path@) == Some(e@),
            None => path_extension(path@) is None,
        },
{
    match std::path::Path::new(path).extension() {
        Some(e) => e.to_str().map(String::from),
        None => None,
    }
}

/// The extension by which a source file is recognised.
pub open spec fn document_extension() -> Seq<char> {
    seq!['p', 'd', 'f']
}

/// One file found in a content directory.
#[derive(Debug)]
pub struct SourceFile {
    /// Where the file lies.
    pub path: String,
    /// The bytes it holds.
    pub content: Vec<u8>,
}

/// Whether the file at `path` is a document with a name that registry `m`
/// does not hold yet.
pub open spec fn wanted(m: Map<Seq<char>, PdfView>, path: Seq<char>) -> bool {
    &&& path_extension(path) == Some(document_extension())
    &&& path_file_stem(path) is Some
    &&& lookup(m, path_file_stem(path).unwrap()) is None
}

/// Registry `m` after the file at `path` was looked at, where the reading
/// of its content gave `count` pages: with its document added where it was
/// wanted, unchanged where not.
pub open spec fn with_file(
    m: Map<Seq<char>, PdfView>,
    path: Seq<char>,
    count: Option<usize>,
) -> Map<Seq<char>, PdfView> {
    if wanted(m, path) {
        added(m, found_document(path, count))
    } else {
        m
    }
}

/// Registry `m` after every file of `files` was looked at in turn. A file
/// is given by its path and the pages that the reading of its content gave.
pub open spec fn reconciled(
    m: Map<Seq<char>, PdfView>,
    files: Seq<(Seq<char>, Option<usize>)>,
) -> Map<Seq<char>, PdfView>
    decreases files.len(),
{
    if files.len() == 0 {
        m
    } else {
        with_file(reconciled(m, files.drop_last()), files.last().0, files.last().1)
    }
}

/// How many documents a pass over `files` adds to registry `m`.
pub open spec fn added_count(
    m: Map<Seq<char>, PdfView>,
    files: Seq<(Seq<char>, Option<usize>)>,
) -> nat
    decreases files.len(),
{
    if files.len() == 0 {
        0
    } else {
        added_count(m, files.drop_last()) + (if wanted(
            reconciled(m, files.drop_last()),
            files.last().0,
        ) {
            1nat
        } else {
            0nat
        })
    }
}

/// The files of `files` by their paths, each with the pages that `counts`
/// gives for it.
pub open spec fn readings(files: Seq<SourceFile>, counts: Seq<Option<usize>>) -> Seq<
    (Seq<char>, Option<usize>),
> {
    Seq::new(files.len(), |i: int| (files[i].path@, counts[i]))
}

/// Whether the file at `path` should get a document: it has the document
/// extension, and the registry holds nothing under its stem.
pub fn is_wanted(pdfs: &PdfCollection, path: &str) -> (yes: bool)
    requires
        pdfs.wf(),
    ensures
        yes == wanted(pdfs@, path@),
{
    let is_document: bool = match extension(path) {
        Some(e) => {
            proof {
                reveal_strlit("pdf");
                assert("pdf"@ =~= document_extension());
            }
            e == "pdf".to_owned()
        },
        None => false,
    };
    if !is_document {
        return false;
    }
    match file_stem(path) {
        Some(name) => !pdfs.has_book(name.as_str()),
        None => false,
    }
}

/// Looks at one file: where it is wanted, its document is built from
/// `source` and added. Says whether it was. The pages of the document are
/// what the reading of `source` gives.
pub fn sync_entry(pdfs: &mut PdfCollection, path: String, source: &[u8]) -> (was_added: bool)
    requires
        old(pdfs).wf(),
    ensures
        final(pdfs).wf(),
        was_added == wanted(old(pdfs)@, path@),
        exists|count: Option<usize>| final(pdfs)@ == #[trigger] with_file(old(pdfs)@, path@, count),
        !was_added ==> final(pdfs)@ == old(pdfs)@,
{
    if is_wanted(pdfs, path.as_str()) {
        let pdf: Pdf = Pdf::new(path, source);
        proof {
            let count = choose|count: Option<usize>| pdf@ == #[trigger] found_document(path@, count);
            assert(added(pdfs@, pdf@) == with_file(pdfs@, path@, count));
        }
        pdfs.add_book(pdf);
        true
    } else {
        assert(pdfs@ == with_file(pdfs@, path@, None));
        false
    }
}

/// Looks at every file of `files` in turn, and says how many documents were
/// added. The pages of each new document are what the reading of its file
/// gives.
pub fn sync_files(pdfs: &mut PdfCollection, files: &Vec<SourceFile>) -> (count: usize)
    requires
        old(pdfs).wf(),
    ensures
        final(pdfs).wf(),
        exists|counts: Seq<Option<usize>>|
            {
                &&& counts.len() == files@.len()
                &&& final(pdfs)@ == reconciled(old(pdfs)@, #[trigger] readings(files@, counts))
                &&& count == added_count(old(pdfs)@, readings(files@, counts))
            },
        count <= files@.len(),
{
    let n: usize = files.len();
    let mut count: usize = 0;
    let mut i: usize = 0;
    let ghost mut counts: Seq<Option<usize>> = Seq::empty();
    while i < n
        invariant
            i <= n,
            n == files.len(),
            count <= i,
            counts.len() == i,
            count == added_count(old(pdfs)@, readings(files@.take(i as int), counts)),
            pdfs.wf(),
            pdfs@ == reconciled(old(pdfs)@, readings(files@.take(i as int), counts)),
        decreases n - i,
    {
        let ghost before = pdfs@;
        let was_added: bool = sync_entry(pdfs, files[i].path.clone(), files[i].content.as_slice());
        proof {
            let path = files@[i as int].path@;
            let got = choose|got: Option<usize>| pdfs@ == #[trigger] with_file(before, path, got);
            let head = readings(files@.take(i as int), counts);
            let next = readings(files@.take(i + 1), counts.push(got));
            assert(next.drop_last() =~= head);
            assert(next.last() == (path, got));
            counts = counts.push(got);
        }
        if was_added {
            count = count + 1;
        }
        i = i + 1;
    }
    proof {
        assert(files@.take(n as int) =~= files@);
    }
    count
}

/// Registry and reading log, bundled for writing out as one.
#[derive(Debug)]
pub struct DiscState {
    pub pdfs: PdfCollection,
    pub reading_history: ReadingStatistics,
}

impl DiscState {
    /// The state to start from where none was stored: no documents, no
    /// events.
    pub fn empty() -> (state: DiscState)
        ensures
            state.pdfs.wf(),
            state.pdfs@ == Map::<Seq<char>, PdfView>::empty(),
            state.reading_history@ == Seq::<ReadingEvent>::empty(),
    {
        DiscState { pdfs: PdfCollection::new(), reading_history: ReadingStatistics::new() }
    }

    /// A copy of registry and reading log as they stand.
    pub fn snapshot(pdfs: &PdfCollection, reading_history: &ReadingStatistics) -> (state: DiscState)
        ensures
            state.pdfs@ == pdfs@,
            pdfs.wf() ==> state.pdfs.wf(),
            state.reading_history@ == reading_history@,
    {
        DiscState { pdfs: pdfs.clone(), reading_history: reading_history.clone() }
    }

    /// The state as it comes back from the parts that are written out, the
    /// list of documents and the list of events: the same registry, with
    /// every document as it was, and the same events in the same order.
    pub fn reloaded(&self) -> (state: DiscState)
        requires
            self.pdfs.wf(),
        ensures
            state.pdfs.wf(),
            state.pdfs@ == self.pdfs@,
            state.reading_history@ == self.reading_history@,
    {
        DiscState::restore(self.pdfs.pdfs(), self.reading_history.events())
    }

    /// The state that the stored documents and events stand for: the
    /// documents entered in turn, the events as they are.
    pub fn restore(pdfs: Vec<Pdf>, events: Vec<ReadingEvent>) -> (state: DiscState)
        ensures
            state.pdfs.wf(),
            state.pdfs@ == crate::state::map_of(pdfs@),
            state.reading_history@ == events@,
    {
        DiscState {
            pdfs: PdfCollection::from_pdfs(pdfs),
            reading_history: ReadingStatistics::from_events(events),
        }
    }
}

/// One cycle of keeping state in step, but for reading and writing: every
/// file of `files` is looked at, the reading log is refreshed as of `now`,
/// and the snapshot to write out is returned.
pub fn sync_state(
    files: &Vec<SourceFile>,
    pdfs: &mut PdfCollection,
    reading_history: &mut ReadingStatistics,
    now: Moment,
) -> (state: DiscState)
    requires
        old(pdfs).wf(),
    ensures
        final(pdfs).wf(),
        exists|counts: Seq<Option<usize>>|
            counts.len() == files@.len() && final(pdfs)@ == reconciled(
                old(pdfs)@,
                #[trigger] readings(files@, counts),
            ),
        final(reading_history)@ == refreshed_events(old(reading_history)@, now),
        state.pdfs.wf(),
        state.pdfs@ == final(pdfs)@,
        state.reading_history@ == final(reading_history)@,
{
    let _: usize = sync_files(pdfs, files);
    reading_history.update_at(now);
    DiscState::snapshot(pdfs, reading_history)
}

/// Looking at files only ever adds names to the registry.
pub proof fn lemma_reconciled_keeps_names(
    m: Map<Seq<char>, PdfView>,
    files: Seq<(Seq<char>, Option<usize>)>,
    j: int,
)
    requires
        0 <= j <= files.len(),
    ensures
        forall|k: Seq<char>| #[trigger]
            reconciled(m, files.take(j)).contains_key(k) ==> reconciled(m, files).contains_key(k),
    decreases files.len(),
{
    if j == files.len() {
        assert(files.take(j) =~= files);
    } else {
        assert(files.drop_last().take(j) =~= files.take(j));
        lemma_reconciled_keeps_names(m, files.drop_last(), j);
    }
}

/// A second pass over the first `j` files, begun on the registry that a
/// full pass left, holds the same names as that registry, and under each
/// either the same document or the one that the first pass had there after
/// its own first `j` files.
proof fn lemma_second_pass(m: Map<Seq<char>, PdfView>, files: Seq<(Seq<char>, Option<usize>)>, j: int)
    requires
        0 <= j <= files.len(),
    ensures
        ({
            let done = reconciled(m, files);
            let first = reconciled(m, files.take(j));
            let second = reconciled(done, files.take(j));
            &&& forall|k: Seq<char>| #[trigger] second.contains_key(k) <==> done.contains_key(k)
            &&& forall|k: Seq<char>| #[trigger]
                done.contains_key(k) ==> second[k] == done[k] || (!done.contains_key(normalized(k))
                    && first.contains_key(k) && second[k] == first[k])
        }),
    decreases j,
{
    let done = reconciled(m, files);
    if j == 0 {
        assert(files.take(0) =~= Seq::<(Seq<char>, Option<usize>)>::empty());
    } else {
        lemma_second_pass(m, files, j - 1);
        lemma_reconciled_keeps_names(m, files, j - 1);
        lemma_reconciled_keeps_names(m, files, j);
        assert(files.take(j).drop_last() =~= files.take(j - 1));
        assert(files.take(j).last() == files[j - 1]);
        let path = files[j - 1].0;
        let count = files[j - 1].1;
        let first_before = reconciled(m, files.take(j - 1));
        let second_before = reconciled(done, files.take(j - 1));
        let first = reconciled(m, files.take(j));
        let second = reconciled(done, files.take(j));
        assert(first == with_file(first_before, path, count));
        assert(second == with_file(second_before, path, count));
        if wanted(second_before, path) {
            let name = path_file_stem(path).unwrap();
            assert(!done.contains_key(normalized(name)));
            assert(!first_before.contains_key(normalized(name)));
            assert(wanted(first_before, path));
            assert(first.contains_key(name));
            assert(done.contains_key(name));
        }
    }
}

/// Reconciliation is idempotent: a second pass over the same files, with
/// nothing changed in between, so that each is read as it was read before,
/// leaves the registry that the first pass left. No document is entered
/// twice, since the registry holds one document to a name.
pub proof fn law_reconciliation_idempotent(
    m: Map<Seq<char>, PdfView>,
    files: Seq<(Seq<char>, Option<usize>)>,
)
    ensures
        reconciled(reconciled(m, files), files) == reconciled(m, files),
{
    lemma_second_pass(m, files, files.len() as int);
    assert(files.take(files.len() as int) =~= files);
    assert(reconciled(reconciled(m, files), files) =~= reconciled(m, files));
}

/// A file that was looked at is not wanted again, where its name does not
/// itself end in `.pdf`: a pass leaves a document under the name of every
/// such file that bears the document extension.
pub proof fn law_reconciled_holds_every_document(
    m: Map<Seq<char>, PdfView>,
    files: Seq<(Seq<char>, Option<usize>)>,
    i: int,
)
    requires
        0 <= i < files.len(),
        path_extension(files[i].0) == Some(document_extension()),
        path_file_stem(files[i].0) matches Some(name) && normalized(name) == name,
    ensures
        lookup(reconciled(m, files), path_file_stem(files[i].0).unwrap()) is Some,
        !wanted(reconciled(m, files), files[i].0),
{
    lemma_reconciled_keeps_names(m, files, i + 1);
    assert(files.take(i + 1).drop_last() =~= files.take(i));
    assert(files.take(i + 1).last() == files[i]);
    let name = path_file_stem(files[i].0).unwrap();
    assert(reconciled(m, files.take(i + 1)).contains_key(name));
}

/// The file at `path` has a name that does not itself end in `.pdf`, if it
/// has a name at all.
pub open spec fn plainly_named(path: Seq<char>) -> bool {
    path_file_stem(path) matches Some(name) ==> normalized(name) == name
}

/// A second pass over the first `j` of the same paths, begun on the
/// registry that a full pass left, changes nothing where every file is
/// plainly named.
proof fn lemma_second_pass_prefix(
    m: Map<Seq<char>, PdfView>,
    first: Seq<(Seq<char>, Option<usize>)>,
    second: Seq<(Seq<char>, Option<usize>)>,
    j: int,
)
    requires
        first.len() == second.len(),
        forall|i: int| 0 <= i < first.len() ==> (#[trigger] second[i]).0 == first[i].0,
        forall|i: int| 0 <= i < first.len() ==> plainly_named((#[trigger] first[i]).0),
        0 <= j <= second.len(),
    ensures
        reconciled(reconciled(m, first), second.take(j)) == reconciled(m, first),
    decreases j,
{
    let done = reconciled(m, first);
    if j == 0 {
        assert(second.take(0) =~= Seq::<(Seq<char>, Option<usize>)>::empty());
    } else {
        lemma_second_pass_prefix(m, first, second, j - 1);
        assert(second.take(j).drop_last() =~= second.take(j - 1));
        assert(second.take(j).last() == second[j - 1]);
        let path = first[j - 1].0;
        assert(plainly_named(path));
        if path_extension(path) == Some(document_extension()) && path_file_stem(path) is Some {
            law_reconciled_holds_every_document(m, first, j - 1);
        }
        assert(!wanted(done, path));
    }
}

/// A second pass changes nothing, whatever the reading of the files gives
/// the second time: where every file is plainly named, a pass over the same
/// paths leaves the registry that the first pass left, even if the pages
/// read differ from those read before.
pub proof fn law_second_pass_changes_nothing(
    m: Map<Seq<char>, PdfView>,
    first: Seq<(Seq<char>, Option<usize>)>,
    second: Seq<(Seq<char>, Option<usize>)>,
)
    requires
        first.len() == second.len(),
        forall|i: int| 0 <= i < first.len() ==> (#[trigger] second[i]).0 == first[i].0,
        forall|i: int| 0 <= i < first.len() ==> plainly_named((#[trigger] first[i]).0),
    ensures
        reconciled(reconciled(m, first), second) == reconciled(m, first),
{
    lemma_second_pass_prefix(m, first, second, second.len() as int);
    assert(second.take(second.len() as int) =~= second);
}

} // verus!
