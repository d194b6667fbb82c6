//! Counting lines in bytes, and summarising a batch of files.
use vstd::prelude::*;

verus! {

/// The byte that ends a line.
pub const NEWLINE: u8 = 10;

/// Files larger than this many bytes are read through a memory map.
pub const MMAP_THRESHOLD: u64 = 1024 * 1024;

/// Files smaller than this many bytes are counted in the sequential batch.
pub const PARALLEL_THRESHOLD: u64 = 100 * 1024;

/// Size of the buffer through which smaller files are read.
pub const BUFFER_SIZE: usize = 2 * 1024 * 1024;

/// How often `b` occurs in `s`.
pub open spec fn occurrences(s: Seq<u8>, b: u8) -> nat
    decreases s.len(),
{
    if s.len() == 0 {
        0
    } else {
        occurrences(s.drop_last(), b) + if s.last() == b {
            1nat
        } else {
            0nat
        }
    }
}

/// The number of lines in `s`: one per newline byte, and one more for a
/// final run of bytes that no newline ends.
pub open spec fn line_count(s: Seq<u8>) -> nat {
    occurrences(s, NEWLINE) + if s.len() > 0 && s.last() != NEWLINE {
        1nat
    } else {
        0nat
    }
}

/// A byte occurs no more often than the sequence is long.
pub proof fn lemma_occurrences_bounded(s: Seq<u8>, b: u8)
    ensures
        occurrences(s, b) <= s.len(),
    decreases s.len(),
{
    if s.len() > 0 {
        lemma_occurrences_bounded(s.drop_last(), b);
    }
}

/// Occurrences in two pieces add up to the occurrences in their concatenation.
pub proof fn lemma_occurrences_concat(a: Seq<u8>, c: Seq<u8>, b: u8)
    ensures
        occurrences(a + c, b) == occurrences(a, b) + occurrences(c, b),
    decreases c.len(),
{
    if c.len() == 0 {
        assert(a + c =~= a);
    } else {
        assert((a + c).drop_last() =~= a + c.drop_last());
        lemma_occurrences_concat(a, c.drop_last(), b);
    }
}

/// Relies on memchr::memchr_iter: it yields each position at which `needle`
/// occurs in `haystack`, once, so the count is the number of occurrences.
#[verifier::external_body]
fn count_byte(needle: u8, haystack: &[u8]) -> (r: usize)
    ensures
        r == occurrences(haystack@, needle),
{
    memchr::memchr_iter(needle, haystack).count()
}

/// Counts the lines in `bytes` in one pass (the memory-mapped strategy).
pub fn count_lines_in(bytes: &[u8]) -> (r: usize)
    ensures
        r == line_count(bytes@),
{
    let n = count_byte(NEWLINE, bytes);
    let len = bytes.len();
    if len > 0 && bytes[len - 1] != NEWLINE {
        proof {
            lemma_occurrences_bounded(bytes@.drop_last(), NEWLINE);
        }
        n + 1
    } else {
        n
    }
}

/// The scan state after `chunk` has been read in the state `(count, last)`:
/// the newlines seen so far, and the last byte seen, if any.
pub open spec fn scan_step(state: (nat, Option<u8>), chunk: Seq<u8>) -> (nat, Option<u8>) {
    (
        state.0 + occurrences(chunk, NEWLINE),
        if chunk.len() > 0 {
            Some(chunk.last())
        } else {
            state.1
        },
    )
}

/// The scan state after reading `chunks` in order, from the empty state.
pub open spec fn scan_chunks(chunks: Seq<Seq<u8>>) -> (nat, Option<u8>)
    decreases chunks.len(),
{
    if chunks.len() == 0 {
        (0, None)
    } else {
        scan_step(scan_chunks(chunks.drop_last()), chunks.last())
    }
}

/// The line count that a scan state stands for.
pub open spec fn scan_result(state: (nat, Option<u8>)) -> nat {
    match state.1 {
        Some(b) => if b != NEWLINE {
            state.0 + 1
        } else {
            state.0
        },
        None => state.0,
    }
}

/// Reading the content in chunks and counting as it comes gives the count of
/// the whole content at once: the buffered and the mapped strategies agree,
/// however the content is split.
pub proof fn lemma_chunked_scan_matches_whole(chunks: Seq<Seq<u8>>)
    ensures
        scan_chunks(chunks).0 == occurrences(chunks.flatten_alt(), NEWLINE),
        scan_chunks(chunks).1 == if chunks.flatten_alt().len() > 0 {
            Some(chunks.flatten_alt().last())
        } else {
            None::<u8>
        },
        scan_result(scan_chunks(chunks)) == line_count(chunks.flatten_alt()),
    decreases chunks.len(),
{
    if chunks.len() > 0 {
        let prefix = chunks.drop_last();
        let c = chunks.last();
        lemma_chunked_scan_matches_whole(prefix);
        lemma_occurrences_concat(prefix.flatten_alt(), c, NEWLINE);
        assert(chunks.flatten_alt() == prefix.flatten_alt() + c);
        if c.len() > 0 {
            assert((prefix.flatten_alt() + c).last() == c.last());
        } else {
            assert(prefix.flatten_alt() + c =~= prefix.flatten_alt());
        }
    }
}

/// Content of no bytes has no lines.
pub proof fn lemma_empty_has_no_lines()
    ensures
        line_count(Seq::<u8>::empty()) == 0,
{
}

/// The incremental line counter behind the buffered strategy: it is fed the
/// content chunk by chunk and keeps only the newlines seen and the last byte.
pub struct LineCounter {
    count: usize,
    last_byte: Option<u8>,
}

impl LineCounter {
    /// The scan state that this counter holds.
    pub closed spec fn state(&self) -> (nat, Option<u8>) {
        (self.count as nat, self.last_byte)
    }

    /// The count of lines still fits in a `usize`.
    pub open spec fn wf(&self) -> bool {
        scan_result(self.state()) <= usize::MAX
    }

    /// A counter that has seen nothing.
    pub fn new() -> (r: Self)
        ensures
            r.wf(),
            r.state() == scan_chunks(Seq::empty()),
    {
        LineCounter { count: 0, last_byte: None }
    }

    /// The number of newlines seen so far.
    pub fn newlines(&self) -> (r: usize)
        ensures
            r == self.state().0,
    {
        self.count
    }

    /// Reads one more chunk.
    pub fn feed(&mut self, chunk: &[u8])
        requires
            old(self).wf(),
            old(self).state().0 + chunk@.len() < usize::MAX,
        ensures
            final(self).wf(),
            final(self).state() == scan_step(old(self).state(), chunk@),
    {
        let n = count_byte(NEWLINE, chunk);
        proof {
            lemma_occurrences_bounded(chunk@, NEWLINE);
        }
        self.count = self.count + n;
        let len = chunk.len();
        if len > 0 {
            self.last_byte = Some(chunk[len - 1]);
        }
    }

    /// The number of lines in everything fed so far.
    pub fn finish(&self) -> (r: usize)
        requires
            self.wf(),
        ensures
            r == scan_result(self.state()),
    {
        match self.last_byte {
            Some(b) => if b != NEWLINE {
                self.count + 1
            } else {
                self.count
            },
            None => self.count,
        }
    }
}

/// How the content of a file is read.
#[derive(Clone, Copy, Debug, PartialEq, Eq, Structural)]
pub enum ReadStrategy {
    /// Through a reusable buffer, chunk by chunk.
    Buffered,
    /// Through a read-only memory map, in one pass.
    Mapped,
}

/// The strategy for a file of `size` bytes: files above the mapping
/// threshold are mapped, all others are read through a buffer.
pub fn read_strategy(size: u64) -> (r: ReadStrategy)
    ensures
        r == (if size > MMAP_THRESHOLD {
            ReadStrategy::Mapped
        } else {
            ReadStrategy::Buffered
        }),
{
    if size > MMAP_THRESHOLD {
        ReadStrategy::Mapped
    } else {
        ReadStrategy::Buffered
    }
}

/// Result of counting lines in a single file.
#[derive(Debug, Clone, PartialEq, Eq)]
pub struct FileCount {
    /// The path to the file, as the caller gave it.
    pub path: String,
    /// The number of lines in the file.
    pub lines: usize,
}

impl FileCount {
    /// Creates a new file count result.
    pub fn new(path: &str, lines: usize) -> (r: Self)
        ensures
            r.path@ == path@,
            r.lines == lines,
    {
        FileCount { path: path.to_owned(), lines }
    }
}

/// The sum of the line counts in `files`.
pub open spec fn total_of(files: Seq<FileCount>) -> nat
    decreases files.len(),
{
    if files.len() == 0 {
        0
    } else {
        total_of(files.drop_last()) + files.last().lines as nat
    }
}

/// Summary of counting results for multiple files.
#[derive(Debug, Clone, Default, PartialEq, Eq)]
pub struct CountSummary {
    /// Individual file counts.
    pub files: Vec<FileCount>,
    /// Total number of lines across all files.
    pub total_lines: usize,
    /// Total number of files counted.
    pub file_count: usize,
}

impl CountSummary {
    /// The totals agree with the individual counts.
    pub open spec fn wf(&self) -> bool {
        &&& self.total_lines == total_of(self.files@)
        &&& self.file_count == self.files@.len()
    }

    /// Creates a new count summary from file counts.
    pub fn from_counts(files: Vec<FileCount>) -> (r: Self)
        requires
            total_of(files@) <= usize::MAX,
        ensures
            r.wf(),
            r.files@ == files@,
    {
        let mut total: usize = 0;
        let mut i: usize = 0;
        while i < files.len()
            invariant
                i <= files@.len(),
                total == total_of(files@.take(i as int)),
                total_of(files@) <= usize::MAX,
            decreases files@.len() - i,
        {
            proof {
                assert(files@.take(i + 1).drop_last() =~= files@.take(i as int));
                lemma_total_of_prefix(files@, i + 1);
            }
            total = total + files[i].lines;
            i = i + 1;
        }
        assert(files@.take(i as int) =~= files@);
        let file_count = files.len();
        CountSummary { files, total_lines: total, file_count }
    }
}

/// A prefix holds no more lines than the whole.
pub proof fn lemma_total_of_prefix(files: Seq<FileCount>, n: int)
    requires
        0 <= n <= files.len(),
    ensures
        total_of(files.take(n)) <= total_of(files),
    decreases files.len(),
{
    if n < files.len() {
        assert(files.drop_last().take(n) =~= files.take(n));
        lemma_total_of_prefix(files.drop_last(), n);
    } else {
        assert(files.take(n) =~= files);
    }
}

/// The files that were counted, in order, from the outcome of each attempt:
/// a path with its line count, or with none where it could not be read.
pub open spec fn successes(outcomes: Seq<(String, Option<usize>)>) -> Seq<FileCount>
    decreases outcomes.len(),
{
    if outcomes.len() == 0 {
        Seq::empty()
    } else {
        let rest = successes(outcomes.drop_last());
        match outcomes.last().1 {
            Some(n) => rest.push(FileCount { path: outcomes.last().0, lines: n }),
            None => rest,
        }
    }
}

/// Summarises a batch from the outcome of each file in it: the files that
/// could not be read are left out, the others keep their order.
pub fn summarize_outcomes(outcomes: &Vec<(String, Option<usize>)>) -> (r: CountSummary)
    requires
        total_of(successes(outcomes@)) <= usize::MAX,
    ensures
        r.wf(),
        r.files@ == successes(outcomes@),
{
    let mut files: Vec<FileCount> = Vec::new();
    let mut i: usize = 0;
    while i < outcomes.len()
        invariant
            i <= outcomes@.len(),
            files@ == successes(outcomes@.take(i as int)),
        decreases outcomes@.len() - i,
    {
        assert(outcomes@.take(i + 1).drop_last() =~= outcomes@.take(i as int));
        match outcomes[i].1 {
            Some(n) => {
                files.push(FileCount { path: outcomes[i].0.clone(), lines: n });
            },
            None => {},
        }
        i = i + 1;
    }
    assert(outcomes@.take(i as int) =~= outcomes@);
    CountSummary::from_counts(files)
}

/// Removing one file from a sequence takes its lines off the total.
pub proof fn lemma_total_of_remove(files: Seq<FileCount>, j: int)
    requires
        0 <= j < files.len(),
    ensures
        total_of(files) == total_of(files.remove(j)) + files[j].lines,
    decreases files.len(),
{
    if j == files.len() - 1 {
        assert(files.remove(j) =~= files.drop_last());
    } else {
        let r = files.remove(j);
        assert(r.drop_last() =~= files.drop_last().remove(j));
        assert(r.last() == files.last());
        lemma_total_of_remove(files.drop_last(), j);
    }
}

/// Two sequences that hold the same files, in any order, have the same total.
pub proof fn lemma_total_of_permutation(a: Seq<FileCount>, b: Seq<FileCount>)
    requires
        a.to_multiset() == b.to_multiset(),
    ensures
        total_of(a) == total_of(b),
    decreases a.len(),
{
    a.to_multiset_ensures();
    b.to_multiset_ensures();
    if a.len() == 0 {
        assert(b.len() == 0);
    } else {
        let e = a.last();
        let rest = a.drop_last();
        assert(a =~= rest.push(e));
        rest.to_multiset_ensures();
        assert(a.to_multiset() == rest.to_multiset().insert(e));
        assert(b.to_multiset().count(e) > 0);
        assert(b.contains(e));
        let j = choose|j: int| 0 <= j < b.len() && b[j] == e;
        assert(b.remove(j).to_multiset() == b.to_multiset().remove(e));
        assert(rest.to_multiset() =~= rest.to_multiset().insert(e).remove(e));
        lemma_total_of_permutation(rest, b.remove(j));
        lemma_total_of_remove(b, j);
    }
}

/// A file counted in a batch stands for one successful outcome for its path.
pub proof fn lemma_successes_count(outcomes: Seq<(String, Option<usize>)>, x: FileCount)
    ensures
        successes(outcomes).to_multiset().count(x) == outcomes.to_multiset().count(
            (x.path, Some(x.lines)),
        ),
    decreases outcomes.len(),
{
    outcomes.to_multiset_ensures();
    successes(outcomes).to_multiset_ensures();
    if outcomes.len() > 0 {
        let rest = outcomes.drop_last();
        assert(outcomes =~= rest.push(outcomes.last()));
        rest.to_multiset_ensures();
        successes(rest).to_multiset_ensures();
        lemma_successes_count(rest, x);
    }
}

/// Counting the same files in another order, as parallel workers finish in
/// any order, gives the same files, the same number of files and the same
/// total as counting them one after another.
pub proof fn lemma_summary_order_free(
    a: Seq<(String, Option<usize>)>,
    b: Seq<(String, Option<usize>)>,
)
    requires
        a.to_multiset() == b.to_multiset(),
    ensures
        successes(a).to_multiset() == successes(b).to_multiset(),
        successes(a).len() == successes(b).len(),
        total_of(successes(a)) == total_of(successes(b)),
{
    assert forall|x: FileCount| #[trigger]
        successes(a).to_multiset().count(x) == successes(b).to_multiset().count(x) by {
        lemma_successes_count(a, x);
        lemma_successes_count(b, x);
    }
    assert(successes(a).to_multiset() =~= successes(b).to_multiset());
    successes(a).to_multiset_ensures();
    successes(b).to_multiset_ensures();
    lemma_total_of_permutation(successes(a), successes(b));
}

} // verus!
