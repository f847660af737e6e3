//! The scan engine: a traversal of a directory tree hands the scanner one
//! event per filesystem entry, and the scanner accumulates every included
//! regular file into an insertion-ordered result set with a running total
//! byte size.
//!
//! The walk itself is input/output and lives outside the library; the
//! decision what to do with each event — classify, append, or abort the
//! whole scan — is made here.

use vstd::prelude::*;
use vstd::seq_lib::{commutative_foldr, lemma_fold_right_permutation};
use crate::attrs::{classify, spec_classify};

verus! {

/// Seconds of the last supported timestamp, the end of year 9999.
pub const MAX_TIMESTAMP_SECS: i64 = 253_402_300_799;

/// Nanoseconds in one second.
pub const NANOS_PER_SEC: u32 = 1_000_000_000;

/// A file's last-modification time as plain values: seconds and
/// nanoseconds since the Unix epoch.
#[derive(Clone, Copy, Debug, PartialEq, Eq, Structural)]
pub struct FileTime {
    pub secs: i64,
    pub nanos: u32,
}

impl FileTime {
    /// A timestamp the library supports: between the Unix epoch and the
    /// end of year 9999, with a normalized nanosecond part.
    pub open spec fn wf(self) -> bool {
        &&& 0 <= self.secs <= MAX_TIMESTAMP_SECS
        &&& self.nanos < NANOS_PER_SEC
    }

    /// Builds a timestamp from seconds and nanoseconds since the Unix epoch.
    pub fn new(secs: i64, nanos: u32) -> (r: FileTime)
        ensures
            r == (FileTime { secs, nanos }),
    {
        FileTime { secs, nanos }
    }
}

/// The mathematical content of one scan entry.
#[verifier::ext_equal]
pub ghost struct EntryView {
    pub path: Seq<char>,
    pub attributes: u32,
    pub reparse_tag: u32,
    pub modified: FileTime,
    pub size: u64,
}

/// One materialized file discovered during a walk: its absolute path, raw
/// attribute bitmask, reparse tag, last-modification time and byte size.
#[derive(Clone, Debug)]
pub struct ScanResult {
    pub path: String,
    pub attributes: u32,
    pub reparse_tag: u32,
    pub last_modified: FileTime,
    pub size: u64,
}

impl View for ScanResult {
    type V = EntryView;

    open spec fn view(&self) -> EntryView {
        EntryView {
            path: self.path@,
            attributes: self.attributes,
            reparse_tag: self.reparse_tag,
            modified: self.last_modified,
            size: self.size,
        }
    }
}

impl DeepView for ScanResult {
    type V = EntryView;

    open spec fn deep_view(&self) -> EntryView {
        self.view()
    }
}

impl ScanResult {
    /// Builds one entry from its plain values.
    pub fn new(path: String, attributes: u32, reparse_tag: u32, last_modified: FileTime, size: u64) -> (r: ScanResult)
        ensures
            r@ == (EntryView { path: path@, attributes, reparse_tag, modified: last_modified, size }),
    {
        ScanResult { path, attributes, reparse_tag, last_modified, size }
    }

    /// The absolute path of the file.
    pub fn get_path(&self) -> (r: &String)
        ensures
            r@ == self@.path,
    {
        &self.path
    }

    /// The raw platform attribute bitmask of the file.
    pub fn get_attributes(&self) -> (r: u32)
        ensures
            r == self@.attributes,
    {
        self.attributes
    }

    /// The reparse tag recorded for the file.
    pub fn get_reparse_tag(&self) -> (r: u32)
        ensures
            r == self@.reparse_tag,
    {
        self.reparse_tag
    }

    /// The last-modification time of the file.
    pub fn get_last_modified(&self) -> (r: FileTime)
        ensures
            r == self@.modified,
    {
        self.last_modified
    }

    /// The byte size of the file.
    pub fn get_size(&self) -> (r: u64)
        ensures
            r == self@.size,
    {
        self.size
    }
}

/// What a scan or one of its consumers can fail with.
#[derive(Debug)]
pub enum ScanError {
    /// The metadata of the named file could not be read.
    MetadataUnavailable { path: String },
    /// Enumerating the directory tree failed with the given cause.
    TraversalFailed { cause: String },
}

impl ScanError {
    /// A human-readable description naming the path or cause that failed.
    pub fn message(&self) -> (r: String)
        ensures
            (match self {
                ScanError::MetadataUnavailable { path } => r@ == "metadata unavailable: "@
                    + path@,
                ScanError::TraversalFailed { cause } => r@ == "read error: "@ + cause@,
            }),
    {
        match self {
            ScanError::MetadataUnavailable { path } => {
                let mut s = String::from_str("metadata unavailable: ");
                s.append(path.as_str());
                s
            },
            ScanError::TraversalFailed { cause } => {
                let mut s = String::from_str("read error: ");
                s.append(cause.as_str());
                s
            },
        }
    }
}

/// One event of a directory-tree traversal, handed to the scanner by
/// whatever performs the walk.
pub enum WalkEvent {
    /// A regular file with its metadata.
    File { path: String, attributes: u32, last_modified: FileTime, size: u64 },
    /// A directory or other non-file entry; nothing is recorded of it.
    Other,
    /// The metadata of the named file could not be read.
    MetadataError { path: String },
    /// Enumerating the tree failed with the given cause.
    WalkError { cause: String },
}

/// The mathematical content of a scan: the root scanned, the entries in
/// traversal order, and the running total byte size.
#[verifier::ext_equal]
pub ghost struct ScanView {
    pub root: Seq<char>,
    pub entries: Seq<EntryView>,
    pub total: u64,
}

/// The sum of the byte sizes of a sequence of entries.
pub open spec fn sum_sizes(entries: Seq<EntryView>) -> int
    decreases entries.len(),
{
    if entries.len() == 0 {
        0
    } else {
        sum_sizes(entries.drop_last()) + entries.last().size
    }
}

/// Appending one entry adds exactly its size to the sum.
pub proof fn lemma_sum_sizes_push(entries: Seq<EntryView>, e: EntryView)
    ensures
        sum_sizes(entries.push(e)) == sum_sizes(entries) + e.size,
{
    assert(entries.push(e).drop_last() =~= entries);
}

/// The size a given walk event adds to a scan: the file's size when it is
/// a regular file that the classifier includes, zero otherwise.
pub open spec fn spec_event_size(event: WalkEvent) -> int {
    match event {
        WalkEvent::File { attributes, size, .. } => if spec_classify(attributes) {
            size as int
        } else {
            0
        },
        _ => 0,
    }
}

/// One scan over a directory tree: the root path, the insertion-ordered
/// entries of every included file, and the running total byte size.
#[derive(Debug)]
pub struct Scan {
    pub path: String,
    pub files: Vec<ScanResult>,
    pub size: u64,
}

impl View for Scan {
    type V = ScanView;

    open spec fn view(&self) -> ScanView {
        ScanView { root: self.path@, entries: self.files.deep_view(), total: self.size }
    }
}

impl Scan {
    /// Well-formedness: the running total equals the sum of the entry
    /// sizes, and every entry passed the classifier with a supported
    /// timestamp and a zero reparse tag.
    pub open spec fn wf(self) -> bool {
        &&& self@.total as int == sum_sizes(self@.entries)
        &&& forall|i: int|
            0 <= i < self@.entries.len() ==> {
                &&& spec_classify((#[trigger] self@.entries[i]).attributes)
                &&& self@.entries[i].modified.wf()
                &&& self@.entries[i].reparse_tag == 0
            }
    }

    /// Builds an empty scan of the given root: no entries, zero total size.
    pub fn new(path: String) -> (r: Scan)
        ensures
            r@.root == path@,
            r@.entries == Seq::<EntryView>::empty(),
            r@.total == 0,
            r.wf(),
    {
        let r = Scan { path, files: Vec::new(), size: 0 };
        proof {
            assert(r@.entries =~= Seq::<EntryView>::empty());
        }
        r
    }

    /// The root path this scan walks.
    pub fn get_path(&self) -> (r: &String)
        ensures
            r@ == self@.root,
    {
        &self.path
    }

    /// The entries recorded so far, in traversal order.
    pub fn get_files(&self) -> (r: &Vec<ScanResult>)
        ensures
            r.deep_view() == self@.entries,
    {
        &self.files
    }

    /// The running total byte size of the recorded entries.
    pub fn get_size(&self) -> (r: u64)
        ensures
            r == self@.total,
    {
        self.size
    }

    /// The number of recorded entries.
    pub fn get_count(&self) -> (r: u64)
        ensures
            r as int == self@.entries.len(),
    {
        self.files.len() as u64
    }

    /// Processes one traversal event.
    ///
    /// A regular file that the classifier includes is appended and its size
    /// added to the running total; an excluded file and a non-file entry
    /// leave the scan unchanged. A metadata failure or a traversal failure
    /// leaves the scan unchanged and aborts it with the matching error:
    /// a scan either fully succeeds or fully fails.
    pub fn scan_step(&mut self, event: &WalkEvent) -> (r: Result<(), ScanError>)
        requires
            old(self).wf(),
            old(self)@.total + spec_event_size(*event) <= u64::MAX,
            (*event matches WalkEvent::File { last_modified, .. } ==> last_modified.wf()),
        ensures
            final(self).wf(),
            final(self)@.root == old(self)@.root,
            (match *event {
                WalkEvent::File { path, attributes, last_modified, size } => {
                    &&& r is Ok
                    &&& if spec_classify(attributes) {
                        &&& final(self)@.entries == old(self)@.entries.push(
                            (EntryView {
                                path: path@,
                                attributes,
                                reparse_tag: 0,
                                modified: last_modified,
                                size,
                            }),
                        )
                        &&& final(self)@.total == old(self)@.total + size
                    } else {
                        final(self)@ == old(self)@
                    }
                },
                WalkEvent::Other => r is Ok && final(self)@ == old(self)@,
                WalkEvent::MetadataError { path } => {
                    &&& final(self)@ == old(self)@
                    &&& r matches Err(ScanError::MetadataUnavailable { path: p }) && p@ == path@
                },
                WalkEvent::WalkError { cause } => {
                    &&& final(self)@ == old(self)@
                    &&& r matches Err(ScanError::TraversalFailed { cause: c }) && c@ == cause@
                },
            }),
    {
        match event {
            WalkEvent::File { path, attributes, last_modified, size } => {
                if classify(*attributes) {
                    let entry = ScanResult::new(path.clone(), *attributes, 0, *last_modified, *size);
                    let ghost prior = self.files.deep_view();
                    proof {
                        lemma_sum_sizes_push(prior, entry@);
                    }
                    self.files.push(entry);
                    self.size = self.size + *size;
                    proof {
                        assert(self.files.deep_view() =~= prior.push(entry@));
                    }
                }
                Ok(())
            },
            WalkEvent::Other => Ok(()),
            WalkEvent::MetadataError { path } => Err(ScanError::MetadataUnavailable {
                path: path.clone(),
            }),
            WalkEvent::WalkError { cause } => Err(ScanError::TraversalFailed {
                cause: cause.clone(),
            }),
        }
    }
}

/// Concatenation splits the size sum.
pub proof fn lemma_sum_sizes_concat(a: Seq<EntryView>, b: Seq<EntryView>)
    ensures
        sum_sizes(a + b) == sum_sizes(a) + sum_sizes(b),
    decreases b.len(),
{
    if b.len() == 0 {
        assert(a + b =~= a);
    } else {
        lemma_sum_sizes_concat(a, b.drop_last());
        assert((a + b).drop_last() =~= a + b.drop_last());
    }
}

/// True of the events that abort a scan.
pub open spec fn spec_is_error_event(e: WalkEvent) -> bool {
    match e {
        WalkEvent::MetadataError { .. } => true,
        WalkEvent::WalkError { .. } => true,
        _ => false,
    }
}

/// The entries one event contributes: the file's entry when the
/// classifier includes it, nothing otherwise.
pub open spec fn spec_event_entries(e: WalkEvent) -> Seq<EntryView> {
    match e {
        WalkEvent::File { path, attributes, last_modified, size } => if spec_classify(
            attributes,
        ) {
            seq![
                EntryView {
                    path: path@,
                    attributes,
                    reparse_tag: 0,
                    modified: last_modified,
                    size,
                },
            ]
        } else {
            Seq::empty()
        },
        _ => Seq::empty(),
    }
}

/// The entries a sequence of events contributes, in order.
pub open spec fn spec_entries_of(events: Seq<WalkEvent>) -> Seq<EntryView>
    decreases events.len(),
{
    if events.len() == 0 {
        Seq::empty()
    } else {
        spec_entries_of(events.drop_last()) + spec_event_entries(events.last())
    }
}

/// One event contributes exactly the size it adds.
pub proof fn lemma_event_entries_size(e: WalkEvent)
    ensures
        sum_sizes(spec_event_entries(e)) == spec_event_size(e),
{
    match e {
        WalkEvent::File { path, attributes, last_modified, size } => {
            if spec_classify(attributes) {
                let s = spec_event_entries(e);
                assert(s.drop_last() =~= Seq::<EntryView>::empty());
                assert(sum_sizes(Seq::<EntryView>::empty()) == 0);
                assert(sum_sizes(s) == sum_sizes(s.drop_last()) + s.last().size);
            }
        },
        _ => {},
    }
}

/// The fold step that accumulates entry sizes.
pub open spec fn size_adder() -> spec_fn(EntryView, int) -> int {
    |e: EntryView, acc: int| acc + e.size
}

/// The sum of the entry sizes equals a right fold of `size_adder`.
proof fn lemma_sum_sizes_is_fold(entries: Seq<EntryView>, b: int)
    ensures
        entries.fold_right(size_adder(), b) == sum_sizes(entries) + b,
    decreases entries.len(),
{
    if entries.len() > 0 {
        lemma_sum_sizes_is_fold(entries.drop_last(), b + entries.last().size);
    }
}

/// The total size of a scan does not depend on the traversal order: two
/// entry sequences that hold the same entries, however ordered, have the
/// same size sum.
pub proof fn lemma_total_size_order_independent(a: Seq<EntryView>, b: Seq<EntryView>)
    requires
        a.to_multiset() == b.to_multiset(),
    ensures
        sum_sizes(a) == sum_sizes(b),
{
    assert(commutative_foldr(size_adder()));
    lemma_fold_right_permutation(a, b, size_adder(), 0);
    lemma_sum_sizes_is_fold(a, 0);
    lemma_sum_sizes_is_fold(b, 0);
}

impl Scan {
    /// Runs one whole traversal: processes the events in order, recording
    /// every included file, and aborts at the first failing event with its
    /// error, leaving the events past it unprocessed. There is no retry
    /// and no skip-and-continue: a scan either fully succeeds or fails at
    /// its first unreadable node.
    pub fn scan_events(&mut self, events: &Vec<WalkEvent>) -> (r: Result<(), ScanError>)
        requires
            old(self).wf(),
            forall|k: int|
                0 <= k <= events@.len() ==> old(self)@.total + sum_sizes(
                    spec_entries_of(#[trigger] events@.take(k)),
                ) <= u64::MAX,
            forall|k: int|
                0 <= k < events@.len() ==> ((#[trigger] events@[k]) matches WalkEvent::File {
                    last_modified,
                    ..
                } ==> last_modified.wf()),
        ensures
            final(self).wf(),
            final(self)@.root == old(self)@.root,
            (r is Ok ==> {
                &&& forall|j: int|
                    0 <= j < events@.len() ==> !spec_is_error_event(#[trigger] events@[j])
                &&& final(self)@.entries == old(self)@.entries + spec_entries_of(events@)
            }),
            (r matches Err(e) ==> exists|k: int|
                {
                    &&& 0 <= k < events@.len()
                    &&& spec_is_error_event(#[trigger] events@[k])
                    &&& forall|j: int| 0 <= j < k ==> !spec_is_error_event(events@[j])
                    &&& final(self)@.entries == old(self)@.entries + spec_entries_of(
                        events@.take(k),
                    )
                    &&& (match events@[k] {
                        WalkEvent::MetadataError { path } => e matches
                            ScanError::MetadataUnavailable { path: p } && p@ == path@,
                        WalkEvent::WalkError { cause } => e matches ScanError::TraversalFailed {
                            cause: c,
                        } && c@ == cause@,
                        _ => false,
                    })
                }),
    {
        let mut i: usize = 0;
        while i < events.len()
            invariant
                self.wf(),
                old(self).wf(),
                i <= events@.len(),
                self@.root == old(self)@.root,
                forall|k: int|
                    0 <= k <= events@.len() ==> old(self)@.total + sum_sizes(
                        spec_entries_of(#[trigger] events@.take(k)),
                    ) <= u64::MAX,
                forall|k: int|
                    0 <= k < events@.len() ==> ((#[trigger] events@[k]) matches WalkEvent::File {
                        last_modified,
                        ..
                    } ==> last_modified.wf()),
                forall|j: int| 0 <= j < i ==> !spec_is_error_event(#[trigger] events@[j]),
                self@.entries == old(self)@.entries + spec_entries_of(events@.take(i as int)),
            decreases events@.len() - i,
        {
            let ghost processed = spec_entries_of(events@.take(i as int));
            proof {
                assert(events@.take(i + 1).drop_last() =~= events@.take(i as int));
                assert(spec_entries_of(events@.take(i + 1)) == processed + spec_event_entries(
                    events@[i as int],
                ));
                lemma_sum_sizes_concat(processed, spec_event_entries(events@[i as int]));
                lemma_event_entries_size(events@[i as int]);
                lemma_sum_sizes_concat(old(self)@.entries, processed);
                assert(old(self)@.total + sum_sizes(spec_entries_of(events@.take(i + 1)))
                    <= u64::MAX);
            }
            let e = &events[i];
            match self.scan_step(e) {
                Ok(()) => {},
                Err(err) => {
                    proof {
                        let ghost k = i as int;
                        assert(spec_is_error_event(events@[k]));
                        assert(self@.entries == old(self)@.entries + spec_entries_of(
                            events@.take(k),
                        ));
                    }
                    return Err(err);
                },
            }
            proof {
                if spec_event_entries(events@[i as int]).len() > 0 {
                    assert(self@.entries =~= old(self)@.entries + spec_entries_of(
                        events@.take(i + 1),
                    ));
                } else {
                    assert(processed + spec_event_entries(events@[i as int]) =~= processed);
                }
            }
            i += 1;
        }
        proof {
            assert(events@.take(events@.len() as int) =~= events@);
        }
        Ok(())
    }
}

/// The running total of a well-formed scan is exactly the sum of the sizes
/// of its entries.
pub proof fn lemma_total_is_sum(s: Scan)
    requires
        s.wf(),
    ensures
        s@.total as int == sum_sizes(s@.entries),
{
}

} // verus!
