//! Backup path remapping: every scanned file's destination is its path
//! with the fixed per-user profile prefix replaced by the caller's backup
//! root, so that the relative directory structure is preserved exactly.
//!
//! The copying itself is input/output and lives outside the library; the
//! decision where each file goes — and the refusal to write anywhere a
//! source path outside the profile root would lead — is made here.

use vstd::prelude::*;
use vstd::string::{StrSliceExecFns, StringExecFns};
use crate::scan::{EntryView, Scan};
use crate::strutil::{push_char, str_starts_with};

verus! {

/// What a backup pass can fail with.
#[derive(Debug)]
pub enum BackupError {
    /// The named source path does not lie under the per-user profile root.
    PathPrefixMismatch { path: String },
    /// Copying a file failed with the given cause.
    CopyFailed { cause: String },
}

impl BackupError {
    /// A human-readable description naming the path or cause that failed.
    pub fn message(&self) -> (r: String)
        ensures
            (match self {
                BackupError::PathPrefixMismatch { path } => r@ == "path outside profile root: "@
                    + path@,
                BackupError::CopyFailed { cause } => r@ == "copy failed: "@ + cause@,
            }),
    {
        match self {
            BackupError::PathPrefixMismatch { path } => {
                let mut s = String::from_str("path outside profile root: ");
                s.append(path.as_str());
                s
            },
            BackupError::CopyFailed { cause } => {
                let mut s = String::from_str("copy failed: ");
                s.append(cause.as_str());
                s
            },
        }
    }
}

/// The fixed per-user profile root that every backed-up source path must
/// lie under.
pub open spec fn spec_profile_prefix() -> Seq<char> {
    "C:\\Users\\"@
}

/// The per-user profile root as a string.
pub fn profile_prefix() -> (r: &'static str)
    ensures
        r@ == spec_profile_prefix(),
{
    "C:\\Users\\"
}

/// True of the path-separator characters.
pub open spec fn spec_is_separator(c: char) -> bool {
    c == '\\' || c == '/'
}

/// The backup root joined with a relative path: a separator is inserted
/// unless the root already ends with one.
pub open spec fn spec_join(root: Seq<char>, rel: Seq<char>) -> Seq<char> {
    if root.len() > 0 && spec_is_separator(root.last()) {
        root + rel
    } else {
        root + seq!['\\'] + rel
    }
}

/// The destination of one source path under a backup root: the source with
/// the profile prefix stripped, re-rooted under `root`; nothing for a
/// source that does not lie under the profile root.
pub open spec fn spec_dest(path: Seq<char>, root: Seq<char>) -> Option<Seq<char>> {
    if spec_profile_prefix().is_prefix_of(path) {
        Some(spec_join(root, path.skip(spec_profile_prefix().len() as int)))
    } else {
        None
    }
}

/// One planned copy: the source file and the destination it is written to.
#[derive(Clone, Debug)]
pub struct BackupItem {
    pub source: String,
    pub dest: String,
}

/// The mathematical content of one planned copy.
#[verifier::ext_equal]
pub ghost struct BackupItemView {
    pub source: Seq<char>,
    pub dest: Seq<char>,
}

impl View for BackupItem {
    type V = BackupItemView;

    open spec fn view(&self) -> BackupItemView {
        BackupItemView { source: self.source@, dest: self.dest@ }
    }
}

impl DeepView for BackupItem {
    type V = BackupItemView;

    open spec fn deep_view(&self) -> BackupItemView {
        self.view()
    }
}

/// A plan lists exactly one copy per entry, in order, each from the
/// entry's path to its destination under `root`.
pub open spec fn spec_plan_matches(
    entries: Seq<EntryView>,
    root: Seq<char>,
    plan: Seq<BackupItemView>,
) -> bool {
    &&& plan.len() == entries.len()
    &&& forall|i: int|
        0 <= i < entries.len() ==> {
            &&& (#[trigger] plan[i]).source == entries[i].path
            &&& Some(plan[i].dest) == spec_dest(entries[i].path, root)
        }
}

/// Computes the destination of one source path under a backup root, or
/// nothing when the source does not lie under the profile root.
pub fn backup_dest_for(path: &str, dest_root: &str) -> (r: Option<String>)
    ensures
        r is Some <==> spec_dest(path@, dest_root@) is Some,
        (r matches Some(d) ==> Some(d@) == spec_dest(path@, dest_root@)),
{
    let prefix = profile_prefix();
    if !str_starts_with(path, prefix) {
        return None;
    }
    let n = prefix.unicode_len();
    let rel = path.substring_char(n, path.unicode_len());
    let mut out = String::from_str(dest_root);
    let rl = dest_root.unicode_len();
    let ends_with_sep = if rl == 0 {
        false
    } else {
        let c = dest_root.get_char(rl - 1);
        c == '\\' || c == '/'
    };
    if !ends_with_sep {
        push_char(&mut out, '\\');
    }
    out.append(rel);
    proof {
        assert(rel@ =~= path@.skip(spec_profile_prefix().len() as int));
        if !(dest_root@.len() > 0 && spec_is_separator(dest_root@.last())) {
            assert(out@ =~= dest_root@ + seq!['\\'] + rel@);
        }
    }
    Some(out)
}

impl Scan {
    /// Plans the backup of every entry under `dest_root`: one copy per
    /// entry, in entry order, each destination preserving the source's
    /// path relative to the profile root. An entry whose path does not lie
    /// under the profile root aborts the whole plan with
    /// `PathPrefixMismatch` naming that path; nothing is planned past it.
    pub fn backup_plan(&self, dest_root: &str) -> (r: Result<Vec<BackupItem>, BackupError>)
        ensures
            (r is Ok <==> forall|i: int|
                0 <= i < self@.entries.len() ==> (#[trigger] spec_dest(
                    self@.entries[i].path,
                    dest_root@,
                )) is Some),
            (r matches Ok(plan) ==> spec_plan_matches(
                self@.entries,
                dest_root@,
                plan.deep_view(),
            )),
            (r matches Err(e) ==> {
                &&& e matches BackupError::PathPrefixMismatch { path: p }
                &&& exists|i: int|
                    {
                        &&& 0 <= i < self@.entries.len()
                        &&& (#[trigger] spec_dest(self@.entries[i].path, dest_root@)) is None
                        &&& p@ == self@.entries[i].path
                        &&& forall|j: int|
                            0 <= j < i ==> (#[trigger] spec_dest(
                                self@.entries[j].path,
                                dest_root@,
                            )) is Some
                    }
            }),
    {
        let mut plan: Vec<BackupItem> = Vec::new();
        let mut idx: usize = 0;
        while idx < self.files.len()
            invariant
                idx <= self.files.len(),
                self@.entries.len() == self.files.len(),
                plan.deep_view().len() == idx,
                forall|i: int|
                    0 <= i < idx ==> {
                        &&& (#[trigger] plan.deep_view()[i]).source == self@.entries[i].path
                        &&& Some(plan.deep_view()[i].dest) == spec_dest(
                            self@.entries[i].path,
                            dest_root@,
                        )
                    },
            decreases self.files.len() - idx,
        {
            let source: &String = &self.files[idx].path;
            match backup_dest_for(source.as_str(), dest_root) {
                Some(d) => {
                    let item = BackupItem { source: source.clone(), dest: d };
                    let ghost prior = plan.deep_view();
                    plan.push(item);
                    proof {
                        assert(plan.deep_view() =~= prior.push(item@));
                    }
                },
                None => {
                    let p = source.clone();
                    proof {
                        let ghost i = idx as int;
                        assert(spec_dest(self@.entries[i].path, dest_root@) is None);
                        assert(p@ == self@.entries[i].path);
                        assert forall|j: int| 0 <= j < i implies (#[trigger] spec_dest(
                            self@.entries[j].path,
                            dest_root@,
                        )) is Some by {
                            assert(Some(plan.deep_view()[j].dest) == spec_dest(
                                self@.entries[j].path,
                                dest_root@,
                            ));
                        }
                    }
                    return Err(BackupError::PathPrefixMismatch { path: p });
                },
            }
            idx += 1;
        }
        proof {
            assert forall|i: int| 0 <= i < self@.entries.len() implies (#[trigger] spec_dest(
                self@.entries[i].path,
                dest_root@,
            )) is Some by {
                assert(Some(plan.deep_view()[i].dest) == spec_dest(
                    self@.entries[i].path,
                    dest_root@,
                ));
            }
        }
        Ok(plan)
    }
}

/// Backup planning is deterministic: any two plans that match the same
/// entries under the same root are equal. Together with the overwrite
/// semantics of the copy itself, running a backup twice writes every file
/// to the same destination both times.
pub proof fn lemma_backup_plan_unique(
    entries: Seq<EntryView>,
    root: Seq<char>,
    p1: Seq<BackupItemView>,
    p2: Seq<BackupItemView>,
)
    requires
        spec_plan_matches(entries, root, p1),
        spec_plan_matches(entries, root, p2),
    ensures
        p1 == p2,
{
    assert forall|i: int| 0 <= i < p1.len() implies p1[i] == p2[i] by {
        assert(p1[i] =~= p2[i]);
    }
    assert(p1 =~= p2);
}

/// Backup destinations preserve the relative directory structure: a source
/// file at the profile root followed by any relative path lands at the
/// backup root followed by the same relative path.
pub proof fn lemma_backup_preserves_structure(rel: Seq<char>, dest_root: Seq<char>)
    ensures
        spec_dest(spec_profile_prefix() + rel, dest_root) == Some(spec_join(dest_root, rel)),
{
    assert(spec_profile_prefix() =~= (spec_profile_prefix() + rel).subrange(
        0,
        spec_profile_prefix().len() as int,
    ));
    assert((spec_profile_prefix() + rel).skip(spec_profile_prefix().len() as int) =~= rel);
}

} // verus!
