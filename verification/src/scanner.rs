//! The declaration scanner: which entries of a directory tree are
//! declaration files, and which directories are walked.
//!
//! Reading a directory is the driver's work. The scanner says which
//! directory to read next, and takes the listing back.

use crate::error::{ErrorView, TfocusError};
use crate::text::{chars_of, matches_at, occurs_at};
use vstd::prelude::*;
use vstd::string::StringExecFns;

verus! {

/// `segment` is a whole component of `path` that begins at offset `at`:
/// it stands there, with a separator or an end of the path on either side.
pub open spec fn segment_at(path: Seq<char>, segment: Seq<char>, at: int) -> bool {
    &&& occurs_at(path, segment, at)
    &&& at == 0 || path[at - 1] == '/'
    &&& at + segment.len() == path.len() || path[at + segment.len()] == '/'
}

/// `segment` is one of the components of `path`.
pub open spec fn has_segment(path: Seq<char>, segment: Seq<char>) -> bool {
    exists|at: int| segment_at(path, segment, at)
}

/// `path` lies in or is a directory of the tool's state, or of version
/// control. Such paths are neither listed nor walked.
pub open spec fn is_excluded(path: Seq<char>) -> bool {
    has_segment(path, ".terraform"@) || has_segment(path, ".git"@)
}

/// The file name of `path` ends in `.tf` and is more than that ending.
pub open spec fn is_declaration_file(path: Seq<char>) -> bool {
    &&& path.len() > 3
    &&& path.subrange(path.len() - 3, path.len() as int) == ".tf"@
    &&& path[path.len() - 4] != '/'
}

/// What an entry of a directory is.
#[derive(Clone, Copy, Debug, PartialEq, Eq, Structural)]
pub enum EntryKind {
    File,
    Directory,
    Other,
}

/// What the scanner does with an entry.
#[derive(Clone, Copy, Debug, PartialEq, Eq, Structural)]
pub enum Disposition {
    /// The entry is a declaration file and is listed.
    Collect,
    /// The entry is a directory and is walked.
    Descend,
    /// The entry is passed over.
    Skip,
}

/// What the scanner does with the entry at `path`: a declaration file
/// outside the excluded directories is listed, a directory outside them is
/// walked, everything else is passed over.
pub open spec fn disposition(path: Seq<char>, kind: EntryKind) -> Disposition {
    match kind {
        EntryKind::File => if is_declaration_file(path) && !is_excluded(path) {
            Disposition::Collect
        } else {
            Disposition::Skip
        },
        EntryKind::Directory => if !is_excluded(path) {
            Disposition::Descend
        } else {
            Disposition::Skip
        },
        EntryKind::Other => Disposition::Skip,
    }
}

/// A path below an excluded directory is excluded: nothing within the
/// tool's state or within version control is ever listed or walked,
/// whatever its name.
pub proof fn lemma_below_excluded_is_excluded(directory: Seq<char>, rest: Seq<char>)
    requires
        is_excluded(directory),
    ensures
        is_excluded(directory + "/"@ + rest),
{
    reveal_strlit("/");
    let path = directory + "/"@ + rest;
    let segment = if has_segment(directory, ".terraform"@) {
        ".terraform"@
    } else {
        ".git"@
    };
    let at = choose|at: int| segment_at(directory, segment, at);
    // The segment stands in the longer path where it stood, and what
    // follows it there is a separator still.
    assert(path.subrange(at, at + segment.len()) =~= directory.subrange(at, at + segment.len()));
    assert(at + segment.len() == directory.len() ==> path[at + segment.len()] == '/');
    assert(at + segment.len() < directory.len() ==> path[at + segment.len()]
        == directory[at + segment.len()]);
    assert(segment_at(path, segment, at));
}

/// No file that a scan lists lies below an excluded directory, whatever
/// its name.
pub proof fn lemma_nothing_listed_below_excluded(
    files: Seq<Seq<char>>,
    i: int,
    directory: Seq<char>,
    rest: Seq<char>,
)
    requires
        all_listable(files),
        0 <= i < files.len(),
        is_excluded(directory),
    ensures
        files[i] != directory + "/"@ + rest,
{
    lemma_below_excluded_is_excluded(directory, rest);
}

/// Tells whether `segment` is one of the components of `path`.
fn path_has_segment(path: &[char], segment: &[char]) -> (r: bool)
    ensures
        r == has_segment(path@, segment@),
{
    if segment.len() > path.len() {
        return false;
    }
    let last: usize = path.len() - segment.len();
    let mut at: usize = 0;
    loop
        invariant
            at <= last,
            last + segment@.len() == path@.len(),
            forall|k: int| 0 <= k < at ==> !segment_at(path@, segment@, k),
        decreases last - at,
    {
        let opens = at == 0 || path[at - 1] == '/';
        let closes = at == last || path[at + segment.len()] == '/';
        if opens && closes && matches_at(path, segment, at) {
            assert(segment_at(path@, segment@, at as int));
            return true;
        }
        if at == last {
            return false;
        }
        at += 1;
    }
}

/// Tells whether `path` is excluded from the scan.
fn path_is_excluded(path: &[char]) -> (r: bool)
    ensures
        r == is_excluded(path@),
{
    let state = chars_of(".terraform");
    let control = chars_of(".git");
    path_has_segment(path, state.as_slice()) || path_has_segment(path, control.as_slice())
}

/// Tells whether `path` names a declaration file.
fn path_is_declaration_file(path: &[char]) -> (r: bool)
    ensures
        r == is_declaration_file(path@),
{
    let ending = chars_of(".tf");
    proof {
        reveal_strlit(".tf");
    }
    let n: usize = path.len();
    n > 3 && matches_at(path, ending.as_slice(), n - 3) && path[n - 4] != '/'
}

/// Decides what the scanner does with the entry at `path`.
pub fn classify(path: &str, kind: EntryKind) -> (r: Disposition)
    ensures
        r == disposition(path@, kind),
{
    let text = chars_of(path);
    match kind {
        EntryKind::File => {
            if path_is_declaration_file(text.as_slice()) && !path_is_excluded(text.as_slice()) {
                Disposition::Collect
            } else {
                Disposition::Skip
            }
        },
        EntryKind::Directory => {
            if !path_is_excluded(text.as_slice()) {
                Disposition::Descend
            } else {
                Disposition::Skip
            }
        },
        EntryKind::Other => Disposition::Skip,
    }
}

/// An entry of a directory, as the driver read it.
#[derive(Debug)]
pub struct Entry {
    /// The path of the entry, the directory's path included.
    pub path: String,
    /// What the entry is.
    pub kind: EntryKind,
}

/// The path of an entry, where the scanner does `wanted` with it.
pub open spec fn path_if(wanted: Disposition) -> spec_fn(Entry) -> Option<Seq<char>> {
    |entry: Entry|
        if disposition(entry.path@, entry.kind) == wanted {
            Some(entry.path@)
        } else {
            None
        }
}

/// The paths of those of `entries` with which the scanner does `wanted`,
/// in their order.
pub open spec fn paths_for(entries: Seq<Entry>, wanted: Disposition) -> Seq<Seq<char>> {
    entries.filter_map(path_if(wanted))
}

/// A scan in progress: the directories still to be read and the
/// declaration files found so far; or a scan that has failed.
pub struct Scanner {
    root: String,
    pending: Vec<String>,
    files: Vec<String>,
    failure: Option<String>,
}

/// The mathematical value of a [`Scanner`].
pub ghost struct ScannerView {
    /// The directory at which the scan began.
    pub root: Seq<char>,
    /// The directories still to be read; the last is read next.
    pub pending: Seq<Seq<char>>,
    /// The declaration files found so far.
    pub files: Seq<Seq<char>>,
    /// Why the scan has failed, if it has.
    pub failure: Option<Seq<char>>,
}

impl ScannerView {
    /// What holds of every scan: it lists nothing but declaration files
    /// outside the excluded directories; it walks no excluded directory but
    /// the root, which the caller chose; and once it has failed it holds
    /// nothing.
    pub open spec fn well_formed(self) -> bool {
        &&& all_listable(self.files)
        &&& all_walkable(self.pending, self.root)
        &&& self.failure is Some ==> self.pending.len() == 0 && self.files.len() == 0
    }
}

impl View for Scanner {
    type V = ScannerView;

    closed spec fn view(&self) -> ScannerView {
        ScannerView {
            root: self.root@,
            pending: self.pending.deep_view(),
            files: self.files.deep_view(),
            failure: self.failure.deep_view(),
        }
    }
}

/// Every path of `files` names a declaration file outside the excluded
/// directories.
pub open spec fn all_listable(files: Seq<Seq<char>>) -> bool {
    forall|i: int|
        0 <= i < files.len() ==> is_declaration_file(#[trigger] files[i]) && !is_excluded(
            files[i],
        )
}

/// Every directory of `pending` is the root of the scan or lies outside
/// the excluded directories.
pub open spec fn all_walkable(pending: Seq<Seq<char>>, root: Seq<char>) -> bool {
    forall|i: int|
        0 <= i < pending.len() ==> #[trigger] pending[i] == root || !is_excluded(pending[i])
}

impl Scanner {
    #[verifier::type_invariant]
    closed spec fn sound(self) -> bool {
        self@.well_formed()
    }

    /// Begins a scan at the directory `root`.
    pub fn new(root: &str) -> (r: Scanner)
        ensures
            r@ == (ScannerView {
                root: root@,
                pending: seq![root@],
                files: Seq::empty(),
                failure: None,
            }),
    {
        let mut pending: Vec<String> = Vec::new();
        pending.push(String::from_str(root));
        assert(pending.deep_view() =~= seq![root@]);
        let files: Vec<String> = Vec::new();
        assert(files.deep_view() =~= Seq::<Seq<char>>::empty());
        Scanner { root: String::from_str(root), pending, files, failure: None }
    }

    /// Takes the scanner apart, leaving an empty one.
    fn take_parts(&mut self) -> (r: (String, Vec<String>, Vec<String>, Option<String>))
        ensures
            r.0@ == old(self)@.root,
            r.1.deep_view() == old(self)@.pending,
            r.2.deep_view() == old(self)@.files,
            r.3.deep_view() == old(self)@.failure,
            old(self)@.well_formed(),
    {
        proof {
            use_type_invariant(&*self);
        }
        let mut emptied = Scanner {
            root: String::new(),
            pending: Vec::new(),
            files: Vec::new(),
            failure: None,
        };
        std::mem::swap(self, &mut emptied);
        (emptied.root, emptied.pending, emptied.files, emptied.failure)
    }

    /// Hands out the directory to read next, the one that was found last,
    /// or `None` when nothing is left to read: the scan is complete, or it
    /// has failed. A directory handed out is the root or lies outside the
    /// excluded directories.
    pub fn next_directory(&mut self) -> (r: Option<String>)
        ensures
            final(self)@ == (ScannerView {
                pending: if old(self)@.pending.len() > 0 {
                    old(self)@.pending.drop_last()
                } else {
                    old(self)@.pending
                },
                ..old(self)@
            }),
            match r {
                Some(directory) => {
                    &&& old(self)@.pending.len() > 0
                    &&& directory@ == old(self)@.pending.last()
                    &&& directory@ == old(self)@.root || !is_excluded(directory@)
                    &&& old(self)@.failure is None
                },
                None => old(self)@.pending.len() == 0,
            },
            final(self)@.well_formed(),
    {
        let (root, mut pending, files, failure) = self.take_parts();
        let ghost before = pending.deep_view();
        let next = pending.pop();
        assert(pending.deep_view() =~= if before.len() > 0 {
            before.drop_last()
        } else {
            before
        });
        *self = Scanner { root, pending, files, failure };
        next
    }

    /// Takes in the listing of a directory: its declaration files are
    /// added to the files found, its directories to the directories still
    /// to be read, both in the order of the listing and unless they are
    /// excluded. A scan that has failed takes nothing in.
    pub fn record(&mut self, entries: &[Entry])
        ensures
            final(self)@ == if old(self)@.failure is Some {
                old(self)@
            } else {
                ScannerView {
                    files: old(self)@.files + paths_for(entries@, Disposition::Collect),
                    pending: old(self)@.pending + paths_for(entries@, Disposition::Descend),
                    ..old(self)@
                }
            },
            final(self)@.well_formed(),
    {
        let (root, mut pending, mut files, failure) = self.take_parts();
        if failure.is_some() {
            *self = Scanner { root, pending, files, failure };
            return ;
        }
        let mut i: usize = 0;
        while i < entries.len()
            invariant
                i <= entries@.len(),
                files.deep_view() == old(self)@.files + paths_for(
                    entries@.take(i as int),
                    Disposition::Collect,
                ),
                pending.deep_view() == old(self)@.pending + paths_for(
                    entries@.take(i as int),
                    Disposition::Descend,
                ),
                all_listable(files.deep_view()),
                all_walkable(pending.deep_view(), old(self)@.root),
            decreases entries@.len() - i,
        {
            proof {
                entries@.lemma_filter_map_take_succ(path_if(Disposition::Collect), i as int);
                entries@.lemma_filter_map_take_succ(path_if(Disposition::Descend), i as int);
            }
            let ghost files_before = files.deep_view();
            let ghost pending_before = pending.deep_view();
            match classify(entries[i].path.as_str(), entries[i].kind) {
                Disposition::Collect => {
                    files.push(entries[i].path.clone());
                    assert(files.deep_view() =~= files_before.push(entries@[i as int].path@));
                },
                Disposition::Descend => {
                    pending.push(entries[i].path.clone());
                    assert(pending.deep_view() =~= pending_before.push(entries@[i as int].path@));
                },
                Disposition::Skip => {},
            }
            i += 1;
        }
        assert(entries@.take(i as int) =~= entries@);
        *self = Scanner { root, pending, files, failure };
    }

    /// Takes in that a directory could not be read, with the system's
    /// message. The scan fails as a whole: what was found is dropped and
    /// nothing is left to read. The first failure is the one kept.
    pub fn abandon(&mut self, reason: String)
        ensures
            final(self)@ == (ScannerView {
                pending: Seq::empty(),
                files: Seq::empty(),
                failure: if old(self)@.failure is Some {
                    old(self)@.failure
                } else {
                    Some(reason@)
                },
                ..old(self)@
            }),
            final(self)@.well_formed(),
    {
        let (root, _, _, failure) = self.take_parts();
        let failure = match failure {
            Some(first) => Some(first),
            None => Some(reason),
        };
        let pending: Vec<String> = Vec::new();
        let files: Vec<String> = Vec::new();
        assert(pending.deep_view() =~= Seq::<Seq<char>>::empty());
        assert(files.deep_view() =~= Seq::<Seq<char>>::empty());
        *self = Scanner { root, pending, files, failure };
    }

    /// Ends the scan. A scan that has failed hands out its failure and no
    /// file. Otherwise it hands out the declaration files found, in the
    /// order in which they were found; none of them lies in an excluded
    /// directory.
    pub fn finish(self) -> (r: Result<Vec<String>, TfocusError>)
        ensures
            match r {
                Ok(files) => self@.failure is None && files.deep_view() == self@.files
                    && all_listable(files.deep_view()),
                Err(e) => self@.failure is Some && e@ == ErrorView::Io(self@.failure->0),
            },
    {
        proof {
            use_type_invariant(&self);
        }
        match self.failure {
            Some(reason) => Err(TfocusError::Io(reason)),
            None => Ok(self.files),
        }
    }
}

} // verus!
