//! Named sets of crates, read from a list file or found in a source tree.

use crate::error::{BuildError, BuildErrorView};
use crate::text::{before_first, prefix_before, str_eq};
use vstd::prelude::*;

verus! {

/// What the crates of a set are built for.
#[derive(Debug, Clone, Copy, PartialEq, Eq)]
pub enum CrateKind {
    Kernel,
    Application,
}

/// A set of crate names. No name is held twice, and a name that came first
/// stays first.
#[derive(Debug, Clone)]
pub struct CrateSet {
    kind: CrateKind,
    names: Vec<String>,
}

/// One entry of a walk through a source tree.
#[derive(Debug, Clone, PartialEq, Eq)]
pub struct WalkEntry {
    /// The entry's full path.
    pub path: String,
    /// The last component of the path.
    pub file_name: String,
    /// Whether the entry is a regular file.
    pub is_file: bool,
    /// The name of the directory that holds the entry, where it has one.
    pub parent_name: Option<String>,
}

pub struct WalkEntryView {
    pub path: Seq<char>,
    pub file_name: Seq<char>,
    pub is_file: bool,
    pub parent_name: Option<Seq<char>>,
}

impl DeepView for WalkEntry {
    type V = WalkEntryView;

    open spec fn deep_view(&self) -> WalkEntryView {
        WalkEntryView {
            path: self.path@,
            file_name: self.file_name@,
            is_file: self.is_file,
            parent_name: self.parent_name.deep_view(),
        }
    }
}

/// Where the names of a crate set come from, as found on disk.
#[derive(Debug, Clone, PartialEq, Eq)]
pub enum CrateSource {
    /// Nothing readable is at the path.
    Missing { path: String },
    /// A regular file, one crate per line.
    ListFile { lines: Vec<String> },
    /// A directory, walked recursively.
    Tree { entries: Vec<WalkEntry> },
}

pub enum CrateSourceView {
    Missing { path: Seq<char> },
    ListFile { lines: Seq<Seq<char>> },
    Tree { entries: Seq<WalkEntryView> },
}

impl DeepView for CrateSource {
    type V = CrateSourceView;

    open spec fn deep_view(&self) -> CrateSourceView {
        match self {
            CrateSource::Missing { path } => CrateSourceView::Missing { path: path@ },
            CrateSource::ListFile { lines } => CrateSourceView::ListFile {
                lines: lines.deep_view(),
            },
            CrateSource::Tree { entries } => CrateSourceView::Tree {
                entries: entries.deep_view(),
            },
        }
    }
}

/// The name of the manifest file that marks a crate's directory.
pub open spec fn manifest_name() -> Seq<char> {
    "Cargo.toml"@
}

/// The crate that a line of a list file names: the text before its first hyphen.
pub open spec fn crate_of_line(line: Seq<char>) -> Seq<char> {
    before_first(line, '-')
}

/// The crates that the lines of a list file name.
pub open spec fn crates_in_lines(lines: Seq<Seq<char>>) -> Set<Seq<char>> {
    Set::new(|n: Seq<char>| exists|i: int| 0 <= i < lines.len() && n == crate_of_line(#[trigger] lines[i]))
}

/// Whether a walk entry is a crate's manifest.
pub open spec fn is_manifest(e: WalkEntryView) -> bool {
    e.is_file && e.file_name == manifest_name()
}

/// Whether a walk entry is a manifest with no named directory around it.
pub open spec fn is_orphan(e: WalkEntryView) -> bool {
    is_manifest(e) && e.parent_name is None
}

/// The crates whose manifests a walk has met.
pub open spec fn crates_in_walk(entries: Seq<WalkEntryView>) -> Set<Seq<char>> {
    Set::new(
        |n: Seq<char>|
            exists|i: int|
                0 <= i < entries.len() && is_manifest(#[trigger] entries[i])
                    && entries[i].parent_name == Some(n),
    )
}

/// The names after those of `extra` have come: each that is not yet held is
/// put at the end.
pub open spec fn added(names: Seq<Seq<char>>, extra: Seq<Seq<char>>) -> Seq<Seq<char>>
    decreases extra.len(),
{
    if extra.len() == 0 {
        names
    } else {
        let earlier = added(names, extra.drop_last());
        if earlier.contains(extra.last()) {
            earlier
        } else {
            earlier.push(extra.last())
        }
    }
}

/// The crates that the lines of a list file name, line by line.
pub open spec fn line_crates(lines: Seq<Seq<char>>) -> Seq<Seq<char>> {
    Seq::new(lines.len(), |i: int| crate_of_line(lines[i]))
}

/// The directories of the manifests that a walk has met, in the order met.
pub open spec fn manifest_dirs(entries: Seq<WalkEntryView>) -> Seq<Seq<char>>
    decreases entries.len(),
{
    if entries.len() == 0 {
        Seq::empty()
    } else {
        let earlier = manifest_dirs(entries.drop_last());
        match entries.last().parent_name {
            Some(parent) => if is_manifest(entries.last()) {
                earlier.push(parent)
            } else {
                earlier
            },
            None => earlier,
        }
    }
}

/// What a walk gives: the crates of its manifests, or `NotFound` with the path
/// of the first manifest that has no named directory around it.
pub open spec fn walk_outcome(
    entries: Seq<WalkEntryView>,
    kind: CrateKind,
    r: Result<CrateSet, BuildError>,
) -> bool {
    match r {
        Ok(set) => {
            &&& forall|i: int| 0 <= i < entries.len() ==> !is_orphan(#[trigger] entries[i])
            &&& set@ == crates_in_walk(entries)
            &&& set.names() == added(Seq::empty(), manifest_dirs(entries))
            &&& set.spec_kind() == kind
            &&& set.wf()
        },
        Err(e) => exists|i: int|
            {
                &&& 0 <= i < entries.len()
                &&& is_orphan(#[trigger] entries[i])
                &&& forall|j: int| 0 <= j < i ==> !is_orphan(#[trigger] entries[j])
                &&& e.deep_view() == (BuildErrorView::NotFound { path: entries[i].path })
            },
    }
}

impl CrateSet {
    /// The names, in the order in which they came.
    pub closed spec fn names(&self) -> Seq<Seq<char>> {
        self.names.deep_view()
    }

    /// The names as a set.
    pub open spec fn view(&self) -> Set<Seq<char>> {
        self.names().to_set()
    }

    /// What the set's crates are built for.
    pub closed spec fn spec_kind(&self) -> CrateKind {
        self.kind
    }

    /// No name is held twice.
    pub closed spec fn wf(&self) -> bool {
        self.names.deep_view().no_duplicates()
    }

    /// An empty set.
    pub fn new(kind: CrateKind) -> (r: CrateSet)
        ensures
            r@ == Set::<Seq<char>>::empty(),
            r.names() == Seq::<Seq<char>>::empty(),
            r.spec_kind() == kind,
            r.wf(),
    {
        let r = CrateSet { kind, names: Vec::new() };
        assert(r.names.deep_view() =~= Seq::<Seq<char>>::empty());
        assert(r@ =~= Set::<Seq<char>>::empty());
        r
    }

    /// What the set's crates are built for.
    pub fn kind(&self) -> (k: CrateKind)
        ensures
            k == self.spec_kind(),
    {
        self.kind
    }

    /// How many names the set holds.
    pub fn len(&self) -> (n: usize)
        requires
            self.wf(),
        ensures
            n == self.names().len(),
            n == self@.len(),
    {
        proof {
            self.names.deep_view().unique_seq_to_set();
        }
        self.names.len()
    }

    /// Whether the set holds `name`.
    pub fn contains(&self, name: &str) -> (b: bool)
        ensures
            b == self@.contains(name@),
    {
        let n = self.names.len();
        let mut i: usize = 0;
        while i < n
            invariant
                n == self.names.len(),
                i <= n,
                forall|j: int| 0 <= j < i ==> self.names.deep_view()[j] != name@,
            decreases n - i,
        {
            if str_eq(self.names[i].as_str(), name) {
                assert(self.names.deep_view()[i as int] == name@);
                return true;
            }
            i += 1;
        }
        false
    }

    /// Adds `name`. Returns whether the set has grown.
    pub fn insert(&mut self, name: String) -> (grown: bool)
        requires
            old(self).wf(),
        ensures
            final(self).wf(),
            final(self)@ == old(self)@.insert(name@),
            grown == !old(self)@.contains(name@),
            final(self).spec_kind() == old(self).spec_kind(),
            final(self).names() == if grown {
                old(self).names().push(name@)
            } else {
                old(self).names()
            },
    {
        if self.contains(name.as_str()) {
            assert(self@.insert(name@) =~= self@);
            false
        } else {
            let ghost before = self.names.deep_view();
            self.names.push(name);
            assert(self.names.deep_view() =~= before.push(name@));
            proof {
                before.lemma_push_to_set_commute(name@);
            }
            true
        }
    }

    /// Adds every name of `extra`.
    pub fn extend(&mut self, extra: &Vec<String>)
        requires
            old(self).wf(),
        ensures
            final(self).wf(),
            final(self)@ == old(self)@.union(extra.deep_view().to_set()),
            final(self).names() == added(old(self).names(), extra.deep_view()),
            final(self).spec_kind() == old(self).spec_kind(),
    {
        let n = extra.len();
        let mut i: usize = 0;
        while i < n
            invariant
                n == extra.len(),
                i <= n,
                self.wf(),
                self@ == old(self)@.union(extra.deep_view().take(i as int).to_set()),
                self.names() == added(old(self).names(), extra.deep_view().take(i as int)),
                self.spec_kind() == old(self).spec_kind(),
            decreases n - i,
        {
            let ghost seen = extra.deep_view().take(i as int);
            proof {
                assert(extra.deep_view().take(i + 1).drop_last() =~= seen);
                assert(extra.deep_view().take(i + 1).last() == extra.deep_view()[i as int]);
            }
            self.insert(extra[i].clone());
            assert(extra.deep_view().take(i + 1) =~= seen.push(extra.deep_view()[i as int]));
            proof {
                seen.lemma_push_to_set_commute(extra.deep_view()[i as int]);
            }
            assert(self@ =~= old(self)@.union(extra.deep_view().take(i + 1).to_set()));
            i += 1;
        }
        assert(extra.deep_view().take(n as int) =~= extra.deep_view());
    }

    /// The names, in the order in which they came.
    pub fn to_vec(&self) -> (v: Vec<String>)
        ensures
            v.deep_view() == self.names(),
    {
        let n = self.names.len();
        let mut v: Vec<String> = Vec::new();
        let mut i: usize = 0;
        while i < n
            invariant
                n == self.names.len(),
                i <= n,
                v.deep_view() == self.names.deep_view().take(i as int),
            decreases n - i,
        {
            let ghost before = v.deep_view();
            v.push(self.names[i].clone());
            assert(v.deep_view() =~= before.push(self.names.deep_view()[i as int]));
            assert(self.names.deep_view().take(i + 1) =~= before.push(
                self.names.deep_view()[i as int],
            ));
            i += 1;
        }
        assert(self.names.deep_view().take(n as int) =~= self.names.deep_view());
        v
    }
}

/// Reads the lines of a list file as crate names, one per line: of each line
/// the text before its first hyphen.
pub fn populate_crates_from_file(kind: CrateKind, lines: &Vec<String>) -> (set: CrateSet)
    ensures
        set@ == crates_in_lines(lines.deep_view()),
        set.names() == added(Seq::empty(), line_crates(lines.deep_view())),
        set.spec_kind() == kind,
        set.wf(),
{
    let mut set = CrateSet::new(kind);
    assert(line_crates(lines.deep_view()).take(0) =~= Seq::empty());
    let n = lines.len();
    let mut i: usize = 0;
    while i < n
        invariant
            n == lines.len(),
            i <= n,
            set@ == crates_in_lines(lines.deep_view().take(i as int)),
            set.names() == added(Seq::empty(), line_crates(lines.deep_view()).take(i as int)),
            set.spec_kind() == kind,
            set.wf(),
        decreases n - i,
    {
        let ghost seen = lines.deep_view().take(i as int);
        proof {
            let all = line_crates(lines.deep_view());
            assert(all.take(i + 1).drop_last() =~= all.take(i as int));
            assert(all.take(i + 1).last() == crate_of_line(lines.deep_view()[i as int]));
        }
        let ghost before = set@;
        let name = prefix_before(lines[i].as_str(), '-');
        set.insert(name);
        proof {
            let next = lines.deep_view().take(i + 1);
            assert(next =~= seen.push(lines.deep_view()[i as int]));
            assert forall|m: Seq<char>| crates_in_lines(next).contains(m) implies set@.contains(
                m,
            ) by {
                let k = choose|k: int| 0 <= k < next.len() && m == crate_of_line(#[trigger] next[k]);
                if k < i {
                    assert(seen[k] == next[k]);
                    assert(crates_in_lines(seen).contains(m));
                }
            }
            assert forall|m: Seq<char>| set@.contains(m) implies crates_in_lines(next).contains(
                m,
            ) by {
                if before.contains(m) {
                    let k = choose|k: int| 0 <= k < seen.len() && m == crate_of_line(#[trigger] seen[k]);
                    assert(next[k] == seen[k]);
                } else {
                    assert(m == crate_of_line(next[i as int]));
                }
            }
            assert(set@ =~= crates_in_lines(next));
        }
        i += 1;
    }
    assert(lines.deep_view().take(n as int) =~= lines.deep_view());
    assert(line_crates(lines.deep_view()).take(n as int) =~= line_crates(lines.deep_view()));
    set
}

/// Collects the crates of a walked source tree: every directory that directly
/// holds a manifest file gives its own name. A manifest without a named
/// directory around it ends the walk with `NotFound` and the manifest's path.
pub fn populate_crates_from_dir(kind: CrateKind, entries: &Vec<WalkEntry>) -> (r: Result<
    CrateSet,
    BuildError,
>)
    ensures
        walk_outcome(entries.deep_view(), kind, r),
{
    let mut set = CrateSet::new(kind);
    assert(entries.deep_view().take(0) =~= Seq::empty());
    let n = entries.len();
    let mut i: usize = 0;
    while i < n
        invariant
            n == entries.len(),
            i <= n,
            forall|j: int| 0 <= j < i ==> !is_orphan(#[trigger] entries.deep_view()[j]),
            set@ == crates_in_walk(entries.deep_view().take(i as int)),
            set.names() == added(Seq::empty(), manifest_dirs(entries.deep_view().take(i as int))),
            set.spec_kind() == kind,
            set.wf(),
        decreases n - i,
    {
        let entry = &entries[i];
        proof {
            let all = entries.deep_view();
            assert(all.take(i + 1).drop_last() =~= all.take(i as int));
            assert(all.take(i + 1).last() == all[i as int]);
            let dirs = manifest_dirs(all.take(i as int));
            if is_manifest(all[i as int]) && all[i as int].parent_name is Some {
                assert(dirs.push(all[i as int].parent_name->0).drop_last() =~= dirs);
            }
        }
        let ghost seen = entries.deep_view().take(i as int);
        let ghost next = entries.deep_view().take(i + 1);
        let ghost before = set@;
        assert(next =~= seen.push(entries.deep_view()[i as int]));
        assert(entry.deep_view() == entries.deep_view()[i as int]);
        if entry.is_file && str_eq(entry.file_name.as_str(), "Cargo.toml") {
            match &entry.parent_name {
                Some(parent) => {
                    set.insert(parent.clone());
                },
                None => {
                    return Err(BuildError::NotFound { path: entry.path.clone() });
                },
            }
        }
        proof {
            assert forall|m: Seq<char>| crates_in_walk(next).contains(m) implies set@.contains(
                m,
            ) by {
                let k = choose|k: int|
                    0 <= k < next.len() && is_manifest(#[trigger] next[k]) && next[k].parent_name
                        == Some(m);
                if k < i {
                    assert(seen[k] == next[k]);
                    assert(crates_in_walk(seen).contains(m));
                }
            }
            assert forall|m: Seq<char>| set@.contains(m) implies crates_in_walk(next).contains(
                m,
            ) by {
                if before.contains(m) {
                    let k = choose|k: int|
                        0 <= k < seen.len() && is_manifest(#[trigger] seen[k])
                            && seen[k].parent_name == Some(m);
                    assert(next[k] == seen[k]);
                } else {
                    assert(is_manifest(next[i as int]) && next[i as int].parent_name == Some(m));
                }
            }
            assert(set@ =~= crates_in_walk(next));
        }
        i += 1;
    }
    assert(entries.deep_view().take(n as int) =~= entries.deep_view());
    Ok(set)
}

/// The entry at `i` is the first manifest with no named directory around it.
pub open spec fn first_orphan(entries: Seq<WalkEntryView>, i: int) -> bool {
    &&& 0 <= i < entries.len()
    &&& is_orphan(entries[i])
    &&& forall|j: int| 0 <= j < i ==> !is_orphan(#[trigger] entries[j])
}

/// No manifest of the walk lacks a named directory around it.
pub open spec fn walk_ok(entries: Seq<WalkEntryView>) -> bool {
    forall|i: int| 0 <= i < entries.len() ==> !is_orphan(#[trigger] entries[i])
}

/// Whether a source can be resolved: it is there, and where it is a tree, no
/// manifest of it lacks a named directory.
pub open spec fn source_ok(source: CrateSourceView) -> bool {
    match source {
        CrateSourceView::Missing { path } => false,
        CrateSourceView::ListFile { lines } => true,
        CrateSourceView::Tree { entries } => walk_ok(entries),
    }
}

/// The crates that a source names.
pub open spec fn source_crates(source: CrateSourceView) -> Set<Seq<char>> {
    match source {
        CrateSourceView::Missing { path } => Set::empty(),
        CrateSourceView::ListFile { lines } => crates_in_lines(lines),
        CrateSourceView::Tree { entries } => crates_in_walk(entries),
    }
}

/// Whether `e` is the failure that a source ends in: `NotFound` with the
/// source's own path where it is missing, or with the path of the first
/// manifest that has no named directory around it.
pub open spec fn is_failure_of(source: CrateSourceView, e: BuildErrorView) -> bool {
    match source {
        CrateSourceView::Missing { path } => e == (BuildErrorView::NotFound { path }),
        CrateSourceView::ListFile { lines } => false,
        CrateSourceView::Tree { entries } => exists|i: int|
            #[trigger] first_orphan(entries, i) && e == (BuildErrorView::NotFound {
                path: entries[i].path,
            }),
    }
}

/// The crates that a source names, in the order in which it names them.
pub open spec fn source_names(source: CrateSourceView) -> Seq<Seq<char>> {
    match source {
        CrateSourceView::Missing { path } => Seq::empty(),
        CrateSourceView::ListFile { lines } => line_crates(lines),
        CrateSourceView::Tree { entries } => manifest_dirs(entries),
    }
}

/// What resolving a source gives.
pub open spec fn resolve_outcome(
    source: CrateSourceView,
    kind: CrateKind,
    r: Result<CrateSet, BuildError>,
) -> bool {
    match r {
        Ok(set) => {
            &&& source_ok(source)
            &&& set.wf()
            &&& set@ == source_crates(source)
            &&& set.names() == added(Seq::empty(), source_names(source))
            &&& set.spec_kind() == kind
        },
        Err(e) => !source_ok(source) && is_failure_of(source, e.deep_view()),
    }
}

/// Resolves a crate source to its set of crate names. A list file gives the
/// text before the first hyphen of each line; a tree gives the name of every
/// directory that directly holds a manifest; a source that is not there gives
/// `NotFound`.
pub fn resolve(kind: CrateKind, source: &CrateSource) -> (r: Result<CrateSet, BuildError>)
    ensures
        resolve_outcome(source.deep_view(), kind, r),
{
    match source {
        CrateSource::Missing { path } => {
            let r = Err(BuildError::NotFound { path: path.clone() });
            assert(source.deep_view() == (CrateSourceView::Missing { path: path@ }));
            assert(resolve_outcome(source.deep_view(), kind, r));
            r
        },
        CrateSource::ListFile { lines } => {
            let r = Ok(populate_crates_from_file(kind, lines));
            assert(source.deep_view() == (CrateSourceView::ListFile { lines: lines.deep_view() }));
            assert(resolve_outcome(source.deep_view(), kind, r));
            r
        },
        CrateSource::Tree { entries } => {
            let r = populate_crates_from_dir(kind, entries);
            assert(source.deep_view() == (CrateSourceView::Tree { entries: entries.deep_view() }));
            proof {
                if r is Err {
                    let e = r->Err_0;
                    let i = choose|i: int|
                        {
                            &&& 0 <= i < entries.len()
                            &&& is_orphan(#[trigger] entries.deep_view()[i])
                            &&& forall|j: int|
                                0 <= j < i ==> !is_orphan(#[trigger] entries.deep_view()[j])
                            &&& e.deep_view() == (BuildErrorView::NotFound {
                                path: entries.deep_view()[i].path,
                            })
                        };
                    let sv = source.deep_view();
                    assert(first_orphan(entries.deep_view(), i));
                    assert(is_orphan(entries.deep_view()[i]));
                    assert(!walk_ok(entries.deep_view()));
                    assert(!source_ok(sv));
                    assert(is_failure_of(sv, e.deep_view()));
                } else {
                    let sv = source.deep_view();
                    assert(walk_outcome(entries.deep_view(), kind, r));
                    assert(walk_ok(entries.deep_view()));
                    assert(source_ok(sv));
                    assert(source_crates(sv) == crates_in_walk(entries.deep_view()));
                }
            }
            assert(resolve_outcome(source.deep_view(), kind, r));
            r
        },
    }
}

} // verus!
