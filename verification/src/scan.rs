//! Keeps, of all object files found in the build output directories, the
//! freshest one of each crate, and sorts the crates into applications, kernel
//! crates and the rest.
//!
//! Several object files of one crate may lie about: outputs of earlier
//! builds, or of builds into other target directories. The one changed last
//! is kept; of several changed at the same time, the one met first.

use crate::artifact::{
    CandidateDir, CandidateDirView, DepsArtifact, DepsArtifactView, FileInfoView, FilePath,
    FilePathView, ObjectArtifact, ObjectArtifactView, ObjectWithDeps, ObjectWithDepsView,
};
use crate::crate_set::CrateSet;
use crate::text::{append_text, before_first, has_suffix, object_ending, prefix_before};
use vstd::prelude::*;

verus! {

/// What a crate is, by the sets that name it.
#[derive(Debug, Clone, Copy, PartialEq, Eq, Structural)]
pub enum CrateClass {
    Application,
    Kernel,
    Other,
}

/// An object file met in a build output directory.
pub struct CandidateView {
    pub dir: Seq<char>,
    pub name: Seq<char>,
    pub modified: u64,
}

/// Whether a directory entry is an object file.
pub open spec fn is_object_file(f: FileInfoView) -> bool {
    f.is_file && object_ending().is_suffix_of(f.name)
}

/// The object files among `files`, in listing order.
pub open spec fn objects_among(dir: Seq<char>, files: Seq<FileInfoView>) -> Seq<CandidateView>
    decreases files.len(),
{
    if files.len() == 0 {
        Seq::empty()
    } else {
        let earlier = objects_among(dir, files.drop_last());
        let f = files.last();
        if is_object_file(f) {
            earlier.push(CandidateView { dir, name: f.name, modified: f.modified })
        } else {
            earlier
        }
    }
}

/// The object files of all directories: directory by directory, each in
/// listing order.
pub open spec fn candidates(dirs: Seq<CandidateDirView>) -> Seq<CandidateView>
    decreases dirs.len(),
{
    if dirs.len() == 0 {
        Seq::empty()
    } else {
        candidates(dirs.drop_last()) + objects_among(dirs.last().path, dirs.last().files)
    }
}

/// The crate that an object file belongs to: its name up to the first hyphen.
pub open spec fn crate_name_of(file_name: Seq<char>) -> Seq<char> {
    before_first(file_name, '-')
}

/// An object file's name without the ending.
pub open spec fn file_stem_of(file_name: Seq<char>) -> Seq<char> {
    file_name.subrange(0, file_name.len() - 2)
}

/// The crate of the candidate at `i`.
pub open spec fn crate_at(c: Seq<CandidateView>, i: int) -> Seq<char> {
    crate_name_of(c[i].name)
}

/// The candidate at `i` is kept before the one at `j`: it is at least as
/// fresh, and strictly fresher where `j` came first.
pub open spec fn beats(c: Seq<CandidateView>, i: int, j: int) -> bool {
    c[j].modified <= c[i].modified && (j < i ==> c[j].modified < c[i].modified)
}

/// Among the first `n` candidates, the one at `i` is the freshest of its
/// crate, and the first of the freshest.
pub open spec fn survives_among(c: Seq<CandidateView>, i: int, n: int) -> bool {
    &&& 0 <= i < n <= c.len()
    &&& forall|j: int| 0 <= j < n && #[trigger] crate_at(c, j) == crate_at(c, i) ==> beats(c, i, j)
}

/// The candidate at `i` is the one kept for its crate.
pub open spec fn survives(c: Seq<CandidateView>, i: int) -> bool {
    survives_among(c, i, c.len() as int)
}

/// Crate `a` is met among the candidates before crate `b` is.
pub open spec fn occurs_before(c: Seq<CandidateView>, a: Seq<char>, b: Seq<char>) -> bool {
    exists|i: int|
        0 <= i < c.len() && #[trigger] crate_at(c, i) == a && forall|j: int|
            0 <= j <= i ==> #[trigger] crate_at(c, j) != b
}

/// The class of a crate: an application where the application set names it,
/// else a kernel crate where the kernel set names it, else one of the rest.
pub open spec fn class_of(name: Seq<char>, apps: Set<Seq<char>>, kernel: Set<Seq<char>>) -> CrateClass {
    if apps.contains(name) {
        CrateClass::Application
    } else if kernel.contains(name) {
        CrateClass::Kernel
    } else {
        CrateClass::Other
    }
}

/// The artifact that a candidate becomes.
pub open spec fn artifact_of(c: CandidateView) -> ObjectArtifactView {
    ObjectArtifactView {
        crate_name: crate_name_of(c.name),
        file_stem: file_stem_of(c.name),
        file: FilePathView { dir: c.dir, name: c.name },
        last_modified: c.modified,
    }
}

/// The companions of an object file: `lib<stem>.rmeta` and `lib<stem>.rlib`
/// in the object's own directory.
pub open spec fn deps_of(a: ObjectArtifactView) -> DepsArtifactView {
    DepsArtifactView {
        rmeta: FilePathView { dir: a.file.dir, name: "lib"@ + a.file_stem + ".rmeta"@ },
        rlib: FilePathView { dir: a.file.dir, name: "lib"@ + a.file_stem + ".rlib"@ },
    }
}

/// `a` is what the candidate kept for some crate of `class` becomes.
pub open spec fn is_kept_artifact(
    c: Seq<CandidateView>,
    apps: Set<Seq<char>>,
    kernel: Set<Seq<char>>,
    class: CrateClass,
    a: ObjectArtifactView,
) -> bool {
    exists|i: int|
        #[trigger] survives(c, i) && class_of(crate_at(c, i), apps, kernel) == class && a
            == artifact_of(c[i])
}

/// `out` holds, for each crate of `class` among the candidates, the candidate
/// kept for it, and nothing else; the crates stand in the order in which the
/// candidates first name them.
pub open spec fn is_selection_of(
    c: Seq<CandidateView>,
    apps: Set<Seq<char>>,
    kernel: Set<Seq<char>>,
    class: CrateClass,
    out: Seq<ObjectArtifactView>,
) -> bool {
    &&& forall|k: int| 0 <= k < out.len() ==> is_kept_artifact(c, apps, kernel, class, #[trigger] out[k])
    &&& forall|i: int|
        #[trigger] survives(c, i) && class_of(crate_at(c, i), apps, kernel) == class
            ==> out.contains(artifact_of(c[i]))
    &&& forall|k: int, l: int|
        0 <= k < l < out.len() ==> occurs_before(
            c,
            (#[trigger] out[k]).crate_name,
            (#[trigger] out[l]).crate_name,
        )
}

/// The objects of a list of objects with companions.
pub open spec fn objects_of(list: Seq<ObjectWithDepsView>) -> Seq<ObjectArtifactView> {
    Seq::new(list.len(), |k: int| list[k].object)
}

/// Every object of the list has the companions that its own path gives.
pub open spec fn deps_follow(list: Seq<ObjectWithDepsView>) -> bool {
    forall|k: int| 0 <= k < list.len() ==> (#[trigger] list[k]).deps == deps_of(list[k].object)
}

struct Candidate {
    dir: String,
    name: String,
    crate_name: String,
    modified: u64,
}

impl DeepView for Candidate {
    type V = CandidateView;

    closed spec fn deep_view(&self) -> CandidateView {
        CandidateView { dir: self.dir@, name: self.name@, modified: self.modified }
    }
}

impl Candidate {
    spec fn wf(&self) -> bool {
        &&& self.crate_name@ == crate_name_of(self.name@)
        &&& object_ending().is_suffix_of(self.name@)
    }
}

proof fn lemma_objects_among_step(dir: Seq<char>, files: Seq<FileInfoView>, k: int)
    requires
        0 <= k < files.len(),
    ensures
        objects_among(dir, files.take(k + 1)) == if is_object_file(files[k]) {
            objects_among(dir, files.take(k)).push(
                CandidateView { dir, name: files[k].name, modified: files[k].modified },
            )
        } else {
            objects_among(dir, files.take(k))
        },
{
    assert(files.take(k + 1).drop_last() =~= files.take(k));
    assert(files.take(k + 1).last() == files[k]);
}

proof fn lemma_candidates_step(dirs: Seq<CandidateDirView>, d: int)
    requires
        0 <= d < dirs.len(),
    ensures
        candidates(dirs.take(d + 1)) == candidates(dirs.take(d)) + objects_among(
            dirs[d].path,
            dirs[d].files,
        ),
{
    assert(dirs.take(d + 1).drop_last() =~= dirs.take(d));
    assert(dirs.take(d + 1).last() == dirs[d]);
}

/// Gathers the object files of the directories, in order.
fn collect_candidates(dirs: &Vec<CandidateDir>) -> (out: Vec<Candidate>)
    ensures
        out.deep_view() == candidates(dirs.deep_view()),
        forall|i: int| 0 <= i < out.len() ==> (#[trigger] out[i]).wf(),
{
    let mut out: Vec<Candidate> = Vec::new();
    let nd = dirs.len();
    let mut d: usize = 0;
    assert(out.deep_view() =~= candidates(dirs.deep_view().take(0)));
    while d < nd
        invariant
            nd == dirs.len(),
            d <= nd,
            out.deep_view() == candidates(dirs.deep_view().take(d as int)),
            forall|i: int| 0 <= i < out.len() ==> (#[trigger] out[i]).wf(),
        decreases nd - d,
    {
        let dir = &dirs[d];
        let ghost dv = dirs.deep_view()[d as int];
        assert(dir.deep_view() == dv);
        let ghost base = out.deep_view();
        let nf = dir.files.len();
        let mut f: usize = 0;
        assert(out.deep_view() =~= base + objects_among(dv.path, dv.files.take(0)));
        while f < nf
            invariant
                nf == dir.files.len(),
                f <= nf,
                dir.deep_view() == dv,
                out.deep_view() == base + objects_among(dv.path, dv.files.take(f as int)),
                forall|i: int| 0 <= i < out.len() ==> (#[trigger] out[i]).wf(),
            decreases nf - f,
        {
            let file = &dir.files[f];
            assert(file.deep_view() == dv.files[f as int]);
            proof {
                lemma_objects_among_step(dv.path, dv.files, f as int);
            }
            if file.is_file && has_suffix(file.name.as_str(), ".o") {
                let ghost before = out.deep_view();
                let cand = Candidate {
                    dir: dir.path.clone(),
                    name: file.name.clone(),
                    crate_name: prefix_before(file.name.as_str(), '-'),
                    modified: file.modified,
                };
                out.push(cand);
                assert(out.deep_view() =~= before.push(
                    CandidateView { dir: dv.path, name: dv.files[f as int].name, modified: dv.files[f as int].modified },
                ));
                assert(out.deep_view() =~= base + objects_among(dv.path, dv.files.take(f + 1)));
            }
            f += 1;
        }
        proof {
            assert(dv.files.take(nf as int) =~= dv.files);
            lemma_candidates_step(dirs.deep_view(), d as int);
        }
        d += 1;
    }
    assert(dirs.deep_view().take(nd as int) =~= dirs.deep_view());
    out
}

/// The candidate at `i` is the first of its crate.
spec fn is_first_of_crate(c: Seq<CandidateView>, i: int) -> bool {
    &&& 0 <= i < c.len()
    &&& forall|j: int| 0 <= j < i ==> #[trigger] crate_at(c, j) != crate_at(c, i)
}

/// A candidate of the crate of candidate `j` is among the kept ones.
spec fn has_kept(c: Seq<CandidateView>, w: Seq<usize>, j: int) -> bool {
    exists|k: int| 0 <= k < w.len() && crate_at(c, #[trigger] w[k] as int) == crate_at(c, j)
}

/// What holds of the kept candidates `w` once the first `n` candidates have
/// been seen; `firsts` holds where each kept crate was first met.
spec fn kept_after(c: Seq<CandidateView>, w: Seq<usize>, firsts: Seq<int>, n: int) -> bool {
    &&& 0 <= n <= c.len()
    &&& w.len() == firsts.len()
    &&& forall|k: int| 0 <= k < w.len() ==> survives_among(c, #[trigger] w[k] as int, n)
    &&& forall|j: int| 0 <= j < n ==> #[trigger] has_kept(c, w, j)
    &&& forall|k: int|
        0 <= k < firsts.len() ==> is_first_of_crate(c, #[trigger] firsts[k]) && crate_at(
            c,
            firsts[k],
        ) == crate_at(c, w[k] as int) && firsts[k] < n
    &&& forall|k: int, l: int| 0 <= k < l < firsts.len() ==> #[trigger] firsts[k] < #[trigger] firsts[l]
}

/// No two kept candidates are of one crate.
proof fn lemma_kept_distinct(c: Seq<CandidateView>, w: Seq<usize>, firsts: Seq<int>, n: int, k: int, l: int)
    requires
        kept_after(c, w, firsts, n),
        0 <= k < w.len(),
        0 <= l < w.len(),
        k != l,
    ensures
        crate_at(c, w[k] as int) != crate_at(c, w[l] as int),
{
    assert(is_first_of_crate(c, firsts[k]));
    assert(is_first_of_crate(c, firsts[l]));
    if k < l {
        assert(firsts[k] < firsts[l]);
        assert(crate_at(c, firsts[k]) != crate_at(c, firsts[l]));
    } else {
        assert(firsts[l] < firsts[k]);
        assert(crate_at(c, firsts[l]) != crate_at(c, firsts[k]));
    }
}

/// Looks for a kept candidate of the crate of candidate `i`.
fn find_kept(cands: &Vec<Candidate>, w: &Vec<usize>, i: usize) -> (k: usize)
    requires
        i < cands.len(),
        forall|j: int| 0 <= j < cands.len() ==> (#[trigger] cands[j]).wf(),
        forall|j: int| 0 <= j < w.len() ==> #[trigger] w[j] < cands.len(),
    ensures
        k <= w.len(),
        forall|j: int|
            0 <= j < k ==> crate_at(cands.deep_view(), #[trigger] w[j] as int) != crate_at(
                cands.deep_view(),
                i as int,
            ),
        k < w.len() ==> crate_at(cands.deep_view(), w[k as int] as int) == crate_at(
            cands.deep_view(),
            i as int,
        ),
{
    let m = w.len();
    let mut k: usize = 0;
    assert(cands[i as int].wf());
    while k < m
        invariant
            m == w.len(),
            k <= m,
            i < cands.len(),
            forall|j: int| 0 <= j < cands.len() ==> (#[trigger] cands[j]).wf(),
            forall|j: int| 0 <= j < w.len() ==> #[trigger] w[j] < cands.len(),
            forall|j: int|
                0 <= j < k ==> crate_at(cands.deep_view(), #[trigger] w[j] as int) != crate_at(
                    cands.deep_view(),
                    i as int,
                ),
        decreases m - k,
    {
        let at = w[k];
        assert(cands[at as int].wf());
        assert(cands[i as int].wf());
        if cands[at].crate_name == cands[i].crate_name {
            return k;
        }
        k += 1;
    }
    k
}

/// A candidate of a crate not yet met is kept as it comes.
proof fn lemma_keep_new(c: Seq<CandidateView>, w: Seq<usize>, firsts: Seq<int>, i: int)
    requires
        kept_after(c, w, firsts, i),
        i < c.len(),
        i <= usize::MAX,
        forall|k: int| 0 <= k < w.len() ==> crate_at(c, #[trigger] w[k] as int) != crate_at(c, i),
    ensures
        kept_after(c, w.push(i as usize), firsts.push(i), i + 1),
{
    let w1 = w.push(i as usize);
    let f1 = firsts.push(i);
    assert forall|j: int| 0 <= j < i implies #[trigger] crate_at(c, j) != crate_at(c, i) by {
        assert(has_kept(c, w, j));
        let k0 = choose|k0: int|
            0 <= k0 < w.len() && crate_at(c, #[trigger] w[k0] as int) == crate_at(c, j);
        assert(crate_at(c, w[k0] as int) != crate_at(c, i));
    }
    assert(is_first_of_crate(c, i));
    assert forall|k: int| 0 <= k < w1.len() implies survives_among(c, #[trigger] w1[k] as int, i + 1) by {
        if k < w.len() {
            assert(survives_among(c, w[k] as int, i));
            assert(crate_at(c, w[k] as int) != crate_at(c, i));
        }
    }
    assert forall|j: int| 0 <= j < i + 1 implies #[trigger] has_kept(c, w1, j) by {
        if j < i {
            assert(has_kept(c, w, j));
            let k0 = choose|k0: int|
                0 <= k0 < w.len() && crate_at(c, #[trigger] w[k0] as int) == crate_at(c, j);
            assert(w1[k0] == w[k0]);
            assert(0 <= k0 < w1.len() && crate_at(c, w1[k0] as int) == crate_at(c, j));
        } else {
            let k1 = w.len() as int;
            assert(w1[k1] == i);
            assert(0 <= k1 < w1.len() && crate_at(c, w1[k1] as int) == crate_at(c, j));
        }
    }
    assert forall|k: int| 0 <= k < f1.len() implies is_first_of_crate(c, #[trigger] f1[k])
        && crate_at(c, f1[k]) == crate_at(c, w1[k] as int) && f1[k] < i + 1 by {
        if k < firsts.len() {
            assert(is_first_of_crate(c, firsts[k]));
            assert(w1[k] == w[k]);
        }
    }
    assert forall|k: int, l: int| 0 <= k < l < f1.len() implies #[trigger] f1[k] < #[trigger] f1[l] by {
        if l < firsts.len() {
            assert(firsts[k] < firsts[l]);
        } else {
            assert(is_first_of_crate(c, firsts[k]) && firsts[k] < i);
        }
    }
}

/// A candidate that is no fresher than the one kept for its crate changes
/// nothing.
proof fn lemma_keep_old(c: Seq<CandidateView>, w: Seq<usize>, firsts: Seq<int>, i: int, k: int)
    requires
        kept_after(c, w, firsts, i),
        i < c.len(),
        0 <= k < w.len(),
        crate_at(c, w[k] as int) == crate_at(c, i),
        c[i].modified <= c[w[k] as int].modified,
    ensures
        kept_after(c, w, firsts, i + 1),
{
    assert forall|k2: int| 0 <= k2 < w.len() implies survives_among(c, #[trigger] w[k2] as int, i + 1) by {
        assert(survives_among(c, w[k2] as int, i));
        if k2 != k {
            lemma_kept_distinct(c, w, firsts, i, k2, k);
        }
    }
    assert forall|j: int| 0 <= j < i + 1 implies #[trigger] has_kept(c, w, j) by {
        if j == i {
            assert(crate_at(c, w[k] as int) == crate_at(c, j));
        } else {
            assert(has_kept(c, w, j));
        }
    }
    assert forall|k2: int| 0 <= k2 < firsts.len() implies is_first_of_crate(c, #[trigger] firsts[k2])
        && crate_at(c, firsts[k2]) == crate_at(c, w[k2] as int) && firsts[k2] < i + 1 by {
        assert(is_first_of_crate(c, firsts[k2]));
    }
}

/// A candidate that is fresher than the one kept for its crate takes its
/// place.
proof fn lemma_keep_fresher(c: Seq<CandidateView>, w: Seq<usize>, firsts: Seq<int>, i: int, k: int)
    requires
        kept_after(c, w, firsts, i),
        i < c.len(),
        i <= usize::MAX,
        0 <= k < w.len(),
        crate_at(c, w[k] as int) == crate_at(c, i),
        c[w[k] as int].modified < c[i].modified,
    ensures
        kept_after(c, w.update(k, i as usize), firsts, i + 1),
{
    let w1 = w.update(k, i as usize);
    let at = w[k] as int;
    assert(survives_among(c, at, i));
    assert forall|k2: int| 0 <= k2 < w1.len() implies survives_among(c, #[trigger] w1[k2] as int, i + 1) by {
        if k2 == k {
            assert forall|j: int|
                0 <= j < i + 1 && #[trigger] crate_at(c, j) == crate_at(c, i) implies beats(
                c,
                i,
                j,
            ) by {
                if j < i {
                    assert(beats(c, at, j));
                }
            }
        } else {
            lemma_kept_distinct(c, w, firsts, i, k2, k);
            assert(survives_among(c, w[k2] as int, i));
        }
    }
    assert forall|j: int| 0 <= j < i + 1 implies #[trigger] has_kept(c, w1, j) by {
        if j < i {
            assert(has_kept(c, w, j));
            let k0 = choose|k0: int|
                0 <= k0 < w.len() && crate_at(c, #[trigger] w[k0] as int) == crate_at(c, j);
            assert(crate_at(c, w1[k0] as int) == crate_at(c, j));
        } else {
            assert(crate_at(c, w1[k] as int) == crate_at(c, j));
        }
    }
    assert forall|k2: int| 0 <= k2 < firsts.len() implies is_first_of_crate(c, #[trigger] firsts[k2])
        && crate_at(c, firsts[k2]) == crate_at(c, w1[k2] as int) && firsts[k2] < i + 1 by {
        assert(is_first_of_crate(c, firsts[k2]));
    }
}

/// Keeps, for each crate met, the freshest of its candidates, the first where
/// several are as fresh.
fn select(cands: &Vec<Candidate>) -> (r: (Vec<usize>, Ghost<Seq<int>>))
    requires
        forall|j: int| 0 <= j < cands.len() ==> (#[trigger] cands[j]).wf(),
    ensures
        kept_after(cands.deep_view(), r.0@, r.1@, cands.len() as int),
{
    let ghost c = cands.deep_view();
    let mut w: Vec<usize> = Vec::new();
    let ghost mut firsts: Seq<int> = Seq::empty();
    let n = cands.len();
    let mut i: usize = 0;
    while i < n
        invariant
            n == cands.len(),
            i <= n,
            c == cands.deep_view(),
            forall|j: int| 0 <= j < cands.len() ==> (#[trigger] cands[j]).wf(),
            kept_after(c, w@, firsts, i as int),
        decreases n - i,
    {
        let ghost w0 = w@;
        assert forall|j: int| 0 <= j < w.len() implies #[trigger] w[j] < cands.len() by {
            assert(survives_among(c, w0[j] as int, i as int));
        }
        let k = find_kept(cands, &w, i);
        if k < w.len() {
            let at = w[k];
            if cands[at].modified < cands[i].modified {
                w.set(k, i);
                proof {
                    lemma_keep_fresher(c, w0, firsts, i as int, k as int);
                }
            } else {
                proof {
                    lemma_keep_old(c, w0, firsts, i as int, k as int);
                }
            }
        } else {
            w.push(i);
            proof {
                lemma_keep_new(c, w0, firsts, i as int);
                firsts = firsts.push(i as int);
            }
        }
        i += 1;
    }
    (w, Ghost(firsts))
}

/// The candidate kept for a crate is at least as fresh as every candidate of
/// the crate, and came before every other one that is as fresh.
pub proof fn lemma_kept_is_freshest(c: Seq<CandidateView>, kept: int, other: int)
    requires
        survives(c, kept),
        0 <= other < c.len(),
        crate_at(c, other) == crate_at(c, kept),
    ensures
        c[other].modified <= c[kept].modified,
        c[other].modified == c[kept].modified ==> kept <= other,
{
    assert(beats(c, kept, other));
}

/// Of two candidates of one crate at most one is kept.
pub proof fn lemma_one_survivor_per_crate(c: Seq<CandidateView>, a: int, b: int)
    requires
        survives(c, a),
        survives(c, b),
        crate_at(c, a) == crate_at(c, b),
    ensures
        a == b,
{
    assert(beats(c, a, b));
    assert(beats(c, b, a));
}

/// Among the first `n` candidates, one is kept for the crate of each.
proof fn lemma_survivor_among(c: Seq<CandidateView>, j: int, n: int) -> (i: int)
    requires
        0 <= j < n <= c.len(),
    ensures
        survives_among(c, i, n),
        crate_at(c, i) == crate_at(c, j),
    decreases n,
{
    if j == n - 1 && forall|m: int| 0 <= m < n - 1 ==> #[trigger] crate_at(c, m) != crate_at(c, j) {
        j
    } else {
        let j0 = if j < n - 1 {
            j
        } else {
            choose|m: int| 0 <= m < n - 1 && #[trigger] crate_at(c, m) == crate_at(c, j)
        };
        let i0 = lemma_survivor_among(c, j0, n - 1);
        if crate_at(c, n - 1) == crate_at(c, j) && c[i0].modified < c[n - 1].modified {
            assert forall|m: int|
                0 <= m < n && #[trigger] crate_at(c, m) == crate_at(c, n - 1) implies beats(
                c,
                n - 1,
                m,
            ) by {
                if m < n - 1 {
                    assert(beats(c, i0, m));
                }
            }
            n - 1
        } else {
            assert forall|m: int|
                0 <= m < n && #[trigger] crate_at(c, m) == crate_at(c, i0) implies beats(
                c,
                i0,
                m,
            ) by {
                if m < n - 1 {
                    assert(beats(c, i0, m));
                }
            }
            i0
        }
    }
}

/// For the crate of every candidate one candidate is kept: the freshest of the
/// crate, and of several as fresh the one that came first.
pub proof fn lemma_survivor_exists(c: Seq<CandidateView>, j: int) -> (i: int)
    requires
        0 <= j < c.len(),
    ensures
        survives(c, i),
        crate_at(c, i) == crate_at(c, j),
{
    lemma_survivor_among(c, j, c.len() as int)
}

/// What holds of one class's list while the kept candidates are dealt out:
/// `pos` tells, for each artifact of the list, which kept candidate it is.
spec fn dealt(
    c: Seq<CandidateView>,
    w: Seq<usize>,
    apps: Set<Seq<char>>,
    kernel: Set<Seq<char>>,
    class: CrateClass,
    out: Seq<ObjectArtifactView>,
    pos: Seq<int>,
    p: int,
) -> bool {
    &&& out.len() == pos.len()
    &&& forall|k: int|
        0 <= k < pos.len() ==> 0 <= #[trigger] pos[k] < p && out[k] == artifact_of(
            c[w[pos[k]] as int],
        ) && class_of(crate_at(c, w[pos[k]] as int), apps, kernel) == class
    &&& forall|k: int, l: int| 0 <= k < l < pos.len() ==> #[trigger] pos[k] < #[trigger] pos[l]
    &&& forall|q: int|
        0 <= q < p && class_of(crate_at(c, #[trigger] w[q] as int), apps, kernel) == class
            ==> pos.contains(q)
}

proof fn lemma_dealt_skip(
    c: Seq<CandidateView>,
    w: Seq<usize>,
    apps: Set<Seq<char>>,
    kernel: Set<Seq<char>>,
    class: CrateClass,
    out: Seq<ObjectArtifactView>,
    pos: Seq<int>,
    p: int,
)
    requires
        dealt(c, w, apps, kernel, class, out, pos, p),
        0 <= p < w.len(),
        class_of(crate_at(c, w[p] as int), apps, kernel) != class,
    ensures
        dealt(c, w, apps, kernel, class, out, pos, p + 1),
{
}

proof fn lemma_dealt_take(
    c: Seq<CandidateView>,
    w: Seq<usize>,
    apps: Set<Seq<char>>,
    kernel: Set<Seq<char>>,
    class: CrateClass,
    out: Seq<ObjectArtifactView>,
    pos: Seq<int>,
    p: int,
)
    requires
        dealt(c, w, apps, kernel, class, out, pos, p),
        0 <= p < w.len(),
        class_of(crate_at(c, w[p] as int), apps, kernel) == class,
    ensures
        dealt(
            c,
            w,
            apps,
            kernel,
            class,
            out.push(artifact_of(c[w[p] as int])),
            pos.push(p),
            p + 1,
        ),
{
    let out1 = out.push(artifact_of(c[w[p] as int]));
    let pos1 = pos.push(p);
    assert forall|q: int|
        0 <= q < p + 1 && class_of(crate_at(c, #[trigger] w[q] as int), apps, kernel)
            == class implies pos1.contains(q) by {
        if q < p {
            assert(pos.contains(q));
            let k = choose|k: int| 0 <= k < pos.len() && pos[k] == q;
            assert(pos1[k] == q);
        } else {
            assert(pos1[pos.len() as int] == q);
        }
    }
    assert forall|k: int, l: int| 0 <= k < l < pos1.len() implies #[trigger] pos1[k] < #[trigger] pos1[l] by {
        if l < pos.len() {
            assert(pos[k] < pos[l]);
        } else {
            assert(0 <= pos[k] < p);
        }
    }
}

/// Once all kept candidates are dealt out, a class's list is the selection
/// for that class.
proof fn lemma_dealt_is_selection(
    c: Seq<CandidateView>,
    w: Seq<usize>,
    firsts: Seq<int>,
    apps: Set<Seq<char>>,
    kernel: Set<Seq<char>>,
    class: CrateClass,
    out: Seq<ObjectArtifactView>,
    pos: Seq<int>,
)
    requires
        kept_after(c, w, firsts, c.len() as int),
        dealt(c, w, apps, kernel, class, out, pos, w.len() as int),
    ensures
        is_selection_of(c, apps, kernel, class, out),
{
    assert forall|k: int| 0 <= k < out.len() implies is_kept_artifact(
        c,
        apps,
        kernel,
        class,
        #[trigger] out[k],
    ) by {
        let i = w[pos[k]] as int;
        assert(survives_among(c, i, c.len() as int));
        assert(survives(c, i));
    }
    assert forall|i: int|
        #[trigger] survives(c, i) && class_of(crate_at(c, i), apps, kernel)
            == class implies out.contains(artifact_of(c[i])) by {
        assert(has_kept(c, w, i));
        let q = choose|q: int| 0 <= q < w.len() && crate_at(c, #[trigger] w[q] as int) == crate_at(c, i);
        assert(survives_among(c, w[q] as int, c.len() as int));
        lemma_one_survivor_per_crate(c, w[q] as int, i);
        assert(pos.contains(q));
        let k = choose|k: int| 0 <= k < pos.len() && pos[k] == q;
        assert(out[k] == artifact_of(c[i]));
    }
    assert forall|k: int, l: int| 0 <= k < l < out.len() implies occurs_before(
        c,
        (#[trigger] out[k]).crate_name,
        (#[trigger] out[l]).crate_name,
    ) by {
        assert(pos[k] < pos[l]);
        let fk = firsts[pos[k]];
        let fl = firsts[pos[l]];
        assert(fk < fl);
        assert(is_first_of_crate(c, fk));
        assert(is_first_of_crate(c, fl));
        assert(crate_at(c, fk) == out[k].crate_name);
        assert forall|j: int| 0 <= j <= fk implies #[trigger] crate_at(c, j) != out[l].crate_name by {
            assert(crate_at(c, fl) == out[l].crate_name);
        }
    }
}

/// Builds the artifact of a candidate.
fn make_artifact(cand: &Candidate) -> (a: ObjectArtifact)
    requires
        cand.wf(),
    ensures
        a.deep_view() == artifact_of(cand.deep_view()),
{
    proof {
        reveal_strlit(".o");
    }
    let n = cand.name.as_str().unicode_len();
    let stem = cand.name.as_str().substring_char(0, n - 2).to_owned();
    ObjectArtifact {
        crate_name: cand.crate_name.clone(),
        file_stem: stem,
        file: FilePath { dir: cand.dir.clone(), name: cand.name.clone() },
        last_modified: cand.modified,
    }
}

/// Names the companions of an object file.
fn make_deps(a: &ObjectArtifact) -> (d: DepsArtifact)
    ensures
        d.deep_view() == deps_of(a.deep_view()),
{
    let base = append_text("lib", a.file_stem.as_str());
    DepsArtifact {
        rmeta: FilePath { dir: a.file.dir.clone(), name: append_text(base.as_str(), ".rmeta") },
        rlib: FilePath { dir: a.file.dir.clone(), name: append_text(base.as_str(), ".rlib") },
    }
}

/// The freshest object file of each crate, by class.
#[derive(Debug, Clone, PartialEq, Eq)]
pub struct Selection {
    pub apps: Vec<ObjectArtifact>,
    pub kernel: Vec<ObjectWithDeps>,
    pub other: Vec<ObjectWithDeps>,
}

/// Scans the build output directories in the order given and keeps one object
/// file per crate: the one changed last, and of several changed at the same
/// time the one met first. A crate named by `app_crates` is an application,
/// one named by `kernel_crates` (and not by `app_crates`) a kernel crate, any
/// other one of the rest. Kernel crates and the rest come with the names of
/// their companion files.
pub fn parse_input_dir(
    app_crates: &CrateSet,
    kernel_crates: &CrateSet,
    input_dirs: &Vec<CandidateDir>,
) -> (sel: Selection)
    ensures
        is_selection_of(
            candidates(input_dirs.deep_view()),
            app_crates@,
            kernel_crates@,
            CrateClass::Application,
            sel.apps.deep_view(),
        ),
        is_selection_of(
            candidates(input_dirs.deep_view()),
            app_crates@,
            kernel_crates@,
            CrateClass::Kernel,
            objects_of(sel.kernel.deep_view()),
        ),
        is_selection_of(
            candidates(input_dirs.deep_view()),
            app_crates@,
            kernel_crates@,
            CrateClass::Other,
            objects_of(sel.other.deep_view()),
        ),
        deps_follow(sel.kernel.deep_view()),
        deps_follow(sel.other.deep_view()),
{
    let cands = collect_candidates(input_dirs);
    let (w, Ghost(firsts)) = select(&cands);
    let ghost c = cands.deep_view();
    let ghost sa = app_crates@;
    let ghost sk = kernel_crates@;
    let mut apps: Vec<ObjectArtifact> = Vec::new();
    let mut kernel: Vec<ObjectWithDeps> = Vec::new();
    let mut other: Vec<ObjectWithDeps> = Vec::new();
    let ghost mut pa: Seq<int> = Seq::empty();
    let ghost mut pk: Seq<int> = Seq::empty();
    let ghost mut po: Seq<int> = Seq::empty();
    let m = w.len();
    let mut p: usize = 0;
    assert(objects_of(kernel.deep_view()) =~= Seq::empty());
    assert(objects_of(other.deep_view()) =~= Seq::empty());
    while p < m
        invariant
            m == w.len(),
            p <= m,
            c == cands.deep_view(),
            sa == app_crates@,
            sk == kernel_crates@,
            forall|j: int| 0 <= j < cands.len() ==> (#[trigger] cands[j]).wf(),
            kept_after(c, w@, firsts, c.len() as int),
            dealt(c, w@, sa, sk, CrateClass::Application, apps.deep_view(), pa, p as int),
            dealt(c, w@, sa, sk, CrateClass::Kernel, objects_of(kernel.deep_view()), pk, p as int),
            dealt(c, w@, sa, sk, CrateClass::Other, objects_of(other.deep_view()), po, p as int),
            deps_follow(kernel.deep_view()),
            deps_follow(other.deep_view()),
        decreases m - p,
    {
        let i = w[p];
        assert(survives_among(c, w@[p as int] as int, c.len() as int));
        let cand = &cands[i];
        assert(cand.wf());
        assert(cand.deep_view() == c[i as int]);
        let artifact = make_artifact(cand);
        let ghost av = artifact.deep_view();
        let ghost a0 = apps.deep_view();
        let ghost k0 = kernel.deep_view();
        let ghost o0 = other.deep_view();
        if app_crates.contains(cand.crate_name.as_str()) {
            apps.push(artifact);
            proof {
                assert(apps.deep_view() =~= a0.push(av));
                lemma_dealt_take(c, w@, sa, sk, CrateClass::Application, a0, pa, p as int);
                lemma_dealt_skip(c, w@, sa, sk, CrateClass::Kernel, objects_of(k0), pk, p as int);
                lemma_dealt_skip(c, w@, sa, sk, CrateClass::Other, objects_of(o0), po, p as int);
                pa = pa.push(p as int);
            }
        } else if kernel_crates.contains(cand.crate_name.as_str()) {
            let deps = make_deps(&artifact);
            kernel.push(ObjectWithDeps { object: artifact, deps });
            proof {
                assert(kernel.deep_view() =~= k0.push(
                    ObjectWithDepsView { object: av, deps: deps_of(av) },
                ));
                assert(objects_of(kernel.deep_view()) =~= objects_of(k0).push(av));
                lemma_dealt_skip(c, w@, sa, sk, CrateClass::Application, a0, pa, p as int);
                lemma_dealt_take(c, w@, sa, sk, CrateClass::Kernel, objects_of(k0), pk, p as int);
                lemma_dealt_skip(c, w@, sa, sk, CrateClass::Other, objects_of(o0), po, p as int);
                pk = pk.push(p as int);
            }
        } else {
            let deps = make_deps(&artifact);
            other.push(ObjectWithDeps { object: artifact, deps });
            proof {
                assert(other.deep_view() =~= o0.push(
                    ObjectWithDepsView { object: av, deps: deps_of(av) },
                ));
                assert(objects_of(other.deep_view()) =~= objects_of(o0).push(av));
                lemma_dealt_skip(c, w@, sa, sk, CrateClass::Application, a0, pa, p as int);
                lemma_dealt_skip(c, w@, sa, sk, CrateClass::Kernel, objects_of(k0), pk, p as int);
                lemma_dealt_take(c, w@, sa, sk, CrateClass::Other, objects_of(o0), po, p as int);
                po = po.push(p as int);
            }
        }
        p += 1;
    }
    proof {
        lemma_dealt_is_selection(c, w@, firsts, sa, sk, CrateClass::Application, apps.deep_view(), pa);
        lemma_dealt_is_selection(
            c,
            w@,
            firsts,
            sa,
            sk,
            CrateClass::Kernel,
            objects_of(kernel.deep_view()),
            pk,
        );
        lemma_dealt_is_selection(
            c,
            w@,
            firsts,
            sa,
            sk,
            CrateClass::Other,
            objects_of(other.deep_view()),
            po,
        );
    }
    Selection { apps, kernel, other }
}

/// The crate of `x` stands before the crate of `y` in the order in which the
/// candidates first name them.
pub open spec fn artifact_before(c: Seq<CandidateView>, x: ObjectArtifactView, y: ObjectArtifactView) -> bool {
    occurs_before(c, x.crate_name, y.crate_name)
}

/// Of two crates at most one is met before the other.
pub proof fn lemma_occurs_before_one_way(c: Seq<CandidateView>, a: Seq<char>, b: Seq<char>)
    ensures
        !(occurs_before(c, a, b) && occurs_before(c, b, a)),
{
    if occurs_before(c, a, b) && occurs_before(c, b, a) {
        let i = choose|i: int|
            0 <= i < c.len() && #[trigger] crate_at(c, i) == a && forall|j: int|
                0 <= j <= i ==> #[trigger] crate_at(c, j) != b;
        let k = choose|k: int|
            0 <= k < c.len() && #[trigger] crate_at(c, k) == b && forall|j: int|
                0 <= j <= k ==> #[trigger] crate_at(c, j) != a;
        if i <= k {
            assert(crate_at(c, i) != a);
        } else {
            assert(crate_at(c, k) != b);
        }
    }
}

/// Two lists that hold the same artifacts, each in the order in which the
/// candidates first name the crates, are the same list.
proof fn lemma_same_order(c: Seq<CandidateView>, a: Seq<ObjectArtifactView>, b: Seq<ObjectArtifactView>)
    requires
        forall|k: int, l: int|
            0 <= k < l < a.len() ==> artifact_before(c, #[trigger] a[k], #[trigger] a[l]),
        forall|k: int, l: int|
            0 <= k < l < b.len() ==> artifact_before(c, #[trigger] b[k], #[trigger] b[l]),
        forall|k: int| 0 <= k < a.len() ==> b.contains(#[trigger] a[k]),
        forall|k: int| 0 <= k < b.len() ==> a.contains(#[trigger] b[k]),
    ensures
        a == b,
    decreases a.len(),
{
    if a.len() == 0 {
        if b.len() > 0 {
            assert(a.contains(b[0]));
        }
        assert(a =~= b);
    } else {
        assert(b.contains(a[0]));
        let m = choose|m: int| 0 <= m < b.len() && b[m] == a[0];
        if m > 0 {
            assert(artifact_before(c, b[0], b[m]));
            assert(a.contains(b[0]));
            let k = choose|k: int| 0 <= k < a.len() && a[k] == b[0];
            lemma_occurs_before_one_way(c, a[0].crate_name, b[0].crate_name);
            if k > 0 {
                assert(artifact_before(c, a[0], a[k]));
            }
        }
        assert(a[0] == b[0]);
        let ta = a.drop_first();
        let tb = b.drop_first();
        assert forall|k: int| 0 <= k < ta.len() implies tb.contains(#[trigger] ta[k]) by {
            assert(ta[k] == a[k + 1]);
            assert(b.contains(a[k + 1]));
            let j = choose|j: int| 0 <= j < b.len() && b[j] == a[k + 1];
            assert(artifact_before(c, a[0], a[k + 1]));
            lemma_occurs_before_one_way(c, a[0].crate_name, a[0].crate_name);
            assert(j > 0);
            assert(tb[j - 1] == b[j]);
        }
        assert forall|k: int| 0 <= k < tb.len() implies ta.contains(#[trigger] tb[k]) by {
            assert(tb[k] == b[k + 1]);
            assert(a.contains(b[k + 1]));
            let j = choose|j: int| 0 <= j < a.len() && a[j] == b[k + 1];
            assert(artifact_before(c, b[0], b[k + 1]));
            lemma_occurs_before_one_way(c, b[0].crate_name, b[0].crate_name);
            assert(j > 0);
            assert(ta[j - 1] == a[j]);
        }
        assert forall|k: int, l: int| 0 <= k < l < ta.len() implies artifact_before(
            c,
            #[trigger] ta[k],
            #[trigger] ta[l],
        ) by {
            assert(artifact_before(c, a[k + 1], a[l + 1]));
        }
        assert forall|k: int, l: int| 0 <= k < l < tb.len() implies artifact_before(
            c,
            #[trigger] tb[k],
            #[trigger] tb[l],
        ) by {
            assert(artifact_before(c, b[k + 1], b[l + 1]));
        }
        lemma_same_order(c, ta, tb);
        assert(a =~= seq![a[0]] + ta);
        assert(b =~= seq![b[0]] + tb);
    }
}

/// The candidates and the two sets of crates leave no choice: what is kept
/// for a class, and in which order, is one list and no other.
pub proof fn lemma_selection_is_unique(
    c: Seq<CandidateView>,
    apps: Set<Seq<char>>,
    kernel: Set<Seq<char>>,
    class: CrateClass,
    a: Seq<ObjectArtifactView>,
    b: Seq<ObjectArtifactView>,
)
    requires
        is_selection_of(c, apps, kernel, class, a),
        is_selection_of(c, apps, kernel, class, b),
    ensures
        a == b,
{
    assert forall|k: int| 0 <= k < a.len() implies b.contains(#[trigger] a[k]) by {
        assert(is_kept_artifact(c, apps, kernel, class, a[k]));
        let i = choose|i: int|
            #[trigger] survives(c, i) && class_of(crate_at(c, i), apps, kernel) == class && a[k]
                == artifact_of(c[i]);
        assert(b.contains(artifact_of(c[i])));
    }
    assert forall|k: int| 0 <= k < b.len() implies a.contains(#[trigger] b[k]) by {
        assert(is_kept_artifact(c, apps, kernel, class, b[k]));
        let i = choose|i: int|
            #[trigger] survives(c, i) && class_of(crate_at(c, i), apps, kernel) == class && b[k]
                == artifact_of(c[i]);
        assert(a.contains(artifact_of(c[i])));
    }
    lemma_same_order(c, a, b);
}

/// `second` holds the candidates of `first` in another order: `to` tells for
/// each candidate of `first` where it stands in `second`, and `back` the
/// other way round.
pub open spec fn reordered(
    first: Seq<CandidateView>,
    second: Seq<CandidateView>,
    to: Seq<int>,
    back: Seq<int>,
) -> bool {
    &&& first.len() == second.len()
    &&& to.len() == first.len()
    &&& back.len() == second.len()
    &&& forall|i: int|
        0 <= i < first.len() ==> 0 <= #[trigger] to[i] < second.len() && second[to[i]] == first[i]
            && back[to[i]] == i
    &&& forall|j: int|
        0 <= j < second.len() ==> 0 <= #[trigger] back[j] < first.len() && to[back[j]] == j
}

/// No two candidates of one crate are equally fresh.
pub open spec fn no_ties(c: Seq<CandidateView>) -> bool {
    forall|i: int, j: int|
        0 <= i < c.len() && 0 <= j < c.len() && i != j && #[trigger] crate_at(c, i)
            == #[trigger] crate_at(c, j) ==> c[i].modified != c[j].modified
}

/// The order in which the candidates are met does not decide which of them is
/// kept for a crate, as long as no two candidates of a crate are equally
/// fresh: the candidate kept in one order is the candidate kept in any other.
pub proof fn lemma_scan_order_does_not_matter(
    first: Seq<CandidateView>,
    second: Seq<CandidateView>,
    to: Seq<int>,
    back: Seq<int>,
    kept: int,
)
    requires
        reordered(first, second, to, back),
        no_ties(first),
        survives(first, kept),
    ensures
        survives(second, to[kept]),
        artifact_of(second[to[kept]]) == artifact_of(first[kept]),
{
    let there = to[kept];
    assert forall|j: int|
        0 <= j < second.len() && #[trigger] crate_at(second, j) == crate_at(
            second,
            there,
        ) implies beats(second, there, j) by {
        let i = back[j];
        assert(to[i] == j);
        assert(second[j] == first[i]);
        assert(crate_at(first, i) == crate_at(first, kept));
        assert(beats(first, kept, i));
        if i != kept {
            assert(first[i].modified != first[kept].modified);
        }
    }
}

} // verus!
