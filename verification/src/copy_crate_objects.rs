//! Plans the copies of the object files kept for the crates into the module
//! directory, and of their companions into the dependency directories.

use crate::artifact::{
    CandidateDir, CandidateDirView, FileInfo, FilePath, FilePathView, ObjectArtifact,
    ObjectArtifactView, ObjectWithDeps, ObjectWithDepsView,
};
use crate::crate_set::{
    is_failure_of, resolve, source_crates, source_ok, CrateKind, CrateSource, CrateSourceView,
};
use crate::error::{BuildError, BuildErrorView};
use crate::fs_model::{carry_out, same_at, Files, Tools};
use crate::options::{flag_in, list_in, text_in, Config, ConfigView};
use crate::plan::{Step, StepView};
use crate::scan::{
    candidates, deps_follow, is_selection_of, objects_of, parse_input_dir, CrateClass, Selection,
};
use crate::text::{append_text, has_prefix, join, path_join};
use vstd::prelude::*;

verus! {

/// What the stage is configured with.
#[derive(Debug, Clone, PartialEq, Eq)]
pub struct CopyCrateObjectsConfig {
    /// The root of the source tree.
    pub theseus_root: String,
    /// The root of the build outputs.
    pub build_dir: String,
    /// What is put before the file name of a kernel crate's module.
    pub kernel_prefix: String,
    /// What is put before the file name of an application's module.
    pub apps_prefix: String,
    /// The name of the build target.
    pub target: String,
    /// The build mode: `debug` or `release`.
    pub build_mode: String,
    /// Further target directories whose outputs are scanned as well.
    pub extra_target_dirs: Vec<String>,
    /// Crates that count as applications though no source names them.
    pub extra_apps: Vec<String>,
    /// Whether the crates found are to be listed for whoever started the run.
    pub debug_crate_objects: bool,
}

pub struct CopyCrateObjectsConfigView {
    pub theseus_root: Seq<char>,
    pub build_dir: Seq<char>,
    pub kernel_prefix: Seq<char>,
    pub apps_prefix: Seq<char>,
    pub target: Seq<char>,
    pub build_mode: Seq<char>,
    pub extra_target_dirs: Seq<Seq<char>>,
    pub extra_apps: Seq<Seq<char>>,
    pub debug_crate_objects: bool,
}

impl DeepView for CopyCrateObjectsConfig {
    type V = CopyCrateObjectsConfigView;

    open spec fn deep_view(&self) -> CopyCrateObjectsConfigView {
        CopyCrateObjectsConfigView {
            theseus_root: self.theseus_root@,
            build_dir: self.build_dir@,
            kernel_prefix: self.kernel_prefix@,
            apps_prefix: self.apps_prefix@,
            target: self.target@,
            build_mode: self.build_mode@,
            extra_target_dirs: self.extra_target_dirs.deep_view(),
            extra_apps: self.extra_apps.deep_view(),
            debug_crate_objects: self.debug_crate_objects,
        }
    }
}

/// The directory that receives the modules.
pub open spec fn objects_dir(cfg: CopyCrateObjectsConfigView) -> Seq<char> {
    cfg.build_dir + "/isofiles/modules"@
}

/// The directory that receives the companion files.
pub open spec fn deps_dir(cfg: CopyCrateObjectsConfigView) -> Seq<char> {
    cfg.build_dir + "/deps"@
}

/// The directory that receives the companions of the foundational crates.
pub open spec fn sysroot_dir(cfg: CopyCrateObjectsConfigView) -> Seq<char> {
    deps_dir(cfg) + "/sysroot/lib/rustlib/"@ + cfg.target + "/lib"@
}

/// Where the outputs of a target directory lie.
pub open spec fn outputs_of(cfg: CopyCrateObjectsConfigView, target_dir: Seq<char>) -> Seq<char> {
    target_dir + "/"@ + cfg.target + "/"@ + cfg.build_mode + "/deps"@
}

/// The directories to scan: the outputs of the extra target directories in
/// the order given, then those of the build's own.
pub open spec fn scanned_dirs(cfg: CopyCrateObjectsConfigView) -> Seq<Seq<char>> {
    Seq::new(
        cfg.extra_target_dirs.len() + 1,
        |i: int|
            if i < cfg.extra_target_dirs.len() {
                outputs_of(cfg, cfg.extra_target_dirs[i])
            } else {
                outputs_of(cfg, cfg.build_dir + "/target"@)
            },
    )
}

/// The copy of one file into `output_dir`, under its own name behind
/// `prefix`. A file that is not there is passed over.
pub open spec fn copy_of(output_dir: Seq<char>, file: FilePathView, prefix: Seq<char>) -> StepView {
    StepView::CopyIfPresent { from: file.full(), to: path_join(output_dir, prefix + file.name) }
}

/// The copies of `files` into `output_dir`, in order.
pub open spec fn copies(output_dir: Seq<char>, files: Seq<FilePathView>, prefix: Seq<char>) -> Seq<StepView> {
    Seq::new(files.len(), |i: int| copy_of(output_dir, files[i], prefix))
}

/// The files of a list of objects.
pub open spec fn files_of(list: Seq<ObjectArtifactView>) -> Seq<FilePathView> {
    Seq::new(list.len(), |i: int| list[i].file)
}

/// The companions of a list of objects: of each first the metadata file, then
/// the archive.
pub open spec fn deps_files(list: Seq<ObjectWithDepsView>) -> Seq<FilePathView>
    decreases list.len(),
{
    if list.len() == 0 {
        Seq::empty()
    } else {
        deps_files(list.drop_last()).push(list.last().deps.rmeta).push(list.last().deps.rlib)
    }
}

/// Whether an object is of one of the foundational crates, by its stem.
pub open spec fn is_sysroot_stem(stem: Seq<char>) -> bool {
    ||| "core-"@.is_prefix_of(stem)
    ||| "compiler_builtins-"@.is_prefix_of(stem)
    ||| "rustc_std_workspace_core-"@.is_prefix_of(stem)
    ||| "alloc-"@.is_prefix_of(stem)
}

/// The objects of the foundational crates among `list`, in order.
pub open spec fn sysroot_objects(list: Seq<ObjectWithDepsView>) -> Seq<ObjectWithDepsView>
    decreases list.len(),
{
    if list.len() == 0 {
        Seq::empty()
    } else if is_sysroot_stem(list.last().object.file_stem) {
        sysroot_objects(list.drop_last()).push(list.last())
    } else {
        sysroot_objects(list.drop_last())
    }
}

/// The steps that copy a selection: the modules of the applications, of the
/// kernel crates and of the rest into the module directory, each class behind
/// its prefix; the companions of the kernel crates and of the rest into the
/// dependency directory; and the companions of the foundational crates into
/// the sysroot directory, which is made first.
pub open spec fn copy_steps(
    cfg: CopyCrateObjectsConfigView,
    apps: Seq<ObjectArtifactView>,
    kernel: Seq<ObjectWithDepsView>,
    other: Seq<ObjectWithDepsView>,
) -> Seq<StepView> {
    copies(objects_dir(cfg), files_of(apps), cfg.apps_prefix) + copies(
        objects_dir(cfg),
        files_of(objects_of(kernel)),
        cfg.kernel_prefix,
    ) + copies(objects_dir(cfg), files_of(objects_of(other)), cfg.kernel_prefix) + copies(
        deps_dir(cfg),
        deps_files(kernel),
        Seq::empty(),
    ) + copies(deps_dir(cfg), deps_files(other), Seq::empty()) + seq![
        StepView::CreateDir { path: sysroot_dir(cfg), all: true },
    ] + copies(sysroot_dir(cfg), deps_files(sysroot_objects(other)), Seq::empty())
}

/// Plans the copy of each file into `output_dir`, under its own name behind
/// `prefix`. A source that turns out not to be there is passed over when the
/// plan is carried out.
pub fn copy_files(output_dir: &str, files: &Vec<FilePath>, prefix: &str) -> (steps: Vec<Step>)
    ensures
        steps.deep_view() == copies(output_dir@, files.deep_view(), prefix@),
{
    let mut steps: Vec<Step> = Vec::new();
    let n = files.len();
    let mut i: usize = 0;
    while i < n
        invariant
            n == files.len(),
            i <= n,
            steps.deep_view() == copies(output_dir@, files.deep_view().take(i as int), prefix@),
        decreases n - i,
    {
        let ghost before = steps.deep_view();
        let file = &files[i];
        assert(file.deep_view() == files.deep_view()[i as int]);
        let from = file.full();
        let to = join(output_dir, append_text(prefix, file.name.as_str()).as_str());
        steps.push(Step::CopyIfPresent { from, to });
        assert(steps.deep_view() =~= before.push(
            copy_of(output_dir@, files.deep_view()[i as int], prefix@),
        ));
        assert(steps.deep_view() =~= copies(
            output_dir@,
            files.deep_view().take(i + 1),
            prefix@,
        ));
        i += 1;
    }
    assert(files.deep_view().take(n as int) =~= files.deep_view());
    steps
}

/// A copy of a file's path.
fn same_file(f: &FilePath) -> (r: FilePath)
    ensures
        r.deep_view() == f.deep_view(),
{
    FilePath { dir: f.dir.clone(), name: f.name.clone() }
}

/// The files of a list of objects.
fn apps_files(list: &Vec<ObjectArtifact>) -> (files: Vec<FilePath>)
    ensures
        files.deep_view() == files_of(list.deep_view()),
{
    let mut files: Vec<FilePath> = Vec::new();
    let n = list.len();
    let mut i: usize = 0;
    while i < n
        invariant
            n == list.len(),
            i <= n,
            files.deep_view() == files_of(list.deep_view()).take(i as int),
        decreases n - i,
    {
        let ghost before = files.deep_view();
        assert(list[i as int].deep_view() == list.deep_view()[i as int]);
        files.push(same_file(&list[i].file));
        assert(files.deep_view() =~= before.push(list.deep_view()[i as int].file));
        assert(files_of(list.deep_view()).take(i + 1) =~= before.push(
            list.deep_view()[i as int].file,
        ));
        i += 1;
    }
    assert(files_of(list.deep_view()).take(n as int) =~= files_of(list.deep_view()));
    files
}

/// The object files, the companions, and the companions of the foundational
/// crates of a list of objects with companions.
fn split_files(list: &Vec<ObjectWithDeps>) -> (r: (Vec<FilePath>, Vec<FilePath>, Vec<FilePath>))
    ensures
        r.0.deep_view() == files_of(objects_of(list.deep_view())),
        r.1.deep_view() == deps_files(list.deep_view()),
        r.2.deep_view() == deps_files(sysroot_objects(list.deep_view())),
{
    let ghost lv = list.deep_view();
    let mut objects: Vec<FilePath> = Vec::new();
    let mut deps: Vec<FilePath> = Vec::new();
    let mut sysroot: Vec<FilePath> = Vec::new();
    let n = list.len();
    let mut i: usize = 0;
    assert(lv.take(0) =~= Seq::empty());
    while i < n
        invariant
            n == list.len(),
            i <= n,
            lv == list.deep_view(),
            objects.deep_view() == files_of(objects_of(lv)).take(i as int),
            deps.deep_view() == deps_files(lv.take(i as int)),
            sysroot.deep_view() == deps_files(sysroot_objects(lv.take(i as int))),
        decreases n - i,
    {
        let ghost o0 = objects.deep_view();
        let ghost d0 = deps.deep_view();
        let ghost s0 = sysroot.deep_view();
        let item = &list[i];
        assert(item.deep_view() == lv[i as int]);
        proof {
            assert(lv.take(i + 1).drop_last() =~= lv.take(i as int));
            assert(lv.take(i + 1).last() == lv[i as int]);
        }
        objects.push(same_file(&item.object.file));
        assert(objects.deep_view() =~= o0.push(lv[i as int].object.file));
        assert(files_of(objects_of(lv)).take(i + 1) =~= o0.push(lv[i as int].object.file));
        deps.push(same_file(&item.deps.rmeta));
        deps.push(same_file(&item.deps.rlib));
        assert(deps.deep_view() =~= d0.push(lv[i as int].deps.rmeta).push(lv[i as int].deps.rlib));
        let stem = item.object.file_stem.as_str();
        if has_prefix(stem, "core-") || has_prefix(stem, "compiler_builtins-") || has_prefix(
            stem,
            "rustc_std_workspace_core-",
        ) || has_prefix(stem, "alloc-") {
            sysroot.push(same_file(&item.deps.rmeta));
            sysroot.push(same_file(&item.deps.rlib));
            proof {
                let so = sysroot_objects(lv.take(i as int));
                assert(sysroot_objects(lv.take(i + 1)) == so.push(lv[i as int]));
                assert(so.push(lv[i as int]).drop_last() =~= so);
                assert(sysroot.deep_view() =~= s0.push(lv[i as int].deps.rmeta).push(
                    lv[i as int].deps.rlib,
                ));
            }
        }
        i += 1;
    }
    assert(files_of(objects_of(lv)).take(n as int) =~= files_of(objects_of(lv)));
    assert(lv.take(n as int) =~= lv);
    (objects, deps, sysroot)
}

/// Plans the copies of a selection: see `copy_steps`.
pub fn plan_copies(config: &CopyCrateObjectsConfig, selection: &Selection) -> (steps: Vec<Step>)
    ensures
        steps.deep_view() == copy_steps(
            config.deep_view(),
            selection.apps.deep_view(),
            selection.kernel.deep_view(),
            selection.other.deep_view(),
        ),
{
    let ghost cfg = config.deep_view();
    let objects_dir_path = append_text(config.build_dir.as_str(), "/isofiles/modules");
    let deps_dir_path = append_text(config.build_dir.as_str(), "/deps");
    let mut sysroot_dir_path = append_text(deps_dir_path.as_str(), "/sysroot/lib/rustlib/");
    sysroot_dir_path.append(config.target.as_str());
    sysroot_dir_path.append("/lib");
    assert(sysroot_dir_path@ =~= sysroot_dir(cfg));
    let apps = apps_files(&selection.apps);
    let (kernel_objects, kernel_deps, _) = split_files(&selection.kernel);
    let (other_objects, other_deps, sysroot_deps) = split_files(&selection.other);
    let mut steps = copy_files(objects_dir_path.as_str(), &apps, config.apps_prefix.as_str());
    let ghost s1 = steps.deep_view();
    let mut more = copy_files(
        objects_dir_path.as_str(),
        &kernel_objects,
        config.kernel_prefix.as_str(),
    );
    let ghost m1 = more.deep_view();
    steps.append(&mut more);
    assert(steps.deep_view() =~= s1 + m1);
    let ghost s2 = steps.deep_view();
    let mut more = copy_files(
        objects_dir_path.as_str(),
        &other_objects,
        config.kernel_prefix.as_str(),
    );
    let ghost m2 = more.deep_view();
    steps.append(&mut more);
    assert(steps.deep_view() =~= s2 + m2);
    let ghost s3 = steps.deep_view();
    let mut more = copy_files(deps_dir_path.as_str(), &kernel_deps, "");
    let ghost m3 = more.deep_view();
    steps.append(&mut more);
    assert(steps.deep_view() =~= s3 + m3);
    let ghost s4 = steps.deep_view();
    let mut more = copy_files(deps_dir_path.as_str(), &other_deps, "");
    let ghost m4 = more.deep_view();
    steps.append(&mut more);
    assert(steps.deep_view() =~= s4 + m4);
    let ghost s5 = steps.deep_view();
    steps.push(Step::CreateDir { path: sysroot_dir_path.clone(), all: true });
    assert(steps.deep_view() =~= s5 + seq![StepView::CreateDir { path: sysroot_dir(cfg), all: true }]);
    let ghost s6 = steps.deep_view();
    let mut more = copy_files(sysroot_dir_path.as_str(), &sysroot_deps, "");
    let ghost m6 = more.deep_view();
    steps.append(&mut more);
    assert(steps.deep_view() =~= s6 + m6);
    proof {
        reveal_strlit("");
        assert(""@ =~= Seq::<char>::empty());
    }
    steps
}

/// Where the outputs of the target directory `target_dir` lie.
fn outputs_dir(config: &CopyCrateObjectsConfig, target_dir: &str) -> (r: String)
    ensures
        r@ == outputs_of(config.deep_view(), target_dir@),
{
    let mut r = target_dir.to_owned();
    r.append("/");
    r.append(config.target.as_str());
    r.append("/");
    r.append(config.build_mode.as_str());
    r.append("/deps");
    r
}

/// The directories to scan for object files, in scanning order.
pub fn input_dirs(config: &CopyCrateObjectsConfig) -> (dirs: Vec<String>)
    ensures
        dirs.deep_view() == scanned_dirs(config.deep_view()),
{
    let ghost cfg = config.deep_view();
    let mut dirs: Vec<String> = Vec::new();
    let n = config.extra_target_dirs.len();
    let mut i: usize = 0;
    while i < n
        invariant
            n == config.extra_target_dirs.len(),
            i <= n,
            cfg == config.deep_view(),
            dirs.deep_view().len() == i,
            forall|k: int|
                0 <= k < i ==> #[trigger] dirs.deep_view()[k] == outputs_of(
                    cfg,
                    cfg.extra_target_dirs[k],
                ),
        decreases n - i,
    {
        let ghost before = dirs.deep_view();
        dirs.push(outputs_dir(config, config.extra_target_dirs[i].as_str()));
        assert(dirs.deep_view() =~= before.push(outputs_of(cfg, cfg.extra_target_dirs[i as int])));
        i += 1;
    }
    let ghost before = dirs.deep_view();
    let own = append_text(config.build_dir.as_str(), "/target");
    dirs.push(outputs_dir(config, own.as_str()));
    assert(dirs.deep_view() =~= before.push(outputs_of(cfg, cfg.build_dir + "/target"@)));
    assert(dirs.deep_view() =~= scanned_dirs(cfg));
    dirs
}

/// Where the kernel's crates are named: a list file or a source tree.
pub fn kernel_source_path(config: &CopyCrateObjectsConfig) -> (r: String)
    ensures
        r@ == config.deep_view().theseus_root + "/kernel"@,
{
    append_text(config.theseus_root.as_str(), "/kernel")
}

/// Where the applications are named: a list file or a source tree.
pub fn apps_source_path(config: &CopyCrateObjectsConfig) -> (r: String)
    ensures
        r@ == config.deep_view().theseus_root + "/applications"@,
{
    append_text(config.theseus_root.as_str(), "/applications")
}

/// What the stage hands back: the object kept for each crate, and the copies
/// to make.
#[derive(Debug, Clone, PartialEq, Eq)]
pub struct CopyPlan {
    pub selection: Selection,
    pub steps: Vec<Step>,
}

/// The crates that count as applications: those that the source names, and
/// the extra ones of the configuration.
pub open spec fn app_crates(cfg: CopyCrateObjectsConfigView, apps: CrateSourceView) -> Set<Seq<char>> {
    source_crates(apps).union(cfg.extra_apps.to_set())
}

/// What was found where a directory to scan should be.
#[derive(Debug, Clone, PartialEq, Eq)]
pub enum ScannedDir {
    /// The directory could not be listed.
    Unreadable { path: String },
    /// The directory and its entries.
    Listed(CandidateDir),
}

pub enum ScannedDirView {
    Unreadable { path: Seq<char> },
    Listed(CandidateDirView),
}

impl DeepView for ScannedDir {
    type V = ScannedDirView;

    open spec fn deep_view(&self) -> ScannedDirView {
        match self {
            ScannedDir::Unreadable { path } => ScannedDirView::Unreadable { path: path@ },
            ScannedDir::Listed(dir) => ScannedDirView::Listed(dir.deep_view()),
        }
    }
}

/// The directories that could be listed, in order.
pub open spec fn listed(dirs: Seq<ScannedDirView>) -> Seq<CandidateDirView>
    decreases dirs.len(),
{
    if dirs.len() == 0 {
        Seq::empty()
    } else {
        match dirs.last() {
            ScannedDirView::Listed(dir) => listed(dirs.drop_last()).push(dir),
            ScannedDirView::Unreadable { path } => listed(dirs.drop_last()),
        }
    }
}

/// Every directory could be listed.
pub open spec fn all_listed(dirs: Seq<ScannedDirView>) -> bool {
    forall|i: int| 0 <= i < dirs.len() ==> (#[trigger] dirs[i]) is Listed
}

/// The directory at `i` is the first that could not be listed.
pub open spec fn first_unreadable(dirs: Seq<ScannedDirView>, i: int) -> bool {
    &&& 0 <= i < dirs.len()
    &&& dirs[i] is Unreadable
    &&& forall|j: int| 0 <= j < i ==> (#[trigger] dirs[j]) is Listed
}

/// Whether `e` says that the first directory that could not be listed could
/// not be listed.
pub open spec fn is_scan_failure(dirs: Seq<ScannedDirView>, e: BuildErrorView) -> bool {
    exists|i: int|
        #[trigger] first_unreadable(dirs, i) && e == (BuildErrorView::UnreadableDirectory {
            path: dirs[i]->path,
        })
}

/// What the stage gives. Where the kernel's source cannot be resolved, its
/// failure; else where the applications' cannot, theirs; else where a
/// directory cannot be listed, `UnreadableDirectory` with the path of the
/// first such; else the selection among the object files of `dirs` and its
/// copies.
pub open spec fn process_outcome(
    cfg: CopyCrateObjectsConfigView,
    kernel: CrateSourceView,
    apps: CrateSourceView,
    dirs: Seq<ScannedDirView>,
    r: Result<CopyPlan, BuildError>,
) -> bool {
    match r {
        Ok(plan) => {
            &&& source_ok(kernel)
            &&& source_ok(apps)
            &&& all_listed(dirs)
            &&& is_selection_of(
                candidates(listed(dirs)),
                app_crates(cfg, apps),
                source_crates(kernel),
                CrateClass::Application,
                plan.selection.apps.deep_view(),
            )
            &&& is_selection_of(
                candidates(listed(dirs)),
                app_crates(cfg, apps),
                source_crates(kernel),
                CrateClass::Kernel,
                objects_of(plan.selection.kernel.deep_view()),
            )
            &&& is_selection_of(
                candidates(listed(dirs)),
                app_crates(cfg, apps),
                source_crates(kernel),
                CrateClass::Other,
                objects_of(plan.selection.other.deep_view()),
            )
            &&& deps_follow(plan.selection.kernel.deep_view())
            &&& deps_follow(plan.selection.other.deep_view())
            &&& plan.steps.deep_view() == copy_steps(
                cfg,
                plan.selection.apps.deep_view(),
                plan.selection.kernel.deep_view(),
                plan.selection.other.deep_view(),
            )
        },
        Err(e) => {
            ||| !source_ok(kernel) && is_failure_of(kernel, e.deep_view())
            ||| source_ok(kernel) && !source_ok(apps) && is_failure_of(apps, e.deep_view())
            ||| source_ok(kernel) && source_ok(apps) && is_scan_failure(dirs, e.deep_view())
        },
    }
}

/// A copy of a directory's listing.
fn same_dir(dir: &CandidateDir) -> (r: CandidateDir)
    ensures
        r.deep_view() == dir.deep_view(),
{
    let mut files: Vec<FileInfo> = Vec::new();
    let n = dir.files.len();
    let mut i: usize = 0;
    while i < n
        invariant
            n == dir.files.len(),
            i <= n,
            files.deep_view() == dir.files.deep_view().take(i as int),
        decreases n - i,
    {
        let ghost before = files.deep_view();
        let file = &dir.files[i];
        assert(file.deep_view() == dir.files.deep_view()[i as int]);
        files.push(
            FileInfo { name: file.name.clone(), is_file: file.is_file, modified: file.modified },
        );
        assert(files.deep_view() =~= before.push(dir.files.deep_view()[i as int]));
        assert(dir.files.deep_view().take(i + 1) =~= before.push(dir.files.deep_view()[i as int]));
        i += 1;
    }
    assert(dir.files.deep_view().take(n as int) =~= dir.files.deep_view());
    CandidateDir { path: dir.path.clone(), files }
}

/// The listings of the directories, where every one could be listed; else the
/// failure of the first that could not.
fn listings(dirs: &Vec<ScannedDir>) -> (r: Result<Vec<CandidateDir>, BuildError>)
    ensures
        match r {
            Ok(found) => all_listed(dirs.deep_view()) && found.deep_view() == listed(
                dirs.deep_view(),
            ),
            Err(e) => is_scan_failure(dirs.deep_view(), e.deep_view()),
        },
{
    let ghost dv = dirs.deep_view();
    let mut found: Vec<CandidateDir> = Vec::new();
    let n = dirs.len();
    let mut i: usize = 0;
    assert(dv.take(0) =~= Seq::empty());
    while i < n
        invariant
            n == dirs.len(),
            i <= n,
            dv == dirs.deep_view(),
            forall|j: int| 0 <= j < i ==> (#[trigger] dv[j]) is Listed,
            found.deep_view() == listed(dv.take(i as int)),
        decreases n - i,
    {
        let ghost before = found.deep_view();
        assert(dirs[i as int].deep_view() == dv[i as int]);
        proof {
            assert(dv.take(i + 1).drop_last() =~= dv.take(i as int));
            assert(dv.take(i + 1).last() == dv[i as int]);
        }
        match &dirs[i] {
            ScannedDir::Unreadable { path } => {
                assert(first_unreadable(dv, i as int));
                return Err(BuildError::UnreadableDirectory { path: path.clone() });
            },
            ScannedDir::Listed(dir) => {
                found.push(same_dir(dir));
                assert(found.deep_view() =~= before.push(dir.deep_view()));
            },
        }
        i += 1;
    }
    assert(dv.take(n as int) =~= dv);
    Ok(found)
}

/// Plans the stage: resolves the kernel's and the applications' crates from
/// their sources, scans `dirs` (the directories of `input_dirs`, as found)
/// for the freshest object of each crate, and plans the copies.
pub fn process(
    config: &CopyCrateObjectsConfig,
    kernel_source: &CrateSource,
    apps_source: &CrateSource,
    dirs: &Vec<ScannedDir>,
) -> (r: Result<CopyPlan, BuildError>)
    ensures
        process_outcome(
            config.deep_view(),
            kernel_source.deep_view(),
            apps_source.deep_view(),
            dirs.deep_view(),
            r,
        ),
{
    let kernel_crates = match resolve(CrateKind::Kernel, kernel_source) {
        Ok(set) => set,
        Err(e) => {
            return Err(e);
        },
    };
    let mut apps_crates = match resolve(CrateKind::Application, apps_source) {
        Ok(set) => set,
        Err(e) => {
            return Err(e);
        },
    };
    apps_crates.extend(&config.extra_apps);
    let found = match listings(dirs) {
        Ok(found) => found,
        Err(e) => {
            return Err(e);
        },
    };
    let selection = parse_input_dir(&apps_crates, &kernel_crates, &found);
    let steps = plan_copies(config, &selection);
    Ok(CopyPlan { selection, steps })
}

/// A file that is copied lies in the output directory under its own name
/// behind the prefix, with the very bytes of its source, and no other file is
/// touched.
pub proof fn lemma_copy_keeps_bytes(
    tools: Tools,
    output_dir: Seq<char>,
    file: FilePathView,
    prefix: Seq<char>,
    fs: Files,
)
    requires
        fs.dom().contains(file.full()),
    ensures
        carry_out(tools, copy_of(output_dir, file, prefix), fs).dom().contains(
            path_join(output_dir, prefix + file.name),
        ),
        carry_out(tools, copy_of(output_dir, file, prefix), fs)[path_join(
            output_dir,
            prefix + file.name,
        )] == fs[file.full()],
        forall|p: Seq<char>|
            p != path_join(output_dir, prefix + file.name) ==> #[trigger] same_at(
                carry_out(tools, copy_of(output_dir, file, prefix), fs),
                fs,
                p,
            ),
{
}

/// The stage's options as the configuration gives them: each from its key.
/// Of the options that cannot be read, the first in this order fails them
/// all.
pub open spec fn configured(c: ConfigView) -> Result<CopyCrateObjectsConfigView, BuildErrorView> {
    let theseus_root = text_in(c, "theseus-root"@);
    let build_dir = text_in(c, "build-dir"@);
    let kernel_prefix = text_in(c, "prefixes.kernel"@);
    let apps_prefix = text_in(c, "prefixes.applications"@);
    let target = text_in(c, "build-cells.cargo-target-name"@);
    let build_mode = text_in(c, "build-cells.build-mode"@);
    let extra_target_dirs = list_in(c, "copy-crate-objects.extra-target-dirs"@);
    let extra_apps = list_in(c, "copy-crate-objects.extra-apps"@);
    let debug_crate_objects = flag_in(c, "copy-crate-objects.debug-crate-objects"@);
    if theseus_root is Err {
        Err(theseus_root->Err_0)
    } else if build_dir is Err {
        Err(build_dir->Err_0)
    } else if kernel_prefix is Err {
        Err(kernel_prefix->Err_0)
    } else if apps_prefix is Err {
        Err(apps_prefix->Err_0)
    } else if target is Err {
        Err(target->Err_0)
    } else if build_mode is Err {
        Err(build_mode->Err_0)
    } else if extra_target_dirs is Err {
        Err(extra_target_dirs->Err_0)
    } else if extra_apps is Err {
        Err(extra_apps->Err_0)
    } else if debug_crate_objects is Err {
        Err(debug_crate_objects->Err_0)
    } else {
        Ok(
            CopyCrateObjectsConfigView {
                theseus_root: theseus_root->Ok_0,
                build_dir: build_dir->Ok_0,
                kernel_prefix: kernel_prefix->Ok_0,
                apps_prefix: apps_prefix->Ok_0,
                target: target->Ok_0,
                build_mode: build_mode->Ok_0,
                extra_target_dirs: extra_target_dirs->Ok_0,
                extra_apps: extra_apps->Ok_0,
                debug_crate_objects: debug_crate_objects->Ok_0,
            },
        )
    }
}

/// Reads the stage's options from the configuration.
pub fn from_config(config: &Config) -> (r: Result<CopyCrateObjectsConfig, BuildError>)
    ensures
        match r {
            Ok(read) => configured(config.deep_view()) == Ok::<CopyCrateObjectsConfigView, BuildErrorView>(
                read.deep_view(),
            ),
            Err(e) => configured(config.deep_view()) == Err::<CopyCrateObjectsConfigView, BuildErrorView>(
                e.deep_view(),
            ),
        },
{
    let theseus_root = match config.str("theseus-root") {
        Ok(value) => value,
        Err(e) => {
            return Err(e);
        },
    };
    let build_dir = match config.str("build-dir") {
        Ok(value) => value,
        Err(e) => {
            return Err(e);
        },
    };
    let kernel_prefix = match config.str("prefixes.kernel") {
        Ok(value) => value,
        Err(e) => {
            return Err(e);
        },
    };
    let apps_prefix = match config.str("prefixes.applications") {
        Ok(value) => value,
        Err(e) => {
            return Err(e);
        },
    };
    let target = match config.str("build-cells.cargo-target-name") {
        Ok(value) => value,
        Err(e) => {
            return Err(e);
        },
    };
    let build_mode = match config.str("build-cells.build-mode") {
        Ok(value) => value,
        Err(e) => {
            return Err(e);
        },
    };
    let extra_target_dirs = match config.vec("copy-crate-objects.extra-target-dirs") {
        Ok(value) => value,
        Err(e) => {
            return Err(e);
        },
    };
    let extra_apps = match config.vec("copy-crate-objects.extra-apps") {
        Ok(value) => value,
        Err(e) => {
            return Err(e);
        },
    };
    let debug_crate_objects = match config.bool("copy-crate-objects.debug-crate-objects") {
        Ok(value) => value,
        Err(e) => {
            return Err(e);
        },
    };
    Ok(
        CopyCrateObjectsConfig {
            theseus_root,
            build_dir,
            kernel_prefix,
            apps_prefix,
            target,
            build_mode,
            extra_target_dirs,
            extra_apps,
            debug_crate_objects,
        },
    )
}

} // verus!
