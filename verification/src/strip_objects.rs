//! Splits the debug information off every module object: a copy in the
//! debug-symbols directory keeps only the debug information, the module itself
//! loses it. File by file and in any order.

use crate::error::{BuildError, BuildErrorView};
use crate::fs_model::{
    complete_schedule, confined, effect_of, independent, keeps_to_itself, lemma_copy_confined,
    lemma_order_does_not_matter, lemma_side_by_side_is_one_by_one, one_by_one, run_schedule,
    Files, Tools, Worker,
};
use crate::options::{flag_in, text_in, Config, ConfigView};
use crate::plan::{run_step, tool, Step, StepView};
use crate::text::{
    is_plain_name, join, lemma_join_same_dir, lemma_join_same_path, lemma_object_names,
    object_files, object_names, path_join,
};
use vstd::prelude::*;

verus! {

/// What the stage is configured with.
#[derive(Debug, Clone, PartialEq, Eq)]
pub struct StripObjectsConfig {
    /// The file name of the kernel binary.
    pub nanocore_bin: String,
    /// The path of the kernel binary.
    pub nanocore_path: String,
    pub modules_dir: String,
    pub debug_symbols_dir: String,
    /// Whether the kernel binary is split as well.
    pub strip_nanocore: bool,
    pub stripper: String,
}

pub struct StripObjectsConfigView {
    pub nanocore_bin: Seq<char>,
    pub nanocore_path: Seq<char>,
    pub modules_dir: Seq<char>,
    pub debug_symbols_dir: Seq<char>,
    pub strip_nanocore: bool,
    pub stripper: Seq<char>,
}

impl DeepView for StripObjectsConfig {
    type V = StripObjectsConfigView;

    open spec fn deep_view(&self) -> StripObjectsConfigView {
        StripObjectsConfigView {
            nanocore_bin: self.nanocore_bin@,
            nanocore_path: self.nanocore_path@,
            modules_dir: self.modules_dir@,
            debug_symbols_dir: self.debug_symbols_dir@,
            strip_nanocore: self.strip_nanocore,
            stripper: self.stripper@,
        }
    }
}

/// The stage's name.
pub open spec fn stage_name() -> Seq<char> {
    "strip-objects"@
}

/// The work on the binary at `path` whose file name is `name`. The copy comes
/// first: what the two strip passes remove cannot be brought back.
pub open spec fn split_job(cfg: StripObjectsConfigView, path: Seq<char>, name: Seq<char>) -> Seq<StepView> {
    seq![
        StepView::Copy { from: path, to: path_join(cfg.debug_symbols_dir, name) },
        run_step(
            stage_name(),
            cfg.stripper,
            seq!["--only-keep-debug"@, path_join(cfg.debug_symbols_dir, name)],
        ),
        run_step(stage_name(), cfg.stripper, seq!["--strip-debug"@, path]),
    ]
}

/// The binaries to split, each by path and file name: the objects of the
/// module directory, then the kernel binary where the configuration asks for
/// it.
pub open spec fn binaries(cfg: StripObjectsConfigView, names: Seq<Seq<char>>) -> Seq<(Seq<char>, Seq<char>)> {
    let modules = Seq::new(names.len(), |k: int| (path_join(cfg.modules_dir, names[k]), names[k]));
    if cfg.strip_nanocore {
        modules.push((cfg.nanocore_path, cfg.nanocore_bin))
    } else {
        modules
    }
}

/// One job per binary.
pub open spec fn split_jobs(cfg: StripObjectsConfigView, files: Seq<(Seq<char>, Seq<char>)>) -> Seq<Seq<StepView>> {
    Seq::new(files.len(), |k: int| split_job(cfg, files[k].0, files[k].1))
}

/// Plans the work on one binary.
fn plan_job(config: &StripObjectsConfig, path: &str, name: &str) -> (job: Vec<Step>)
    ensures
        job.deep_view() == split_job(config.deep_view(), path@, name@),
{
    let ghost cfg = config.deep_view();
    let stage = "strip-objects";
    let dbg_path = join(config.debug_symbols_dir.as_str(), name);
    let mut keep_args: Vec<String> = Vec::new();
    keep_args.push("--only-keep-debug".to_owned());
    keep_args.push(dbg_path.clone());
    assert(keep_args.deep_view() =~= seq![
        "--only-keep-debug"@,
        path_join(cfg.debug_symbols_dir, name@),
    ]);
    let mut strip_args: Vec<String> = Vec::new();
    strip_args.push("--strip-debug".to_owned());
    strip_args.push(path.to_owned());
    assert(strip_args.deep_view() =~= seq!["--strip-debug"@, path@]);
    let mut job: Vec<Step> = Vec::new();
    job.push(Step::Copy { from: path.to_owned(), to: dbg_path });
    job.push(Step::Run(tool(stage, config.stripper.as_str(), keep_args)));
    job.push(Step::Run(tool(stage, config.stripper.as_str(), strip_args)));
    assert(job.deep_view() =~= split_job(cfg, path@, name@));
    job
}

/// Plans the split of every object file of the module directory, and of the
/// kernel binary where the configuration asks for it: one job per binary, the
/// modules in listing order, the kernel binary last. The jobs may run side by
/// side; the steps of a job run in order.
pub fn process(config: &StripObjectsConfig, modules: &[(String, bool)]) -> (jobs: Vec<Vec<Step>>)
    ensures
        jobs.deep_view() == split_jobs(
            config.deep_view(),
            binaries(config.deep_view(), object_names(modules.deep_view())),
        ),
{
    let names = object_files(modules);
    let ghost cfg = config.deep_view();
    let ghost nv = names.deep_view();
    let mut jobs: Vec<Vec<Step>> = Vec::new();
    let n = names.len();
    let mut i: usize = 0;
    while i < n
        invariant
            n == names.len(),
            i <= n,
            nv == names.deep_view(),
            cfg == config.deep_view(),
            jobs.deep_view().len() == i,
            forall|k: int|
                0 <= k < i ==> #[trigger] jobs.deep_view()[k] == split_job(
                    cfg,
                    path_join(cfg.modules_dir, nv[k]),
                    nv[k],
                ),
        decreases n - i,
    {
        let ghost before = jobs.deep_view();
        let path = join(config.modules_dir.as_str(), names[i].as_str());
        let job = plan_job(config, path.as_str(), names[i].as_str());
        jobs.push(job);
        assert(jobs.deep_view() =~= before.push(
            split_job(cfg, path_join(cfg.modules_dir, nv[i as int]), nv[i as int]),
        ));
        i += 1;
    }
    if config.strip_nanocore {
        let ghost before = jobs.deep_view();
        let job = plan_job(config, config.nanocore_path.as_str(), config.nanocore_bin.as_str());
        jobs.push(job);
        assert(jobs.deep_view() =~= before.push(split_job(cfg, cfg.nanocore_path, cfg.nanocore_bin)));
    }
    assert(jobs.deep_view() =~= split_jobs(cfg, binaries(cfg, nv)));
    jobs
}

/// The paths that the job on a binary writes: the binary and its copy in the
/// debug-symbols directory.
pub open spec fn job_writes(cfg: StripObjectsConfigView, path: Seq<char>, name: Seq<char>) -> Set<Seq<char>> {
    set![path, path_join(cfg.debug_symbols_dir, name)]
}

/// The job on a binary as a worker on the files, with `tools` as what the
/// stripper does. It reads nothing but what it writes.
pub open spec fn worker(cfg: StripObjectsConfigView, path: Seq<char>, name: Seq<char>, tools: Tools) -> Worker {
    Worker {
        reads: Set::empty(),
        writes: job_writes(cfg, path, name),
        steps: Seq::new(3, |k: int| effect_of(tools, split_job(cfg, path, name)[k])),
    }
}

/// The jobs of the stage as workers.
pub open spec fn workers(cfg: StripObjectsConfigView, files: Seq<(Seq<char>, Seq<char>)>, tools: Tools) -> Seq<Worker> {
    Seq::new(files.len(), |i: int| worker(cfg, files[i].0, files[i].1, tools))
}

/// The stripper, run for a binary, writes only the job's two files, and what
/// it writes hangs only on these.
pub open spec fn tools_keep_to_job(
    cfg: StripObjectsConfigView,
    path: Seq<char>,
    name: Seq<char>,
    tools: Tools,
) -> bool {
    &&& confined(
        effect_of(tools, split_job(cfg, path, name)[1]),
        Set::empty(),
        job_writes(cfg, path, name),
    )
    &&& confined(
        effect_of(tools, split_job(cfg, path, name)[2]),
        Set::empty(),
        job_writes(cfg, path, name),
    )
}

/// The kernel binary and its debug copy are no files of a module's job.
pub open spec fn kernel_stands_apart(cfg: StripObjectsConfigView, names: Seq<Seq<char>>) -> bool {
    forall|k: int|
        0 <= k < names.len() ==> {
            let module_files = job_writes(
                cfg,
                path_join(cfg.modules_dir, #[trigger] names[k]),
                names[k],
            );
            &&& !module_files.contains(cfg.nanocore_path)
            &&& !module_files.contains(path_join(cfg.debug_symbols_dir, cfg.nanocore_bin))
        }
}

/// The jobs on binaries of different names have no file in common.
pub proof fn lemma_jobs_independent(cfg: StripObjectsConfigView, names: Seq<Seq<char>>, tools: Tools)
    requires
        names.no_duplicates(),
        forall|k: int| 0 <= k < names.len() ==> is_plain_name(#[trigger] names[k]),
        cfg.strip_nanocore ==> kernel_stands_apart(cfg, names),
    ensures
        independent(workers(cfg, binaries(cfg, names), tools)),
{
    let files = binaries(cfg, names);
    let ws = workers(cfg, files, tools);
    assert forall|i: int, j: int| 0 <= i < ws.len() && 0 <= j < ws.len() && i != j implies (
    #[trigger] ws[i]).writes.disjoint((#[trigger] ws[j]).reads.union(ws[j].writes)) by {
        let pi = files[i].0;
        let di = path_join(cfg.debug_symbols_dir, files[i].1);
        let pj = files[j].0;
        let dj = path_join(cfg.debug_symbols_dir, files[j].1);
        if i < names.len() && j < names.len() {
            assert(names[i] != names[j]);
            assert(is_plain_name(names[i]) && is_plain_name(names[j]));
            if pi == pj {
                lemma_join_same_dir(cfg.modules_dir, names[i], names[j]);
            }
            if di == dj {
                lemma_join_same_dir(cfg.debug_symbols_dir, names[i], names[j]);
            }
            if pi == dj {
                lemma_join_same_path(cfg.modules_dir, names[i], cfg.debug_symbols_dir, names[j]);
            }
            if di == pj {
                lemma_join_same_path(cfg.debug_symbols_dir, names[i], cfg.modules_dir, names[j]);
            }
        } else if i < names.len() {
            assert(names[i] == names[i]);
            assert(!job_writes(cfg, path_join(cfg.modules_dir, names[i]), names[i]).contains(pj));
            assert(!job_writes(cfg, path_join(cfg.modules_dir, names[i]), names[i]).contains(dj));
        } else {
            assert(names[j] == names[j]);
            assert(!job_writes(cfg, path_join(cfg.modules_dir, names[j]), names[j]).contains(pi));
            assert(!job_writes(cfg, path_join(cfg.modules_dir, names[j]), names[j]).contains(di));
        }
        assert(pi != pj && pi != dj && di != pj && di != dj);
        assert forall|p: Seq<char>| ws[i].writes.contains(p) implies !ws[j].reads.union(
            ws[j].writes,
        ).contains(p) by {
            assert(p == pi || p == di);
        }
    }
}

/// The files that the stage leaves do not hang on which job's step came
/// first: whatever the stripper computes, as long as each run keeps to its
/// job's files, any two ways of letting the jobs of a listing take their steps
/// side by side end in the same files, and these are the files that the jobs
/// leave when they run one by one in listing order. The listing holds no name
/// twice and no name with a slash, and the kernel binary, where it is split
/// too, is no file of a module's job.
pub proof fn lemma_split_order_does_not_matter(
    cfg: StripObjectsConfigView,
    listing: Seq<(Seq<char>, bool)>,
    tools: Tools,
    first: Seq<int>,
    second: Seq<int>,
    fs: Files,
)
    requires
        forall|i: int, j: int|
            0 <= i < j < listing.len() ==> (#[trigger] listing[i]).0 != (#[trigger] listing[j]).0,
        forall|i: int| 0 <= i < listing.len() ==> is_plain_name((#[trigger] listing[i]).0),
        cfg.strip_nanocore ==> kernel_stands_apart(cfg, object_names(listing)),
        forall|k: int|
            0 <= k < binaries(cfg, object_names(listing)).len() ==> tools_keep_to_job(
                cfg,
                (#[trigger] binaries(cfg, object_names(listing))[k]).0,
                binaries(cfg, object_names(listing))[k].1,
                tools,
            ),
        complete_schedule(workers(cfg, binaries(cfg, object_names(listing)), tools), first),
        complete_schedule(workers(cfg, binaries(cfg, object_names(listing)), tools), second),
    ensures
        run_schedule(workers(cfg, binaries(cfg, object_names(listing)), tools), first, fs)
            == run_schedule(
            workers(cfg, binaries(cfg, object_names(listing)), tools),
            second,
            fs,
        ),
        run_schedule(workers(cfg, binaries(cfg, object_names(listing)), tools), first, fs)
            == run_schedule(
            workers(cfg, binaries(cfg, object_names(listing)), tools),
            one_by_one(
                workers(cfg, binaries(cfg, object_names(listing)), tools),
                binaries(cfg, object_names(listing)).len() as int,
            ),
            fs,
        ),
{
    let names = object_names(listing);
    let files = binaries(cfg, names);
    let ws = workers(cfg, files, tools);
    lemma_object_names(listing);
    assert forall|k: int| 0 <= k < names.len() implies is_plain_name(#[trigger] names[k]) by {
        let i = choose|i: int| 0 <= i < listing.len() && listing[i].0 == names[k];
        assert(is_plain_name(listing[i].0));
    }
    lemma_jobs_independent(cfg, names, tools);
    assert forall|i: int| 0 <= i < ws.len() implies keeps_to_itself(#[trigger] ws[i]) by {
        let w = ws[i];
        assert(tools_keep_to_job(cfg, files[i].0, files[i].1, tools));
        assert forall|k: int| 0 <= k < w.steps.len() implies confined(
            #[trigger] w.steps[k],
            w.reads,
            w.writes,
        ) by {
            if k == 0 {
                lemma_copy_confined(
                    tools,
                    files[i].0,
                    path_join(cfg.debug_symbols_dir, files[i].1),
                    w.reads,
                    w.writes,
                );
            }
        }
    }
    lemma_order_does_not_matter(ws, first, second, fs);
    lemma_side_by_side_is_one_by_one(ws, first, fs);
}

/// The stage's options as the configuration gives them: each from its key.
/// Of the options that cannot be read, the first in this order fails them
/// all.
pub open spec fn configured(c: ConfigView) -> Result<StripObjectsConfigView, BuildErrorView> {
    let nanocore_bin = text_in(c, "nanocore-bin"@);
    let nanocore_path = text_in(c, "nanocore-path"@);
    let modules_dir = text_in(c, "directories.modules"@);
    let debug_symbols_dir = text_in(c, "directories.debug-symbols"@);
    let strip_nanocore = flag_in(c, "strip-objects.strip-nanocore"@);
    let stripper = text_in(c, "strip-objects.stripper"@);
    if nanocore_bin is Err {
        Err(nanocore_bin->Err_0)
    } else if nanocore_path is Err {
        Err(nanocore_path->Err_0)
    } else if modules_dir is Err {
        Err(modules_dir->Err_0)
    } else if debug_symbols_dir is Err {
        Err(debug_symbols_dir->Err_0)
    } else if strip_nanocore is Err {
        Err(strip_nanocore->Err_0)
    } else if stripper is Err {
        Err(stripper->Err_0)
    } else {
        Ok(
            StripObjectsConfigView {
                nanocore_bin: nanocore_bin->Ok_0,
                nanocore_path: nanocore_path->Ok_0,
                modules_dir: modules_dir->Ok_0,
                debug_symbols_dir: debug_symbols_dir->Ok_0,
                strip_nanocore: strip_nanocore->Ok_0,
                stripper: stripper->Ok_0,
            },
        )
    }
}

/// Reads the stage's options from the configuration.
pub fn from_config(config: &Config) -> (r: Result<StripObjectsConfig, BuildError>)
    ensures
        match r {
            Ok(read) => configured(config.deep_view()) == Ok::<StripObjectsConfigView, BuildErrorView>(
                read.deep_view(),
            ),
            Err(e) => configured(config.deep_view()) == Err::<StripObjectsConfigView, BuildErrorView>(
                e.deep_view(),
            ),
        },
{
    let nanocore_bin = match config.str("nanocore-bin") {
        Ok(value) => value,
        Err(e) => {
            return Err(e);
        },
    };
    let nanocore_path = match config.str("nanocore-path") {
        Ok(value) => value,
        Err(e) => {
            return Err(e);
        },
    };
    let modules_dir = match config.str("directories.modules") {
        Ok(value) => value,
        Err(e) => {
            return Err(e);
        },
    };
    let debug_symbols_dir = match config.str("directories.debug-symbols") {
        Ok(value) => value,
        Err(e) => {
            return Err(e);
        },
    };
    let strip_nanocore = match config.bool("strip-objects.strip-nanocore") {
        Ok(value) => value,
        Err(e) => {
            return Err(e);
        },
    };
    let stripper = match config.str("strip-objects.stripper") {
        Ok(value) => value,
        Err(e) => {
            return Err(e);
        },
    };
    Ok(
        StripObjectsConfig {
            nanocore_bin,
            nanocore_path,
            modules_dir,
            debug_symbols_dir,
            strip_nanocore,
            stripper,
        },
    )
}

} // verus!
