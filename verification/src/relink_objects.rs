//! Brings the sections of each module object into the layout that the module
//! loader expects: one partial relink per object with a fixed linker script,
//! then the removal of exception tables, file by file and in any order.

use crate::error::{BuildError, BuildErrorView};
use crate::fs_model::{
    complete_schedule, confined, effect_of, independent, keeps_to_itself,
    lemma_order_does_not_matter, lemma_rename_confined, lemma_side_by_side_is_one_by_one,
    one_by_one, run_schedule, Files, Tools, Worker,
};
use crate::options::{text_in, Config, ConfigView};
use crate::plan::{run_step, tool, Step, StepView};
use crate::text::{
    append_text, join, lemma_join_same_dir, lemma_object_names, lemma_same_ending, object_ending,
    object_files, object_names, path_join,
};
use vstd::prelude::*;

verus! {

/// What the stage is configured with.
#[derive(Debug, Clone, PartialEq, Eq)]
pub struct RelinkObjectsConfig {
    pub modules_dir: String,
    pub partial_relinking_script: String,
    pub linker: String,
    pub stripper: String,
}

pub struct RelinkObjectsConfigView {
    pub modules_dir: Seq<char>,
    pub partial_relinking_script: Seq<char>,
    pub linker: Seq<char>,
    pub stripper: Seq<char>,
}

impl DeepView for RelinkObjectsConfig {
    type V = RelinkObjectsConfigView;

    open spec fn deep_view(&self) -> RelinkObjectsConfigView {
        RelinkObjectsConfigView {
            modules_dir: self.modules_dir@,
            partial_relinking_script: self.partial_relinking_script@,
            linker: self.linker@,
            stripper: self.stripper@,
        }
    }
}

/// The stage's name.
pub open spec fn stage_name() -> Seq<char> {
    "relink-objects"@
}

/// Where the module `name` lies.
pub open spec fn object_path(cfg: RelinkObjectsConfigView, name: Seq<char>) -> Seq<char> {
    path_join(cfg.modules_dir, name)
}

/// Where the relinked module `name` is written before it takes the place of
/// the module.
pub open spec fn relinked_path(cfg: RelinkObjectsConfigView, name: Seq<char>) -> Seq<char> {
    object_path(cfg, name) + "-relinked"@
}

/// The work on the module `name`: relink it into a file beside it, move that
/// file over the module, strip the exception tables from the module.
pub open spec fn relink_job(cfg: RelinkObjectsConfigView, name: Seq<char>) -> Seq<StepView> {
    seq![
        run_step(
            stage_name(),
            cfg.linker,
            seq![
                "-r"@,
                "-T"@,
                cfg.partial_relinking_script,
                "-o"@,
                relinked_path(cfg, name),
                object_path(cfg, name),
            ],
        ),
        StepView::Rename { from: relinked_path(cfg, name), to: object_path(cfg, name) },
        run_step(
            stage_name(),
            cfg.stripper,
            seq!["--wildcard"@, "--strip-symbol=GCC_except_table*"@, object_path(cfg, name)],
        ),
    ]
}

/// One job per name.
pub open spec fn relink_jobs(cfg: RelinkObjectsConfigView, names: Seq<Seq<char>>) -> Seq<Seq<StepView>> {
    Seq::new(names.len(), |k: int| relink_job(cfg, names[k]))
}

/// Plans the work on one module.
fn plan_job(config: &RelinkObjectsConfig, name: &str) -> (job: Vec<Step>)
    ensures
        job.deep_view() == relink_job(config.deep_view(), name@),
{
    let ghost cfg = config.deep_view();
    let stage = "relink-objects";
    let path = join(config.modules_dir.as_str(), name);
    let tmp_path = append_text(path.as_str(), "-relinked");
    let mut link_args: Vec<String> = Vec::new();
    link_args.push("-r".to_owned());
    link_args.push("-T".to_owned());
    link_args.push(config.partial_relinking_script.clone());
    link_args.push("-o".to_owned());
    link_args.push(tmp_path.clone());
    link_args.push(path.clone());
    assert(link_args.deep_view() =~= seq![
        "-r"@,
        "-T"@,
        cfg.partial_relinking_script,
        "-o"@,
        relinked_path(cfg, name@),
        object_path(cfg, name@),
    ]);
    let mut strip_args: Vec<String> = Vec::new();
    strip_args.push("--wildcard".to_owned());
    strip_args.push("--strip-symbol=GCC_except_table*".to_owned());
    strip_args.push(path.clone());
    assert(strip_args.deep_view() =~= seq![
        "--wildcard"@,
        "--strip-symbol=GCC_except_table*"@,
        object_path(cfg, name@),
    ]);
    let mut job: Vec<Step> = Vec::new();
    job.push(Step::Run(tool(stage, config.linker.as_str(), link_args)));
    job.push(Step::Rename { from: tmp_path, to: path });
    job.push(Step::Run(tool(stage, config.stripper.as_str(), strip_args)));
    assert(job.deep_view() =~= relink_job(cfg, name@));
    job
}

/// Plans the relink of every object file of the module directory: for each
/// name of the listing that ends like an object file one job, in listing
/// order. The jobs may run side by side; the steps of a job run in order.
pub fn process(config: &RelinkObjectsConfig, modules: &[(String, bool)]) -> (jobs: Vec<Vec<Step>>)
    ensures
        jobs.deep_view() == relink_jobs(config.deep_view(), object_names(modules.deep_view())),
{
    let names = object_files(modules);
    let ghost cfg = config.deep_view();
    let ghost nv = names.deep_view();
    let mut jobs: Vec<Vec<Step>> = Vec::new();
    let n = names.len();
    let mut i: usize = 0;
    while i < n
        invariant
            n == names.len(),
            i <= n,
            nv == names.deep_view(),
            cfg == config.deep_view(),
            jobs.deep_view() == relink_jobs(cfg, nv.take(i as int)),
        decreases n - i,
    {
        let ghost before = jobs.deep_view();
        let job = plan_job(config, names[i].as_str());
        jobs.push(job);
        assert(jobs.deep_view() =~= before.push(relink_job(cfg, nv[i as int])));
        assert(relink_jobs(cfg, nv.take(i + 1)) =~= before.push(relink_job(cfg, nv[i as int])));
        i += 1;
    }
    assert(nv.take(n as int) =~= nv);
    jobs
}

/// The paths that the job on the module `name` writes: the module and the
/// file beside it.
pub open spec fn job_writes(cfg: RelinkObjectsConfigView, name: Seq<char>) -> Set<Seq<char>> {
    set![object_path(cfg, name), relinked_path(cfg, name)]
}

/// The paths that the job on the module `name` reads and does not write: the
/// linker script.
pub open spec fn job_reads(cfg: RelinkObjectsConfigView, name: Seq<char>) -> Set<Seq<char>> {
    set![cfg.partial_relinking_script]
}

/// The job on the module `name` as a worker on the files, with `tools` as
/// what the linker and the stripper do.
pub open spec fn worker(cfg: RelinkObjectsConfigView, name: Seq<char>, tools: Tools) -> Worker {
    Worker {
        reads: job_reads(cfg, name),
        writes: job_writes(cfg, name),
        steps: Seq::new(3, |k: int| effect_of(tools, relink_job(cfg, name)[k])),
    }
}

/// The jobs of the stage as workers.
pub open spec fn workers(cfg: RelinkObjectsConfigView, names: Seq<Seq<char>>, tools: Tools) -> Seq<Worker> {
    Seq::new(names.len(), |i: int| worker(cfg, names[i], tools))
}

/// The linker and the stripper, run for the module `name`, write only the
/// job's two files, and what they write hangs only on these and on the linker
/// script.
pub open spec fn tools_keep_to_job(cfg: RelinkObjectsConfigView, name: Seq<char>, tools: Tools) -> bool {
    &&& confined(
        effect_of(tools, relink_job(cfg, name)[0]),
        job_reads(cfg, name),
        job_writes(cfg, name),
    )
    &&& confined(
        effect_of(tools, relink_job(cfg, name)[2]),
        job_reads(cfg, name),
        job_writes(cfg, name),
    )
}

/// The jobs on modules of different names have no file in common, and none
/// writes the linker script, where the script is not itself a file that a job
/// writes.
pub proof fn lemma_jobs_independent(cfg: RelinkObjectsConfigView, names: Seq<Seq<char>>, tools: Tools)
    requires
        names.no_duplicates(),
        forall|k: int| 0 <= k < names.len() ==> object_ending().is_suffix_of(#[trigger] names[k]),
        forall|k: int|
            0 <= k < names.len() ==> !job_writes(cfg, #[trigger] names[k]).contains(
                cfg.partial_relinking_script,
            ),
    ensures
        independent(workers(cfg, names, tools)),
{
    let ws = workers(cfg, names, tools);
    reveal_strlit(".o");
    reveal_strlit("-relinked");
    assert forall|i: int, j: int| 0 <= i < ws.len() && 0 <= j < ws.len() && i != j implies (
    #[trigger] ws[i]).writes.disjoint((#[trigger] ws[j]).reads.union(ws[j].writes)) by {
        let pi = object_path(cfg, names[i]);
        let pj = object_path(cfg, names[j]);
        let ti = relinked_path(cfg, names[i]);
        let tj = relinked_path(cfg, names[j]);
        assert(names[i] != names[j]);
        if pi == pj {
            lemma_join_same_dir(cfg.modules_dir, names[i], names[j]);
        }
        if ti == tj {
            lemma_same_ending(pi, pj, "-relinked"@);
        }
        assert(object_ending().is_suffix_of(names[i]));
        assert(object_ending().is_suffix_of(names[j]));
        assert(names[i][names[i].len() - 1] == 'o') by {
            let tail = names[i].subrange(names[i].len() - 2, names[i].len() as int);
            assert(tail =~= ".o"@);
            assert(tail[1] == 'o');
        }
        assert(names[j][names[j].len() - 1] == 'o') by {
            let tail = names[j].subrange(names[j].len() - 2, names[j].len() as int);
            assert(tail =~= ".o"@);
            assert(tail[1] == 'o');
        }
        assert(pi[pi.len() - 1] == 'o');
        assert(pj[pj.len() - 1] == 'o');
        assert(ti[ti.len() - 1] == 'd');
        assert(tj[tj.len() - 1] == 'd');
        assert(pi != tj);
        assert(ti != pj);
        assert(!job_writes(cfg, names[i]).contains(cfg.partial_relinking_script));
        assert forall|p: Seq<char>| ws[i].writes.contains(p) implies !ws[j].reads.union(
            ws[j].writes,
        ).contains(p) by {
            assert(p == pi || p == ti);
        }
    }
}

/// The modules that the stage leaves do not hang on which job's step came
/// first: whatever the linker and the stripper compute, as long as each run
/// keeps to its job's files, any two ways of letting the jobs of a listing
/// take their steps side by side end in the same files, and these are the
/// files that the jobs leave when they run one by one in listing order. The
/// listing holds no name twice, and the linker script is none of the files
/// that a job writes.
pub proof fn lemma_relink_order_does_not_matter(
    cfg: RelinkObjectsConfigView,
    listing: Seq<(Seq<char>, bool)>,
    tools: Tools,
    first: Seq<int>,
    second: Seq<int>,
    fs: Files,
)
    requires
        forall|i: int, j: int|
            0 <= i < j < listing.len() ==> (#[trigger] listing[i]).0 != (#[trigger] listing[j]).0,
        forall|k: int|
            0 <= k < object_names(listing).len() ==> !job_writes(
                cfg,
                #[trigger] object_names(listing)[k],
            ).contains(cfg.partial_relinking_script),
        forall|k: int|
            0 <= k < object_names(listing).len() ==> tools_keep_to_job(
                cfg,
                #[trigger] object_names(listing)[k],
                tools,
            ),
        complete_schedule(workers(cfg, object_names(listing), tools), first),
        complete_schedule(workers(cfg, object_names(listing), tools), second),
    ensures
        run_schedule(workers(cfg, object_names(listing), tools), first, fs) == run_schedule(
            workers(cfg, object_names(listing), tools),
            second,
            fs,
        ),
        run_schedule(workers(cfg, object_names(listing), tools), first, fs) == run_schedule(
            workers(cfg, object_names(listing), tools),
            one_by_one(
                workers(cfg, object_names(listing), tools),
                object_names(listing).len() as int,
            ),
            fs,
        ),
{
    let names = object_names(listing);
    let ws = workers(cfg, names, tools);
    lemma_object_names(listing);
    lemma_jobs_independent(cfg, names, tools);
    assert forall|i: int| 0 <= i < ws.len() implies keeps_to_itself(#[trigger] ws[i]) by {
        let w = ws[i];
        assert(tools_keep_to_job(cfg, names[i], tools));
        assert forall|k: int| 0 <= k < w.steps.len() implies confined(
            #[trigger] w.steps[k],
            w.reads,
            w.writes,
        ) by {
            if k == 1 {
                lemma_rename_confined(
                    tools,
                    relinked_path(cfg, names[i]),
                    object_path(cfg, names[i]),
                    w.reads,
                    w.writes,
                );
            }
        }
    }
    lemma_order_does_not_matter(ws, first, second, fs);
    lemma_side_by_side_is_one_by_one(ws, first, fs);
}

/// The stage's options as the configuration gives them: each from its key.
/// Of the options that cannot be read, the first in this order fails them
/// all.
pub open spec fn configured(c: ConfigView) -> Result<RelinkObjectsConfigView, BuildErrorView> {
    let modules_dir = text_in(c, "directories.modules"@);
    let partial_relinking_script = text_in(c, "relink-objects.partial-relinking-script"@);
    let linker = text_in(c, "relink-objects.linker"@);
    let stripper = text_in(c, "relink-objects.stripper"@);
    if modules_dir is Err {
        Err(modules_dir->Err_0)
    } else if partial_relinking_script is Err {
        Err(partial_relinking_script->Err_0)
    } else if linker is Err {
        Err(linker->Err_0)
    } else if stripper is Err {
        Err(stripper->Err_0)
    } else {
        Ok(
            RelinkObjectsConfigView {
                modules_dir: modules_dir->Ok_0,
                partial_relinking_script: partial_relinking_script->Ok_0,
                linker: linker->Ok_0,
                stripper: stripper->Ok_0,
            },
        )
    }
}

/// Reads the stage's options from the configuration.
pub fn from_config(config: &Config) -> (r: Result<RelinkObjectsConfig, BuildError>)
    ensures
        match r {
            Ok(read) => configured(config.deep_view()) == Ok::<RelinkObjectsConfigView, BuildErrorView>(
                read.deep_view(),
            ),
            Err(e) => configured(config.deep_view()) == Err::<RelinkObjectsConfigView, BuildErrorView>(
                e.deep_view(),
            ),
        },
{
    let modules_dir = match config.str("directories.modules") {
        Ok(value) => value,
        Err(e) => {
            return Err(e);
        },
    };
    let partial_relinking_script = match config.str("relink-objects.partial-relinking-script") {
        Ok(value) => value,
        Err(e) => {
            return Err(e);
        },
    };
    let linker = match config.str("relink-objects.linker") {
        Ok(value) => value,
        Err(e) => {
            return Err(e);
        },
    };
    let stripper = match config.str("relink-objects.stripper") {
        Ok(value) => value,
        Err(e) => {
            return Err(e);
        },
    };
    Ok(RelinkObjectsConfig { modules_dir, partial_relinking_script, linker, stripper })
}

} // verus!
