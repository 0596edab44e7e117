//! Plans: the file operations and tool invocations that a stage asks for.
//!
//! A stage computes its plan and hands it back. Whoever carries a plan out
//! performs the steps of a job in order and stops at the first that fails.

use crate::error::{BuildError, BuildErrorView};
use vstd::prelude::*;

verus! {

/// One call of an external tool.
#[derive(Debug, Clone, PartialEq, Eq)]
pub struct Invocation {
    /// The stage that asks for the call.
    pub stage: String,
    /// The program to start.
    pub binary: String,
    /// Environment variables set for the call, name and value.
    pub env: Vec<(String, String)>,
    /// The arguments, in order.
    pub args: Vec<String>,
}

pub struct InvocationView {
    pub stage: Seq<char>,
    pub binary: Seq<char>,
    pub env: Seq<(Seq<char>, Seq<char>)>,
    pub args: Seq<Seq<char>>,
}

impl DeepView for Invocation {
    type V = InvocationView;

    open spec fn deep_view(&self) -> InvocationView {
        InvocationView {
            stage: self.stage@,
            binary: self.binary@,
            env: self.env.deep_view(),
            args: self.args.deep_view(),
        }
    }
}

/// One thing to do.
#[derive(Debug, Clone, PartialEq, Eq)]
pub enum Step {
    /// Create a directory, with its parents where `all` is set. A directory
    /// that is already there is no failure.
    CreateDir { path: String, all: bool },
    /// Write a file, replacing what was there.
    WriteFile { path: String, contents: Vec<u8> },
    /// Copy a file. A missing source is a failure.
    Copy { from: String, to: String },
    /// Copy a file. A missing source is passed over.
    CopyIfPresent { from: String, to: String },
    /// Move a file over another in one step.
    Rename { from: String, to: String },
    /// Remove a file. A file that is not there is no failure.
    RemoveFile { path: String },
    /// Remove a directory and all that it holds.
    RemoveDirAll { path: String },
    /// Run a tool and wait for it. Any end but success is a failure.
    Run(Invocation),
}

pub enum StepView {
    CreateDir { path: Seq<char>, all: bool },
    WriteFile { path: Seq<char>, contents: Seq<u8> },
    Copy { from: Seq<char>, to: Seq<char> },
    CopyIfPresent { from: Seq<char>, to: Seq<char> },
    Rename { from: Seq<char>, to: Seq<char> },
    RemoveFile { path: Seq<char> },
    RemoveDirAll { path: Seq<char> },
    Run(InvocationView),
}

impl DeepView for Step {
    type V = StepView;

    open spec fn deep_view(&self) -> StepView {
        match self {
            Step::CreateDir { path, all } => StepView::CreateDir { path: path@, all: *all },
            Step::WriteFile { path, contents } => StepView::WriteFile {
                path: path@,
                contents: contents@,
            },
            Step::Copy { from, to } => StepView::Copy { from: from@, to: to@ },
            Step::CopyIfPresent { from, to } => StepView::CopyIfPresent { from: from@, to: to@ },
            Step::Rename { from, to } => StepView::Rename { from: from@, to: to@ },
            Step::RemoveFile { path } => StepView::RemoveFile { path: path@ },
            Step::RemoveDirAll { path } => StepView::RemoveDirAll { path: path@ },
            Step::Run(inv) => StepView::Run(inv.deep_view()),
        }
    }
}

/// How a tool call ended.
#[derive(Debug, Clone, Copy, PartialEq, Eq)]
pub enum ToolOutcome {
    /// The tool could not be started.
    NotStarted,
    /// The tool ran and ended, in success or not.
    Exited { success: bool },
}

/// A tool call without environment: `stage`, `binary` and the arguments.
pub open spec fn invocation(stage: Seq<char>, binary: Seq<char>, args: Seq<Seq<char>>) -> InvocationView {
    InvocationView { stage, binary, env: Seq::empty(), args }
}

/// A step that runs a tool without environment.
pub open spec fn run_step(stage: Seq<char>, binary: Seq<char>, args: Seq<Seq<char>>) -> StepView {
    StepView::Run(invocation(stage, binary, args))
}

/// Judges the end of a tool call: anything but an end in success is the
/// failure of `binary` in `stage`.
pub fn check_result(stage: &str, outcome: ToolOutcome, binary: &str) -> (r: Result<(), BuildError>)
    ensures
        r is Ok <==> outcome == (ToolOutcome::Exited { success: true }),
        r matches Err(e) ==> e.deep_view() == (BuildErrorView::ToolFailed {
            stage: stage@,
            binary: binary@,
        }),
{
    match outcome {
        ToolOutcome::Exited { success: true } => Ok(()),
        _ => Err(BuildError::ToolFailed { stage: stage.to_owned(), binary: binary.to_owned() }),
    }
}

/// Describes the call of `binary` with the groups of `args` one after the
/// other, and with the variables of `env` set.
pub fn run_env(stage: &str, binary: &str, env: &[(&str, &str)], args: &[&[&str]]) -> (inv: Invocation)
    ensures
        inv.deep_view() == (InvocationView {
            stage: stage@,
            binary: binary@,
            env: env.deep_view(),
            args: args.deep_view().flatten(),
        }),
{
    let mut vars: Vec<(String, String)> = Vec::new();
    let ne = env.len();
    let mut e: usize = 0;
    while e < ne
        invariant
            ne == env.len(),
            e <= ne,
            vars.deep_view() == env.deep_view().take(e as int),
        decreases ne - e,
    {
        let ghost before = vars.deep_view();
        let pair = &env[e];
        vars.push((pair.0.to_owned(), pair.1.to_owned()));
        assert(vars.deep_view() =~= before.push(env.deep_view()[e as int]));
        assert(env.deep_view().take(e + 1) =~= before.push(env.deep_view()[e as int]));
        e += 1;
    }
    assert(env.deep_view().take(ne as int) =~= env.deep_view());
    let mut out: Vec<String> = Vec::new();
    let ng = args.len();
    let mut g: usize = 0;
    assert(args.deep_view().take(0).flatten() =~= Seq::<Seq<char>>::empty());
    while g < ng
        invariant
            ng == args.len(),
            g <= ng,
            out.deep_view() == args.deep_view().take(g as int).flatten(),
        decreases ng - g,
    {
        let group = args[g];
        let ghost gv = args.deep_view()[g as int];
        assert(group.deep_view() == gv);
        let ghost base = out.deep_view();
        let na = group.len();
        let mut a: usize = 0;
        while a < na
            invariant
                na == group.len(),
                a <= na,
                group.deep_view() == gv,
                out.deep_view() == base + gv.take(a as int),
            decreases na - a,
        {
            let ghost before = out.deep_view();
            out.push(group[a].to_owned());
            assert(out.deep_view() =~= before.push(gv[a as int]));
            assert(base + gv.take(a + 1) =~= before.push(gv[a as int]));
            a += 1;
        }
        proof {
            assert(gv.take(na as int) =~= gv);
            args.deep_view().take(g as int).lemma_flatten_push(gv);
            assert(args.deep_view().take(g + 1) =~= args.deep_view().take(g as int).push(gv));
        }
        g += 1;
    }
    assert(args.deep_view().take(ng as int) =~= args.deep_view());
    Invocation { stage: stage.to_owned(), binary: binary.to_owned(), env: vars, args: out }
}

/// Describes the call of `binary` with the groups of `args` one after the
/// other.
pub fn run(stage: &str, binary: &str, args: &[&[&str]]) -> (inv: Invocation)
    ensures
        inv.deep_view() == invocation(stage@, binary@, args.deep_view().flatten()),
{
    let inv = run_env(stage, binary, &[], args);
    assert(inv.deep_view().env =~= Seq::empty());
    inv
}

/// Describes the call of `binary` with `args`.
pub fn tool(stage: &str, binary: &str, args: Vec<String>) -> (inv: Invocation)
    ensures
        inv.deep_view() == invocation(stage@, binary@, args.deep_view()),
{
    let inv = Invocation {
        stage: stage.to_owned(),
        binary: binary.to_owned(),
        env: Vec::new(),
        args,
    };
    assert(inv.env.deep_view() =~= Seq::empty());
    inv
}

/// The tool calls among the steps, in order.
pub open spec fn runs_in(steps: Seq<StepView>) -> Seq<InvocationView>
    decreases steps.len(),
{
    if steps.len() == 0 {
        Seq::empty()
    } else {
        match steps.last() {
            StepView::Run(inv) => runs_in(steps.drop_last()).push(inv),
            _ => runs_in(steps.drop_last()),
        }
    }
}

/// The tool calls of steps put one after the other are the tool calls of the
/// first, then those of the second.
pub proof fn lemma_runs_in_concat(a: Seq<StepView>, b: Seq<StepView>)
    ensures
        runs_in(a + b) == runs_in(a) + runs_in(b),
    decreases b.len(),
{
    if b.len() == 0 {
        assert(a + b =~= a);
        assert(runs_in(a) + runs_in(b) =~= runs_in(a));
    } else {
        lemma_runs_in_concat(a, b.drop_last());
        assert((a + b).drop_last() =~= a + b.drop_last());
        assert((a + b).last() == b.last());
        match b.last() {
            StepView::Run(inv) => {
                assert(runs_in(a + b) =~= (runs_in(a) + runs_in(b.drop_last())).push(inv));
                assert(runs_in(a) + runs_in(b) =~= (runs_in(a) + runs_in(b.drop_last())).push(inv));
            },
            _ => {},
        }
    }
}

} // verus!
