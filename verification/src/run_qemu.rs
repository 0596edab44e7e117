//! Starts the emulator on the finished image.

use crate::error::{BuildError, BuildErrorView};
use crate::options::{list_in, text_in, Config, ConfigView};
use crate::plan::{run_step, tool, Step};
use crate::text::copy_strings;
use vstd::prelude::*;

verus! {

/// What the stage is configured with.
#[derive(Debug, Clone, PartialEq, Eq)]
pub struct RunQemuConfig {
    pub qemu: String,
    pub extra_args: Vec<String>,
}

pub struct RunQemuConfigView {
    pub qemu: Seq<char>,
    pub extra_args: Seq<Seq<char>>,
}

impl DeepView for RunQemuConfig {
    type V = RunQemuConfigView;

    open spec fn deep_view(&self) -> RunQemuConfigView {
        RunQemuConfigView { qemu: self.qemu@, extra_args: self.extra_args.deep_view() }
    }
}

/// The stage's name.
pub open spec fn stage_name() -> Seq<char> {
    "run-qemu"@
}

/// Plans the one call of the emulator, with the configured arguments.
pub fn process(config: &RunQemuConfig) -> (steps: Vec<Step>)
    ensures
        steps.deep_view() == seq![
            run_step(stage_name(), config.deep_view().qemu, config.deep_view().extra_args),
        ],
{
    let mut steps: Vec<Step> = Vec::new();
    steps.push(
        Step::Run(tool("run-qemu", config.qemu.as_str(), copy_strings(&config.extra_args))),
    );
    assert(steps.deep_view() =~= seq![
        run_step(stage_name(), config.deep_view().qemu, config.deep_view().extra_args),
    ]);
    steps
}

/// The stage's options as the configuration gives them: each from its key.
/// Of the options that cannot be read, the first in this order fails them
/// all.
pub open spec fn configured(c: ConfigView) -> Result<RunQemuConfigView, BuildErrorView> {
    let qemu = text_in(c, "run-qemu.qemu"@);
    let extra_args = list_in(c, "run-qemu.extra-args"@);
    if qemu is Err {
        Err(qemu->Err_0)
    } else if extra_args is Err {
        Err(extra_args->Err_0)
    } else {
        Ok(
            RunQemuConfigView {
                qemu: qemu->Ok_0,
                extra_args: extra_args->Ok_0,
            },
        )
    }
}

/// Reads the stage's options from the configuration.
pub fn from_config(config: &Config) -> (r: Result<RunQemuConfig, BuildError>)
    ensures
        match r {
            Ok(read) => configured(config.deep_view()) == Ok::<RunQemuConfigView, BuildErrorView>(
                read.deep_view(),
            ),
            Err(e) => configured(config.deep_view()) == Err::<RunQemuConfigView, BuildErrorView>(
                e.deep_view(),
            ),
        },
{
    let qemu = match config.str("run-qemu.qemu") {
        Ok(value) => value,
        Err(e) => {
            return Err(e);
        },
    };
    let extra_args = match config.vec("run-qemu.extra-args") {
        Ok(value) => value,
        Err(e) => {
            return Err(e);
        },
    };
    Ok(RunQemuConfig { qemu, extra_args })
}

} // verus!
