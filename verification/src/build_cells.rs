//! Has the compiler build every crate.

use crate::error::{BuildError, BuildErrorView};
use crate::options::{list_in, text_in, Config, ConfigView};
use crate::plan::{Invocation, InvocationView, Step, StepView};
use crate::text::{append_text, copy_strings, join_with, joined, str_eq};
use vstd::prelude::*;

verus! {

/// What the stage is configured with.
#[derive(Debug, Clone, PartialEq, Eq)]
pub struct BuildCellsConfig {
    pub target_dir: String,
    pub cargo: String,
    pub target: String,
    /// `debug` or `release`.
    pub build_mode: String,
    pub toolchain: String,
    pub manifest_path: String,
    pub cargo_flags: Vec<String>,
    pub rust_flags: Vec<String>,
}

pub struct BuildCellsConfigView {
    pub target_dir: Seq<char>,
    pub cargo: Seq<char>,
    pub target: Seq<char>,
    pub build_mode: Seq<char>,
    pub toolchain: Seq<char>,
    pub manifest_path: Seq<char>,
    pub cargo_flags: Seq<Seq<char>>,
    pub rust_flags: Seq<Seq<char>>,
}

impl DeepView for BuildCellsConfig {
    type V = BuildCellsConfigView;

    open spec fn deep_view(&self) -> BuildCellsConfigView {
        BuildCellsConfigView {
            target_dir: self.target_dir@,
            cargo: self.cargo@,
            target: self.target@,
            build_mode: self.build_mode@,
            toolchain: self.toolchain@,
            manifest_path: self.manifest_path@,
            cargo_flags: self.cargo_flags.deep_view(),
            rust_flags: self.rust_flags.deep_view(),
        }
    }
}

/// The stage's name.
pub open spec fn stage_name() -> Seq<char> {
    "build-cells"@
}

/// Whether a build mode is one that the compiler knows.
pub open spec fn is_build_mode(mode: Seq<char>) -> bool {
    mode == "debug"@ || mode == "release"@
}

/// The call of the compiler driver: the toolchain, the manifest, the mode and
/// the target, then the configured flags; the compiler's own flags go in by
/// the environment.
pub open spec fn build_call(cfg: BuildCellsConfigView) -> InvocationView {
    InvocationView {
        stage: stage_name(),
        binary: cfg.cargo,
        env: seq![("RUSTFLAGS"@, joined(cfg.rust_flags, " "@))],
        args: seq![
            "+"@ + cfg.toolchain,
            "build"@,
            "--manifest-path="@ + cfg.manifest_path,
            "--"@ + cfg.build_mode,
            "--target-dir"@,
            cfg.target_dir,
            "--target"@,
            cfg.target,
        ] + cfg.cargo_flags,
    }
}

/// Plans the build of all crates. A build mode other than `debug` and
/// `release` is `InvalidBuildMode`.
pub fn process(config: &BuildCellsConfig) -> (r: Result<Vec<Step>, BuildError>)
    ensures
        match r {
            Ok(steps) => is_build_mode(config.deep_view().build_mode) && steps.deep_view()
                == seq![StepView::Run(build_call(config.deep_view()))],
            Err(e) => !is_build_mode(config.deep_view().build_mode) && e.deep_view() == (
            BuildErrorView::InvalidBuildMode { mode: config.deep_view().build_mode }),
        },
{
    let ghost cfg = config.deep_view();
    let mode = config.build_mode.as_str();
    if !(str_eq(mode, "debug") || str_eq(mode, "release")) {
        return Err(BuildError::InvalidBuildMode { mode: config.build_mode.clone() });
    }
    let mut env: Vec<(String, String)> = Vec::new();
    env.push(("RUSTFLAGS".to_owned(), join_with(&config.rust_flags, " ")));
    assert(env.deep_view() =~= seq![("RUSTFLAGS"@, joined(cfg.rust_flags, " "@))]);
    let mut args: Vec<String> = Vec::new();
    args.push(append_text("+", config.toolchain.as_str()));
    args.push("build".to_owned());
    args.push(append_text("--manifest-path=", config.manifest_path.as_str()));
    args.push(append_text("--", mode));
    args.push("--target-dir".to_owned());
    args.push(config.target_dir.clone());
    args.push("--target".to_owned());
    args.push(config.target.clone());
    let ghost head = args.deep_view();
    let mut flags = copy_strings(&config.cargo_flags);
    args.append(&mut flags);
    assert(args.deep_view() =~= head + cfg.cargo_flags);
    assert(args.deep_view() =~= build_call(cfg).args);
    let call = Invocation {
        stage: "build-cells".to_owned(),
        binary: config.cargo.clone(),
        env,
        args,
    };
    let mut steps: Vec<Step> = Vec::new();
    steps.push(Step::Run(call));
    assert(steps.deep_view() =~= seq![StepView::Run(build_call(cfg))]);
    Ok(steps)
}

/// The stage's options as the configuration gives them: each from its key.
/// Of the options that cannot be read, the first in this order fails them
/// all.
pub open spec fn configured(c: ConfigView) -> Result<BuildCellsConfigView, BuildErrorView> {
    let target_dir = text_in(c, "directories.target"@);
    let cargo = text_in(c, "cargo"@);
    let target = text_in(c, "target"@);
    let build_mode = text_in(c, "build-mode"@);
    let toolchain = text_in(c, "build-cells.toolchain"@);
    let manifest_path = text_in(c, "build-cells.manifest-path"@);
    let cargo_flags = list_in(c, "build-cells.cargo-flags"@);
    let rust_flags = list_in(c, "build-cells.rust-flags"@);
    if target_dir is Err {
        Err(target_dir->Err_0)
    } else if cargo is Err {
        Err(cargo->Err_0)
    } else if target is Err {
        Err(target->Err_0)
    } else if build_mode is Err {
        Err(build_mode->Err_0)
    } else if toolchain is Err {
        Err(toolchain->Err_0)
    } else if manifest_path is Err {
        Err(manifest_path->Err_0)
    } else if cargo_flags is Err {
        Err(cargo_flags->Err_0)
    } else if rust_flags is Err {
        Err(rust_flags->Err_0)
    } else {
        Ok(
            BuildCellsConfigView {
                target_dir: target_dir->Ok_0,
                cargo: cargo->Ok_0,
                target: target->Ok_0,
                build_mode: build_mode->Ok_0,
                toolchain: toolchain->Ok_0,
                manifest_path: manifest_path->Ok_0,
                cargo_flags: cargo_flags->Ok_0,
                rust_flags: rust_flags->Ok_0,
            },
        )
    }
}

/// Reads the stage's options from the configuration.
pub fn from_config(config: &Config) -> (r: Result<BuildCellsConfig, BuildError>)
    ensures
        match r {
            Ok(read) => configured(config.deep_view()) == Ok::<BuildCellsConfigView, BuildErrorView>(
                read.deep_view(),
            ),
            Err(e) => configured(config.deep_view()) == Err::<BuildCellsConfigView, BuildErrorView>(
                e.deep_view(),
            ),
        },
{
    let target_dir = match config.str("directories.target") {
        Ok(value) => value,
        Err(e) => {
            return Err(e);
        },
    };
    let cargo = match config.str("cargo") {
        Ok(value) => value,
        Err(e) => {
            return Err(e);
        },
    };
    let target = match config.str("target") {
        Ok(value) => value,
        Err(e) => {
            return Err(e);
        },
    };
    let build_mode = match config.str("build-mode") {
        Ok(value) => value,
        Err(e) => {
            return Err(e);
        },
    };
    let toolchain = match config.str("build-cells.toolchain") {
        Ok(value) => value,
        Err(e) => {
            return Err(e);
        },
    };
    let manifest_path = match config.str("build-cells.manifest-path") {
        Ok(value) => value,
        Err(e) => {
            return Err(e);
        },
    };
    let cargo_flags = match config.vec("build-cells.cargo-flags") {
        Ok(value) => value,
        Err(e) => {
            return Err(e);
        },
    };
    let rust_flags = match config.vec("build-cells.rust-flags") {
        Ok(value) => value,
        Err(e) => {
            return Err(e);
        },
    };
    Ok(
        BuildCellsConfig {
            target_dir,
            cargo,
            target,
            build_mode,
            toolchain,
            manifest_path,
            cargo_flags,
            rust_flags,
        },
    )
}

} // verus!
