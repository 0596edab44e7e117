//! Makes the directories that the later stages write into.

use crate::error::{BuildError, BuildErrorView};
use crate::options::{text_in, Config, ConfigView};
use crate::plan::{Step, StepView};
use vstd::prelude::*;

verus! {

/// What the stage is configured with.
#[derive(Debug, Clone, PartialEq, Eq)]
pub struct DirectoriesConfig {
    pub build_dir: String,
    pub nanocore: String,
    pub isofiles: String,
    pub modules: String,
    pub deps: String,
    pub target: String,
    pub extracted_rlibs: String,
    pub debug_symbols: String,
}

pub struct DirectoriesConfigView {
    pub build_dir: Seq<char>,
    pub nanocore: Seq<char>,
    pub isofiles: Seq<char>,
    pub modules: Seq<char>,
    pub deps: Seq<char>,
    pub target: Seq<char>,
    pub extracted_rlibs: Seq<char>,
    pub debug_symbols: Seq<char>,
}

impl DeepView for DirectoriesConfig {
    type V = DirectoriesConfigView;

    open spec fn deep_view(&self) -> DirectoriesConfigView {
        DirectoriesConfigView {
            build_dir: self.build_dir@,
            nanocore: self.nanocore@,
            isofiles: self.isofiles@,
            modules: self.modules@,
            deps: self.deps@,
            target: self.target@,
            extracted_rlibs: self.extracted_rlibs@,
            debug_symbols: self.debug_symbols@,
        }
    }
}

/// The step that makes one directory. Its parent has to be there.
pub open spec fn make_dir(path: Seq<char>) -> StepView {
    StepView::CreateDir { path, all: false }
}

/// The directories in the order in which they are made: the build root
/// first, since the others may lie in it.
pub open spec fn directory_steps(cfg: DirectoriesConfigView) -> Seq<StepView> {
    seq![
        make_dir(cfg.build_dir),
        make_dir(cfg.nanocore),
        make_dir(cfg.isofiles),
        make_dir(cfg.modules),
        make_dir(cfg.deps),
        make_dir(cfg.target),
        make_dir(cfg.extracted_rlibs),
        make_dir(cfg.debug_symbols),
    ]
}

/// Plans the making of the build directories.
pub fn process(config: &DirectoriesConfig) -> (steps: Vec<Step>)
    ensures
        steps.deep_view() == directory_steps(config.deep_view()),
{
    let mut steps: Vec<Step> = Vec::new();
    steps.push(Step::CreateDir { path: config.build_dir.clone(), all: false });
    steps.push(Step::CreateDir { path: config.nanocore.clone(), all: false });
    steps.push(Step::CreateDir { path: config.isofiles.clone(), all: false });
    steps.push(Step::CreateDir { path: config.modules.clone(), all: false });
    steps.push(Step::CreateDir { path: config.deps.clone(), all: false });
    steps.push(Step::CreateDir { path: config.target.clone(), all: false });
    steps.push(Step::CreateDir { path: config.extracted_rlibs.clone(), all: false });
    steps.push(Step::CreateDir { path: config.debug_symbols.clone(), all: false });
    assert(steps.deep_view() =~= directory_steps(config.deep_view()));
    steps
}

/// The stage's options as the configuration gives them: each from its key.
/// Of the options that cannot be read, the first in this order fails them
/// all.
pub open spec fn configured(c: ConfigView) -> Result<DirectoriesConfigView, BuildErrorView> {
    let build_dir = text_in(c, "build-dir"@);
    let nanocore = text_in(c, "directories.nanocore"@);
    let isofiles = text_in(c, "directories.isofiles"@);
    let modules = text_in(c, "directories.modules"@);
    let deps = text_in(c, "directories.deps"@);
    let target = text_in(c, "directories.target"@);
    let extracted_rlibs = text_in(c, "directories.extracted-rlibs"@);
    let debug_symbols = text_in(c, "directories.debug-symbols"@);
    if build_dir is Err {
        Err(build_dir->Err_0)
    } else if nanocore is Err {
        Err(nanocore->Err_0)
    } else if isofiles is Err {
        Err(isofiles->Err_0)
    } else if modules is Err {
        Err(modules->Err_0)
    } else if deps is Err {
        Err(deps->Err_0)
    } else if target is Err {
        Err(target->Err_0)
    } else if extracted_rlibs is Err {
        Err(extracted_rlibs->Err_0)
    } else if debug_symbols is Err {
        Err(debug_symbols->Err_0)
    } else {
        Ok(
            DirectoriesConfigView {
                build_dir: build_dir->Ok_0,
                nanocore: nanocore->Ok_0,
                isofiles: isofiles->Ok_0,
                modules: modules->Ok_0,
                deps: deps->Ok_0,
                target: target->Ok_0,
                extracted_rlibs: extracted_rlibs->Ok_0,
                debug_symbols: debug_symbols->Ok_0,
            },
        )
    }
}

/// Reads the stage's options from the configuration.
pub fn from_config(config: &Config) -> (r: Result<DirectoriesConfig, BuildError>)
    ensures
        match r {
            Ok(read) => configured(config.deep_view()) == Ok::<DirectoriesConfigView, BuildErrorView>(
                read.deep_view(),
            ),
            Err(e) => configured(config.deep_view()) == Err::<DirectoriesConfigView, BuildErrorView>(
                e.deep_view(),
            ),
        },
{
    let build_dir = match config.str("build-dir") {
        Ok(value) => value,
        Err(e) => {
            return Err(e);
        },
    };
    let nanocore = match config.str("directories.nanocore") {
        Ok(value) => value,
        Err(e) => {
            return Err(e);
        },
    };
    let isofiles = match config.str("directories.isofiles") {
        Ok(value) => value,
        Err(e) => {
            return Err(e);
        },
    };
    let modules = match config.str("directories.modules") {
        Ok(value) => value,
        Err(e) => {
            return Err(e);
        },
    };
    let deps = match config.str("directories.deps") {
        Ok(value) => value,
        Err(e) => {
            return Err(e);
        },
    };
    let target = match config.str("directories.target") {
        Ok(value) => value,
        Err(e) => {
            return Err(e);
        },
    };
    let extracted_rlibs = match config.str("directories.extracted-rlibs") {
        Ok(value) => value,
        Err(e) => {
            return Err(e);
        },
    };
    let debug_symbols = match config.str("directories.debug-symbols") {
        Ok(value) => value,
        Err(e) => {
            return Err(e);
        },
    };
    Ok(
        DirectoriesConfig {
            build_dir,
            nanocore,
            isofiles,
            modules,
            deps,
            target,
            extracted_rlibs,
            debug_symbols,
        },
    )
}

} // verus!
