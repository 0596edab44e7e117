//! Assembles the kernel's start-up code and links the kernel binary, for a
//! build tree in which every path follows from the roots, the target and the
//! architecture.

use crate::error::{BuildError, BuildErrorView};
use crate::link_nanocore::{
    asm_entries, link_steps, plan_link, LinkNanocoreConfig, LinkNanocoreConfigView,
};
use crate::options::{text_in, Config, ConfigView};
use crate::plan::Step;
use vstd::prelude::*;

verus! {

/// What the stage is configured with.
#[derive(Debug, Clone, PartialEq, Eq)]
pub struct LinkNanoCoreConfig {
    pub theseus_root: String,
    pub build_dir: String,
    pub arch: String,
    /// The name of the build target.
    pub target: String,
    pub build_mode: String,
    pub linker: String,
}

pub struct LinkNanoCoreConfigView {
    pub theseus_root: Seq<char>,
    pub build_dir: Seq<char>,
    pub arch: Seq<char>,
    pub target: Seq<char>,
    pub build_mode: Seq<char>,
    pub linker: Seq<char>,
}

impl DeepView for LinkNanoCoreConfig {
    type V = LinkNanoCoreConfigView;

    open spec fn deep_view(&self) -> LinkNanoCoreConfigView {
        LinkNanoCoreConfigView {
            theseus_root: self.theseus_root@,
            build_dir: self.build_dir@,
            arch: self.arch@,
            target: self.target@,
            build_mode: self.build_mode@,
            linker: self.linker@,
        }
    }
}

/// The directory of the assembly sources.
pub open spec fn asm_sources_dir(cfg: LinkNanoCoreConfigView) -> Seq<char> {
    cfg.theseus_root + "/kernel/nano_core/src/boot/arch_"@ + cfg.arch
}

/// The paths that follow from the configuration.
pub open spec fn layout(cfg: LinkNanoCoreConfigView) -> LinkNanocoreConfigView {
    LinkNanocoreConfigView {
        nanocore_dir: cfg.build_dir + "/nano_core"@,
        arch: cfg.arch,
        linker: cfg.linker,
        static_lib: cfg.build_dir + "/target/"@ + cfg.target + "/"@ + cfg.build_mode
            + "/libnano_core.a"@,
        asm_sources_dir: asm_sources_dir(cfg),
        nanocore_bin: cfg.build_dir + "/nano_core/nano_core-"@ + cfg.arch + ".bin"@,
        linker_script: asm_sources_dir(cfg) + "/linker_higher_half.ld"@,
    }
}

/// Derives the paths of the stage.
pub fn derive_layout(config: &LinkNanoCoreConfig) -> (r: LinkNanocoreConfig)
    ensures
        r.deep_view() == layout(config.deep_view()),
{
    let mut nanocore_dir = config.build_dir.clone();
    nanocore_dir.append("/nano_core");
    let mut static_lib = config.build_dir.clone();
    static_lib.append("/target/");
    static_lib.append(config.target.as_str());
    static_lib.append("/");
    static_lib.append(config.build_mode.as_str());
    static_lib.append("/libnano_core.a");
    let mut asm_dir = config.theseus_root.clone();
    asm_dir.append("/kernel/nano_core/src/boot/arch_");
    asm_dir.append(config.arch.as_str());
    let mut nanocore_bin = config.build_dir.clone();
    nanocore_bin.append("/nano_core/nano_core-");
    nanocore_bin.append(config.arch.as_str());
    nanocore_bin.append(".bin");
    let mut linker_script = asm_dir.clone();
    linker_script.append("/linker_higher_half.ld");
    LinkNanocoreConfig {
        nanocore_dir,
        arch: config.arch.clone(),
        linker: config.linker.clone(),
        static_lib,
        asm_sources_dir: asm_dir,
        nanocore_bin,
        linker_script,
    }
}

/// Plans the stage: one call of the assembler for every entry of the source
/// directory's listing whose name holds `.asm`, in listing order, then the
/// link of the kernel binary.
pub fn process(config: &LinkNanoCoreConfig, asm_listing: &[(String, bool)]) -> (steps: Vec<Step>)
    ensures
        steps.deep_view() == link_steps(
            "link-nano_core"@,
            layout(config.deep_view()),
            asm_entries(asm_listing.deep_view()),
        ),
{
    let derived = derive_layout(config);
    plan_link("link-nano_core", &derived, asm_listing)
}

/// The stage's options as the configuration gives them: each from its key.
/// Of the options that cannot be read, the first in this order fails them
/// all.
pub open spec fn configured(c: ConfigView) -> Result<LinkNanoCoreConfigView, BuildErrorView> {
    let theseus_root = text_in(c, "theseus-root"@);
    let build_dir = text_in(c, "build-dir"@);
    let arch = text_in(c, "arch"@);
    let target = text_in(c, "build-cells.cargo-target-name"@);
    let build_mode = text_in(c, "build-cells.build-mode"@);
    let linker = text_in(c, "link-nano-core.linker"@);
    if theseus_root is Err {
        Err(theseus_root->Err_0)
    } else if build_dir is Err {
        Err(build_dir->Err_0)
    } else if arch is Err {
        Err(arch->Err_0)
    } else if target is Err {
        Err(target->Err_0)
    } else if build_mode is Err {
        Err(build_mode->Err_0)
    } else if linker is Err {
        Err(linker->Err_0)
    } else {
        Ok(
            LinkNanoCoreConfigView {
                theseus_root: theseus_root->Ok_0,
                build_dir: build_dir->Ok_0,
                arch: arch->Ok_0,
                target: target->Ok_0,
                build_mode: build_mode->Ok_0,
                linker: linker->Ok_0,
            },
        )
    }
}

/// Reads the stage's options from the configuration.
pub fn from_config(config: &Config) -> (r: Result<LinkNanoCoreConfig, BuildError>)
    ensures
        match r {
            Ok(read) => configured(config.deep_view()) == Ok::<LinkNanoCoreConfigView, BuildErrorView>(
                read.deep_view(),
            ),
            Err(e) => configured(config.deep_view()) == Err::<LinkNanoCoreConfigView, BuildErrorView>(
                e.deep_view(),
            ),
        },
{
    let theseus_root = match config.str("theseus-root") {
        Ok(value) => value,
        Err(e) => {
            return Err(e);
        },
    };
    let build_dir = match config.str("build-dir") {
        Ok(value) => value,
        Err(e) => {
            return Err(e);
        },
    };
    let arch = match config.str("arch") {
        Ok(value) => value,
        Err(e) => {
            return Err(e);
        },
    };
    let target = match config.str("build-cells.cargo-target-name") {
        Ok(value) => value,
        Err(e) => {
            return Err(e);
        },
    };
    let build_mode = match config.str("build-cells.build-mode") {
        Ok(value) => value,
        Err(e) => {
            return Err(e);
        },
    };
    let linker = match config.str("link-nano-core.linker") {
        Ok(value) => value,
        Err(e) => {
            return Err(e);
        },
    };
    Ok(LinkNanoCoreConfig { theseus_root, build_dir, arch, target, build_mode, linker })
}

} // verus!
