//! Assembles the kernel's start-up code and links the kernel binary.

use crate::error::{BuildError, BuildErrorView};
use crate::options::{text_in, Config, ConfigView};
use crate::plan::{run_step, tool, Step, StepView};
use crate::text::{before_text, contains_text, join, path_join, split_at_text};
use vstd::prelude::*;

verus! {

/// What the stage is configured with.
#[derive(Debug, Clone, PartialEq, Eq)]
pub struct LinkNanocoreConfig {
    /// The directory that receives the assembled objects.
    pub nanocore_dir: String,
    pub arch: String,
    pub linker: String,
    /// The kernel's static library.
    pub static_lib: String,
    /// The directory of the assembly sources.
    pub asm_sources_dir: String,
    /// The kernel binary to link.
    pub nanocore_bin: String,
    pub linker_script: String,
}

pub struct LinkNanocoreConfigView {
    pub nanocore_dir: Seq<char>,
    pub arch: Seq<char>,
    pub linker: Seq<char>,
    pub static_lib: Seq<char>,
    pub asm_sources_dir: Seq<char>,
    pub nanocore_bin: Seq<char>,
    pub linker_script: Seq<char>,
}

impl DeepView for LinkNanocoreConfig {
    type V = LinkNanocoreConfigView;

    open spec fn deep_view(&self) -> LinkNanocoreConfigView {
        LinkNanocoreConfigView {
            nanocore_dir: self.nanocore_dir@,
            arch: self.arch@,
            linker: self.linker@,
            static_lib: self.static_lib@,
            asm_sources_dir: self.asm_sources_dir@,
            nanocore_bin: self.nanocore_bin@,
            linker_script: self.linker_script@,
        }
    }
}

/// The ending of an assembly source's name.
pub open spec fn asm_ending() -> Seq<char> {
    ".asm"@
}

/// The assembly sources of a listing, each by what stands before the first
/// `.asm` in its name, in listing order.
pub open spec fn asm_entries(listing: Seq<(Seq<char>, bool)>) -> Seq<Seq<char>>
    decreases listing.len(),
{
    if listing.len() == 0 {
        Seq::empty()
    } else {
        let earlier = asm_entries(listing.drop_last());
        if contains_text(listing.last().0, asm_ending()) {
            earlier.push(before_text(listing.last().0, asm_ending()))
        } else {
            earlier
        }
    }
}

/// The object that the source `entry` is assembled into.
pub open spec fn asm_object(cfg: LinkNanocoreConfigView, entry: Seq<char>) -> Seq<char> {
    path_join(cfg.nanocore_dir, "asm_"@ + entry + "_"@ + cfg.arch + ".o"@)
}

/// The call that assembles the source `entry`.
pub open spec fn asm_step(stage: Seq<char>, cfg: LinkNanocoreConfigView, entry: Seq<char>) -> StepView {
    run_step(
        stage,
        "nasm"@,
        seq![
            "-f"@,
            "elf64"@,
            "-i"@,
            cfg.asm_sources_dir,
            path_join(cfg.asm_sources_dir, entry + ".asm"@),
            "-o"@,
            asm_object(cfg, entry),
        ],
    )
}

/// The calls that assemble the sources, in order.
pub open spec fn asm_steps(stage: Seq<char>, cfg: LinkNanocoreConfigView, entries: Seq<Seq<char>>) -> Seq<StepView> {
    Seq::new(entries.len(), |i: int| asm_step(stage, cfg, entries[i]))
}

/// The assembled objects, in order.
pub open spec fn asm_objects(cfg: LinkNanocoreConfigView, entries: Seq<Seq<char>>) -> Seq<Seq<char>> {
    Seq::new(entries.len(), |i: int| asm_object(cfg, entries[i]))
}

/// The call that links the kernel binary from the assembled objects and the
/// static library.
pub open spec fn link_step(stage: Seq<char>, cfg: LinkNanocoreConfigView, entries: Seq<Seq<char>>) -> StepView {
    run_step(
        stage,
        cfg.linker,
        seq!["-n"@, "-T"@, cfg.linker_script, "-o"@, cfg.nanocore_bin] + asm_objects(cfg, entries)
            + seq![cfg.static_lib],
    )
}

/// The steps of the stage: assemble every source, then link.
pub open spec fn link_steps(stage: Seq<char>, cfg: LinkNanocoreConfigView, entries: Seq<Seq<char>>) -> Seq<StepView> {
    asm_steps(stage, cfg, entries).push(link_step(stage, cfg, entries))
}

/// Picks the assembly sources from a listing.
pub fn asm_sources(listing: &[(String, bool)]) -> (entries: Vec<String>)
    ensures
        entries.deep_view() == asm_entries(listing.deep_view()),
{
    let mut entries: Vec<String> = Vec::new();
    let n = listing.len();
    let mut i: usize = 0;
    assert(listing.deep_view().take(0) =~= Seq::empty());
    while i < n
        invariant
            n == listing.len(),
            i <= n,
            entries.deep_view() == asm_entries(listing.deep_view().take(i as int)),
        decreases n - i,
    {
        let ghost lv = listing.deep_view();
        let ghost before = entries.deep_view();
        assert(lv.take(i + 1).drop_last() =~= lv.take(i as int));
        assert(lv.take(i + 1).last() == lv[i as int]);
        let item = &listing[i];
        assert(item.deep_view() == lv[i as int]);
        match split_at_text(item.0.as_str(), ".asm") {
            Some((entry, _)) => {
                entries.push(entry);
                assert(entries.deep_view() =~= before.push(before_text(lv[i as int].0, asm_ending())));
            },
            None => {},
        }
        i += 1;
    }
    assert(listing.deep_view().take(n as int) =~= listing.deep_view());
    entries
}

/// Plans the steps of the stage under the name `stage`.
pub fn plan_link(stage: &str, config: &LinkNanocoreConfig, asm_listing: &[(String, bool)]) -> (steps:
    Vec<Step>)
    ensures
        steps.deep_view() == link_steps(
            stage@,
            config.deep_view(),
            asm_entries(asm_listing.deep_view()),
        ),
{
    let ghost cfg = config.deep_view();
    let entries = asm_sources(asm_listing);
    let ghost ev = entries.deep_view();
    let mut steps: Vec<Step> = Vec::new();
    let mut link_args: Vec<String> = Vec::new();
    link_args.push("-n".to_owned());
    link_args.push("-T".to_owned());
    link_args.push(config.linker_script.clone());
    link_args.push("-o".to_owned());
    link_args.push(config.nanocore_bin.clone());
    let ghost head = seq!["-n"@, "-T"@, cfg.linker_script, "-o"@, cfg.nanocore_bin];
    assert(link_args.deep_view() =~= head + asm_objects(cfg, ev.take(0)));
    let n = entries.len();
    let mut i: usize = 0;
    assert(steps.deep_view() =~= asm_steps(stage@, cfg, ev.take(0)));
    while i < n
        invariant
            n == entries.len(),
            i <= n,
            ev == entries.deep_view(),
            cfg == config.deep_view(),
            head == seq!["-n"@, "-T"@, cfg.linker_script, "-o"@, cfg.nanocore_bin],
            steps.deep_view() == asm_steps(stage@, cfg, ev.take(i as int)),
            link_args.deep_view() == head + asm_objects(cfg, ev.take(i as int)),
        decreases n - i,
    {
        let ghost s0 = steps.deep_view();
        let ghost a0 = link_args.deep_view();
        let entry = entries[i].as_str();
        let mut source = entry.to_owned();
        source.append(".asm");
        let input = join(config.asm_sources_dir.as_str(), source.as_str());
        let mut object = "asm_".to_owned();
        object.append(entry);
        object.append("_");
        object.append(config.arch.as_str());
        object.append(".o");
        let output = join(config.nanocore_dir.as_str(), object.as_str());
        assert(output@ == asm_object(cfg, ev[i as int]));
        let mut args: Vec<String> = Vec::new();
        args.push("-f".to_owned());
        args.push("elf64".to_owned());
        args.push("-i".to_owned());
        args.push(config.asm_sources_dir.clone());
        args.push(input);
        args.push("-o".to_owned());
        args.push(output.clone());
        assert(args.deep_view() =~= seq![
            "-f"@,
            "elf64"@,
            "-i"@,
            cfg.asm_sources_dir,
            path_join(cfg.asm_sources_dir, ev[i as int] + ".asm"@),
            "-o"@,
            asm_object(cfg, ev[i as int]),
        ]);
        steps.push(Step::Run(tool(stage, "nasm", args)));
        link_args.push(output);
        assert(steps.deep_view() =~= s0.push(asm_step(stage@, cfg, ev[i as int])));
        assert(steps.deep_view() =~= asm_steps(stage@, cfg, ev.take(i + 1)));
        assert(link_args.deep_view() =~= a0.push(asm_object(cfg, ev[i as int])));
        assert(link_args.deep_view() =~= head + asm_objects(cfg, ev.take(i + 1)));
        i += 1;
    }
    assert(ev.take(n as int) =~= ev);
    let ghost a1 = link_args.deep_view();
    link_args.push(config.static_lib.clone());
    assert(link_args.deep_view() =~= a1 + seq![cfg.static_lib]);
    let ghost s1 = steps.deep_view();
    steps.push(Step::Run(tool(stage, config.linker.as_str(), link_args)));
    assert(steps.deep_view() =~= s1.push(link_step(stage@, cfg, ev)));
    steps
}

/// Plans the stage: one call of the assembler for every entry of the source
/// directory's listing whose name holds `.asm`, in listing order, then the
/// link of the kernel binary.
pub fn process(config: &LinkNanocoreConfig, asm_listing: &[(String, bool)]) -> (steps: Vec<Step>)
    ensures
        steps.deep_view() == link_steps(
            "link-nanocore"@,
            config.deep_view(),
            asm_entries(asm_listing.deep_view()),
        ),
{
    plan_link("link-nanocore", config, asm_listing)
}

/// The stage's options as the configuration gives them: each from its key.
/// Of the options that cannot be read, the first in this order fails them
/// all.
pub open spec fn configured(c: ConfigView) -> Result<LinkNanocoreConfigView, BuildErrorView> {
    let nanocore_dir = text_in(c, "directories.nanocore"@);
    let arch = text_in(c, "arch"@);
    let linker = text_in(c, "link-nanocore.linker"@);
    let static_lib = text_in(c, "link-nanocore.static-lib-path"@);
    let asm_sources_dir = text_in(c, "link-nanocore.asm-sources-dir"@);
    let nanocore_bin = text_in(c, "nanocore-path"@);
    let linker_script = text_in(c, "link-nanocore.linker-script-path"@);
    if nanocore_dir is Err {
        Err(nanocore_dir->Err_0)
    } else if arch is Err {
        Err(arch->Err_0)
    } else if linker is Err {
        Err(linker->Err_0)
    } else if static_lib is Err {
        Err(static_lib->Err_0)
    } else if asm_sources_dir is Err {
        Err(asm_sources_dir->Err_0)
    } else if nanocore_bin is Err {
        Err(nanocore_bin->Err_0)
    } else if linker_script is Err {
        Err(linker_script->Err_0)
    } else {
        Ok(
            LinkNanocoreConfigView {
                nanocore_dir: nanocore_dir->Ok_0,
                arch: arch->Ok_0,
                linker: linker->Ok_0,
                static_lib: static_lib->Ok_0,
                asm_sources_dir: asm_sources_dir->Ok_0,
                nanocore_bin: nanocore_bin->Ok_0,
                linker_script: linker_script->Ok_0,
            },
        )
    }
}

/// Reads the stage's options from the configuration.
pub fn from_config(config: &Config) -> (r: Result<LinkNanocoreConfig, BuildError>)
    ensures
        match r {
            Ok(read) => configured(config.deep_view()) == Ok::<LinkNanocoreConfigView, BuildErrorView>(
                read.deep_view(),
            ),
            Err(e) => configured(config.deep_view()) == Err::<LinkNanocoreConfigView, BuildErrorView>(
                e.deep_view(),
            ),
        },
{
    let nanocore_dir = match config.str("directories.nanocore") {
        Ok(value) => value,
        Err(e) => {
            return Err(e);
        },
    };
    let arch = match config.str("arch") {
        Ok(value) => value,
        Err(e) => {
            return Err(e);
        },
    };
    let linker = match config.str("link-nanocore.linker") {
        Ok(value) => value,
        Err(e) => {
            return Err(e);
        },
    };
    let static_lib = match config.str("link-nanocore.static-lib-path") {
        Ok(value) => value,
        Err(e) => {
            return Err(e);
        },
    };
    let asm_sources_dir = match config.str("link-nanocore.asm-sources-dir") {
        Ok(value) => value,
        Err(e) => {
            return Err(e);
        },
    };
    let nanocore_bin = match config.str("nanocore-path") {
        Ok(value) => value,
        Err(e) => {
            return Err(e);
        },
    };
    let linker_script = match config.str("link-nanocore.linker-script-path") {
        Ok(value) => value,
        Err(e) => {
            return Err(e);
        },
    };
    Ok(
        LinkNanocoreConfig {
            nanocore_dir,
            arch,
            linker,
            static_lib,
            asm_sources_dir,
            nanocore_bin,
            linker_script,
        },
    )
}

} // verus!
