use osbuild::build_cells::BuildCellsConfig;
use osbuild::text::join_with;
use osbuild::directories::DirectoriesConfig;
use osbuild::error::BuildError;
use osbuild::link_nano_core::{derive_layout, LinkNanoCoreConfig};
use osbuild::link_nanocore::{asm_sources, LinkNanocoreConfig};
use osbuild::plan::{tool, Invocation, Step};
use osbuild::run_qemu::RunQemuConfig;

fn strings(items: &[&str]) -> Vec<String> {
    items.iter().map(|s| s.to_string()).collect()
}

#[test]
fn the_build_directories_are_made_root_first() {
    let cfg = DirectoriesConfig {
        build_dir: "/b".to_string(),
        nanocore: "/b/nanocore".to_string(),
        isofiles: "/b/isofiles".to_string(),
        modules: "/b/isofiles/modules".to_string(),
        deps: "/b/deps".to_string(),
        target: "/b/target".to_string(),
        extracted_rlibs: "/b/extracted".to_string(),
        debug_symbols: "/b/debug".to_string(),
    };
    let paths: Vec<String> = osbuild::directories::process(&cfg)
        .into_iter()
        .map(|s| match s {
            Step::CreateDir { path, all: false } => path,
            _ => panic!("only plain directories are made"),
        })
        .collect();
    assert_eq!(
        paths,
        strings(&[
            "/b",
            "/b/nanocore",
            "/b/isofiles",
            "/b/isofiles/modules",
            "/b/deps",
            "/b/target",
            "/b/extracted",
            "/b/debug",
        ])
    );
}

#[test]
fn the_emulator_gets_the_configured_arguments() {
    let cfg = RunQemuConfig { qemu: "qemu-system-x86_64".to_string(), extra_args: strings(&["-m", "512M"]) };
    assert_eq!(
        osbuild::run_qemu::process(&cfg),
        vec![Step::Run(tool("run-qemu", "qemu-system-x86_64", strings(&["-m", "512M"])))]
    );
}

fn build_config(mode: &str) -> BuildCellsConfig {
    BuildCellsConfig {
        target_dir: "/b/target".to_string(),
        cargo: "cargo".to_string(),
        target: "x86_64-theseus".to_string(),
        build_mode: mode.to_string(),
        toolchain: "nightly".to_string(),
        manifest_path: "/src/Cargo.toml".to_string(),
        cargo_flags: strings(&["--features", "x"]),
        rust_flags: strings(&["-C", "prefer-dynamic", "-Z"]),
    }
}

#[test]
fn the_build_goes_through_the_compiler_driver() {
    let steps = osbuild::build_cells::process(&build_config("release")).unwrap();
    assert_eq!(
        steps,
        vec![Step::Run(Invocation {
            stage: "build-cells".to_string(),
            binary: "cargo".to_string(),
            env: vec![("RUSTFLAGS".to_string(), "-C prefer-dynamic -Z".to_string())],
            args: strings(&[
                "+nightly",
                "build",
                "--manifest-path=/src/Cargo.toml",
                "--release",
                "--target-dir",
                "/b/target",
                "--target",
                "x86_64-theseus",
                "--features",
                "x",
            ]),
        })]
    );
    assert!(osbuild::build_cells::process(&build_config("debug")).is_ok());
}

#[test]
fn an_unknown_build_mode_is_refused() {
    assert_eq!(
        osbuild::build_cells::process(&build_config("fast")),
        Err(BuildError::InvalidBuildMode { mode: "fast".to_string() })
    );
    assert_eq!(
        osbuild::build_cells::process(&build_config("")),
        Err(BuildError::InvalidBuildMode { mode: String::new() })
    );
}

#[test]
fn flags_are_joined_with_single_spaces() {
    assert_eq!(join_with(&vec![], " "), "");
    assert_eq!(join_with(&strings(&["a"]), " "), "a");
    assert_eq!(join_with(&strings(&["a", "", "b"]), " "), "a  b");
    assert_eq!(join_with(&strings(&["a", "b", "c"]), "."), "a.b.c");
    assert_eq!(join_with(&strings(&["a", "b"]), ""), "ab");
}

fn link_config() -> LinkNanocoreConfig {
    LinkNanocoreConfig {
        nanocore_dir: "/b/nanocore".to_string(),
        arch: "x86_64".to_string(),
        linker: "ld".to_string(),
        static_lib: "/b/target/libnano_core.a".to_string(),
        asm_sources_dir: "/src/boot".to_string(),
        nanocore_bin: "/b/nanocore/kernel.bin".to_string(),
        linker_script: "/src/boot/link.ld".to_string(),
    }
}

fn listing(names: &[&str]) -> Vec<(String, bool)> {
    names.iter().map(|n| (n.to_string(), false)).collect()
}

#[test]
fn every_assembly_source_is_assembled_before_the_link() {
    let steps = osbuild::link_nanocore::process(&link_config(), &listing(&["boot.asm", "link.ld", "ap.asm"]));
    let nasm = |entry: &str| {
        Step::Run(tool(
            "link-nanocore",
            "nasm",
            vec![
                "-f".to_string(),
                "elf64".to_string(),
                "-i".to_string(),
                "/src/boot".to_string(),
                format!("/src/boot/{}.asm", entry),
                "-o".to_string(),
                format!("/b/nanocore/asm_{}_x86_64.o", entry),
            ],
        ))
    };
    assert_eq!(
        steps,
        vec![
            nasm("boot"),
            nasm("ap"),
            Step::Run(tool(
                "link-nanocore",
                "ld",
                strings(&[
                    "-n",
                    "-T",
                    "/src/boot/link.ld",
                    "-o",
                    "/b/nanocore/kernel.bin",
                    "/b/nanocore/asm_boot_x86_64.o",
                    "/b/nanocore/asm_ap_x86_64.o",
                    "/b/target/libnano_core.a",
                ]),
            )),
        ]
    );
}

#[test]
fn a_source_is_named_by_what_stands_before_its_ending() {
    assert_eq!(
        asm_sources(&listing(&["a.asm", "b.asm.orig", "c.s", ".asm", "d.asmx.asm"])),
        strings(&["a", "b", "", "d"])
    );
    let steps = osbuild::link_nanocore::process(&link_config(), &[]);
    assert_eq!(steps.len(), 1);
}

#[test]
fn the_paths_of_the_kernel_link_follow_from_the_roots() {
    let cfg = LinkNanoCoreConfig {
        theseus_root: "/src".to_string(),
        build_dir: "/b".to_string(),
        arch: "x86_64".to_string(),
        target: "x86_64-theseus".to_string(),
        build_mode: "release".to_string(),
        linker: "ld".to_string(),
    };
    let derived = derive_layout(&cfg);
    assert_eq!(
        derived,
        LinkNanocoreConfig {
            nanocore_dir: "/b/nano_core".to_string(),
            arch: "x86_64".to_string(),
            linker: "ld".to_string(),
            static_lib: "/b/target/x86_64-theseus/release/libnano_core.a".to_string(),
            asm_sources_dir: "/src/kernel/nano_core/src/boot/arch_x86_64".to_string(),
            nanocore_bin: "/b/nano_core/nano_core-x86_64.bin".to_string(),
            linker_script: "/src/kernel/nano_core/src/boot/arch_x86_64/linker_higher_half.ld".to_string(),
        }
    );
    let steps = osbuild::link_nano_core::process(&cfg, &listing(&["boot.asm"]));
    assert_eq!(steps.len(), 2);
    match &steps[0] {
        Step::Run(inv) => {
            assert_eq!(inv.stage, "link-nano_core");
            assert_eq!(inv.args[6], "/b/nano_core/asm_boot_x86_64.o");
        }
        _ => panic!("the assembler runs first"),
    }
}
