use osbuild::artifact::{
    CandidateDir, DepsArtifact, FileInfo, FilePath, ObjectArtifact, ObjectWithDeps,
};
use osbuild::copy_crate_objects::{
    apps_source_path, copy_files, input_dirs, kernel_source_path, plan_copies, process,
    CopyCrateObjectsConfig, ScannedDir,
};
use osbuild::scan::{parse_input_dir, Selection};
use osbuild::crate_set::{populate_crates_from_file, CrateKind, CrateSource};
use osbuild::error::BuildError;
use osbuild::plan::Step;

fn strings(items: &[&str]) -> Vec<String> {
    items.iter().map(|s| s.to_string()).collect()
}

fn file(name: &str, modified: u64) -> FileInfo {
    FileInfo { name: name.to_string(), is_file: true, modified }
}

fn dir(path: &str, files: Vec<FileInfo>) -> CandidateDir {
    CandidateDir { path: path.to_string(), files }
}

fn path(dir: &str, name: &str) -> FilePath {
    FilePath { dir: dir.to_string(), name: name.to_string() }
}

fn artifact(crate_name: &str, dir: &str, stem: &str, modified: u64) -> ObjectArtifact {
    ObjectArtifact {
        crate_name: crate_name.to_string(),
        file_stem: stem.to_string(),
        file: path(dir, &format!("{}.o", stem)),
        last_modified: modified,
    }
}

fn with_deps(crate_name: &str, dir: &str, stem: &str, modified: u64) -> ObjectWithDeps {
    ObjectWithDeps {
        object: artifact(crate_name, dir, stem, modified),
        deps: DepsArtifact {
            rmeta: path(dir, &format!("lib{}.rmeta", stem)),
            rlib: path(dir, &format!("lib{}.rlib", stem)),
        },
    }
}

fn sets() -> (osbuild::crate_set::CrateSet, osbuild::crate_set::CrateSet) {
    let apps = populate_crates_from_file(CrateKind::Application, &strings(&["shell", "both"]));
    let kernel = populate_crates_from_file(CrateKind::Kernel, &strings(&["memory", "both"]));
    (apps, kernel)
}

#[test]
fn the_freshest_candidate_of_a_crate_is_kept() {
    let (apps, kernel) = sets();
    let dirs = vec![
        dir("/t1", vec![file("memory-aaa.o", 10), file("memory-bbb.o", 30)]),
        dir("/t2", vec![file("memory-ccc.o", 20)]),
    ];
    let sel = parse_input_dir(&apps, &kernel, &dirs);
    assert_eq!(sel.apps, vec![]);
    assert_eq!(sel.other, vec![]);
    assert_eq!(sel.kernel, vec![with_deps("memory", "/t1", "memory-bbb", 30)]);
}

#[test]
fn the_freshest_candidate_is_kept_wherever_it_stands() {
    let (apps, kernel) = sets();
    let first = vec![dir("/t", vec![file("shell-a.o", 9), file("shell-b.o", 5), file("shell-c.o", 7)])];
    let last = vec![dir("/t", vec![file("shell-a.o", 5), file("shell-b.o", 7), file("shell-c.o", 9)])];
    let middle = vec![dir("/t", vec![file("shell-a.o", 5), file("shell-b.o", 9), file("shell-c.o", 7)])];
    assert_eq!(parse_input_dir(&apps, &kernel, &first).apps, vec![artifact("shell", "/t", "shell-a", 9)]);
    assert_eq!(parse_input_dir(&apps, &kernel, &last).apps, vec![artifact("shell", "/t", "shell-c", 9)]);
    assert_eq!(parse_input_dir(&apps, &kernel, &middle).apps, vec![artifact("shell", "/t", "shell-b", 9)]);
}

#[test]
fn of_equally_fresh_candidates_the_first_is_kept() {
    let (apps, kernel) = sets();
    let dirs = vec![
        dir("/t1", vec![file("shell-one.o", 7), file("shell-two.o", 7)]),
        dir("/t2", vec![file("shell-three.o", 7), file("shell-four.o", 6)]),
    ];
    let sel = parse_input_dir(&apps, &kernel, &dirs);
    assert_eq!(sel.apps, vec![artifact("shell", "/t1", "shell-one", 7)]);
}

#[test]
fn a_later_tie_with_a_new_maximum_does_not_displace_it() {
    let (apps, kernel) = sets();
    let dirs = vec![dir(
        "/t",
        vec![file("shell-a.o", 1), file("shell-b.o", 4), file("shell-c.o", 4), file("shell-d.o", 2)],
    )];
    let sel = parse_input_dir(&apps, &kernel, &dirs);
    assert_eq!(sel.apps, vec![artifact("shell", "/t", "shell-b", 4)]);
}

#[test]
fn crates_are_sorted_into_applications_kernel_and_the_rest() {
    let (apps, kernel) = sets();
    let dirs = vec![dir(
        "/out",
        vec![
            file("core-11.o", 1),
            file("shell-22.o", 2),
            file("memory-33.o", 3),
            file("both-44.o", 4),
            file("serde-55.o", 5),
        ],
    )];
    let sel = parse_input_dir(&apps, &kernel, &dirs);
    assert_eq!(
        sel.apps,
        vec![artifact("shell", "/out", "shell-22", 2), artifact("both", "/out", "both-44", 4)]
    );
    assert_eq!(sel.kernel, vec![with_deps("memory", "/out", "memory-33", 3)]);
    assert_eq!(
        sel.other,
        vec![with_deps("core", "/out", "core-11", 1), with_deps("serde", "/out", "serde-55", 5)]
    );
}

#[test]
fn crates_stand_in_the_order_in_which_they_are_first_met() {
    let (apps, kernel) = sets();
    let dirs = vec![
        dir("/a", vec![file("zeta-1.o", 1), file("alpha-1.o", 1)]),
        dir("/b", vec![file("alpha-2.o", 9), file("mid-1.o", 1), file("zeta-2.o", 9)]),
    ];
    let sel = parse_input_dir(&apps, &kernel, &dirs);
    assert_eq!(
        sel.other,
        vec![
            with_deps("zeta", "/b", "zeta-2", 9),
            with_deps("alpha", "/b", "alpha-2", 9),
            with_deps("mid", "/b", "mid-1", 1),
        ]
    );
}

#[test]
fn only_regular_files_that_end_like_objects_are_candidates() {
    let (apps, kernel) = sets();
    let dirs = vec![dir(
        "/out",
        vec![
            FileInfo { name: "shell-dir.o".to_string(), is_file: false, modified: 99 },
            file("shell-1.rlib", 98),
            file("shell-1.o.d", 97),
            file("o", 96),
            file(".o", 3),
            file("shell.o", 2),
        ],
    )];
    let sel = parse_input_dir(&apps, &kernel, &dirs);
    assert_eq!(sel.apps, vec![]);
    assert_eq!(
        sel.other,
        vec![with_deps(".o", "/out", "", 3), with_deps("shell.o", "/out", "shell", 2)]
    );
}

#[test]
fn the_stem_is_the_name_without_its_ending() {
    let (apps, kernel) = sets();
    let dirs = vec![dir("/out", vec![file("a.o-b.o", 1)])];
    let sel = parse_input_dir(&apps, &kernel, &dirs);
    assert_eq!(sel.other.len(), 1);
    assert_eq!(sel.other[0].object.crate_name, "a.o");
    assert_eq!(sel.other[0].object.file_stem, "a.o-b");
    assert_eq!(sel.other[0].deps.rmeta.name, "liba.o-b.rmeta");
    assert_eq!(sel.other[0].deps.rlib.name, "liba.o-b.rlib");
    assert_eq!(sel.other[0].deps.rlib.dir, "/out");
    assert_eq!(sel.other[0].object.file.full(), "/out/a.o-b.o");
}

#[test]
fn nothing_scanned_gives_nothing() {
    let (apps, kernel) = sets();
    let sel = parse_input_dir(&apps, &kernel, &vec![]);
    assert_eq!(sel, Selection { apps: vec![], kernel: vec![], other: vec![] });
    let sel = parse_input_dir(&apps, &kernel, &vec![dir("/empty", vec![])]);
    assert_eq!(sel, Selection { apps: vec![], kernel: vec![], other: vec![] });
}

#[test]
fn a_copy_is_renamed_by_the_prefix_only() {
    let files = vec![path("/out/deps", "shell-22.o"), path("/other", "ls-1.o")];
    let steps = copy_files("/build/modules", &files, "a#");
    assert_eq!(
        steps,
        vec![
            Step::CopyIfPresent {
                from: "/out/deps/shell-22.o".to_string(),
                to: "/build/modules/a#shell-22.o".to_string(),
            },
            Step::CopyIfPresent {
                from: "/other/ls-1.o".to_string(),
                to: "/build/modules/a#ls-1.o".to_string(),
            },
        ]
    );
    assert_eq!(copy_files("/x", &vec![], "p"), vec![]);
    assert_eq!(
        copy_files("/x", &vec![path("/d", "f")], ""),
        vec![Step::CopyIfPresent { from: "/d/f".to_string(), to: "/x/f".to_string() }]
    );
}

fn config() -> CopyCrateObjectsConfig {
    CopyCrateObjectsConfig {
        theseus_root: "/src".to_string(),
        build_dir: "/build".to_string(),
        kernel_prefix: "k#".to_string(),
        apps_prefix: "a#".to_string(),
        target: "x86_64-theseus".to_string(),
        build_mode: "release".to_string(),
        extra_target_dirs: strings(&["/extra/one", "/extra/two"]),
        extra_apps: strings(&["libtest"]),
        debug_crate_objects: false,
    }
}

fn copy(from: &str, to: &str) -> Step {
    Step::CopyIfPresent { from: from.to_string(), to: to.to_string() }
}

#[test]
fn the_scanned_directories_end_with_the_builds_own() {
    let cfg = config();
    assert_eq!(
        input_dirs(&cfg),
        strings(&[
            "/extra/one/x86_64-theseus/release/deps",
            "/extra/two/x86_64-theseus/release/deps",
            "/build/target/x86_64-theseus/release/deps",
        ])
    );
    assert_eq!(kernel_source_path(&cfg), "/src/kernel");
    assert_eq!(apps_source_path(&cfg), "/src/applications");
}

#[test]
fn the_copies_go_class_by_class() {
    let cfg = config();
    let sel = Selection {
        apps: vec![artifact("shell", "/o", "shell-1", 1)],
        kernel: vec![with_deps("memory", "/o", "memory-2", 2)],
        other: vec![with_deps("core", "/o", "core-3", 3), with_deps("serde", "/p", "serde-4", 4)],
    };
    let steps = plan_copies(&cfg, &sel);
    let sysroot = "/build/deps/sysroot/lib/rustlib/x86_64-theseus/lib";
    assert_eq!(
        steps,
        vec![
            copy("/o/shell-1.o", "/build/isofiles/modules/a#shell-1.o"),
            copy("/o/memory-2.o", "/build/isofiles/modules/k#memory-2.o"),
            copy("/o/core-3.o", "/build/isofiles/modules/k#core-3.o"),
            copy("/p/serde-4.o", "/build/isofiles/modules/k#serde-4.o"),
            copy("/o/libmemory-2.rmeta", "/build/deps/libmemory-2.rmeta"),
            copy("/o/libmemory-2.rlib", "/build/deps/libmemory-2.rlib"),
            copy("/o/libcore-3.rmeta", "/build/deps/libcore-3.rmeta"),
            copy("/o/libcore-3.rlib", "/build/deps/libcore-3.rlib"),
            copy("/p/libserde-4.rmeta", "/build/deps/libserde-4.rmeta"),
            copy("/p/libserde-4.rlib", "/build/deps/libserde-4.rlib"),
            Step::CreateDir { path: sysroot.to_string(), all: true },
            copy("/o/libcore-3.rmeta", &format!("{}/libcore-3.rmeta", sysroot)),
            copy("/o/libcore-3.rlib", &format!("{}/libcore-3.rlib", sysroot)),
        ]
    );
}

#[test]
fn the_sysroot_takes_the_four_foundational_crates() {
    let cfg = config();
    let sel = Selection {
        apps: vec![],
        kernel: vec![with_deps("core", "/k", "core-0", 1)],
        other: vec![
            with_deps("alloc", "/o", "alloc-1", 1),
            with_deps("allocator", "/o", "allocator-2", 1),
            with_deps("compiler_builtins", "/o", "compiler_builtins-3", 1),
            with_deps("rustc_std_workspace_core", "/o", "rustc_std_workspace_core-4", 1),
            with_deps("core", "/o", "core", 1),
        ],
    };
    let steps = plan_copies(&cfg, &sel);
    let sysroot = "/build/deps/sysroot/lib/rustlib/x86_64-theseus/lib";
    let at = steps
        .iter()
        .position(|s| matches!(s, Step::CreateDir { .. }))
        .unwrap();
    let names: Vec<String> = steps[at + 1..]
        .iter()
        .map(|s| match s {
            Step::CopyIfPresent { to, .. } => to.clone(),
            _ => panic!("not a copy"),
        })
        .collect();
    assert_eq!(
        names,
        vec![
            format!("{}/liballoc-1.rmeta", sysroot),
            format!("{}/liballoc-1.rlib", sysroot),
            format!("{}/libcompiler_builtins-3.rmeta", sysroot),
            format!("{}/libcompiler_builtins-3.rlib", sysroot),
            format!("{}/librustc_std_workspace_core-4.rmeta", sysroot),
            format!("{}/librustc_std_workspace_core-4.rlib", sysroot),
        ]
    );
}

#[test]
fn the_stage_resolves_scans_and_plans() {
    let cfg = config();
    let kernel = CrateSource::ListFile { lines: strings(&["memory-x"]) };
    let apps = CrateSource::ListFile { lines: strings(&["shell"]) };
    let dirs = vec![ScannedDir::Listed(dir(
        "/build/target/x86_64-theseus/release/deps",
        vec![file("libtest-9.o", 1), file("memory-1.o", 5), file("memory-2.o", 6)],
    ))];
    let plan = process(&cfg, &kernel, &apps, &dirs).unwrap();
    let d = "/build/target/x86_64-theseus/release/deps";
    assert_eq!(plan.selection.apps, vec![artifact("libtest", d, "libtest-9", 1)]);
    assert_eq!(plan.selection.kernel, vec![with_deps("memory", d, "memory-2", 6)]);
    assert_eq!(plan.steps, plan_copies(&cfg, &plan.selection));
    assert_eq!(
        plan.steps[0],
        copy(&format!("{}/libtest-9.o", d), "/build/isofiles/modules/a#libtest-9.o")
    );
}

#[test]
fn the_stage_fails_with_the_kernels_source_first() {
    let cfg = config();
    let gone_k = CrateSource::Missing { path: "/src/kernel".to_string() };
    let gone_a = CrateSource::Missing { path: "/src/applications".to_string() };
    let fine = CrateSource::ListFile { lines: vec![] };
    let none: Vec<ScannedDir> = vec![];
    assert_eq!(
        process(&cfg, &gone_k, &gone_a, &none).err(),
        Some(BuildError::NotFound { path: "/src/kernel".to_string() })
    );
    assert_eq!(
        process(&cfg, &fine, &gone_a, &none).err(),
        Some(BuildError::NotFound { path: "/src/applications".to_string() })
    );
}

#[test]
fn a_directory_that_cannot_be_listed_fails_the_stage() {
    let cfg = config();
    let fine = CrateSource::ListFile { lines: vec![] };
    let gone = CrateSource::Missing { path: "/src/applications".to_string() };
    let dirs = vec![
        ScannedDir::Listed(dir("/a", vec![file("x-1.o", 1)])),
        ScannedDir::Unreadable { path: "/b".to_string() },
        ScannedDir::Unreadable { path: "/c".to_string() },
    ];
    assert_eq!(
        process(&cfg, &fine, &fine, &dirs).err(),
        Some(BuildError::UnreadableDirectory { path: "/b".to_string() })
    );
    assert_eq!(
        process(&cfg, &fine, &gone, &dirs).err(),
        Some(BuildError::NotFound { path: "/src/applications".to_string() })
    );
}

#[test]
fn every_failure_says_what_went_wrong() {
    let s = |t: &str| t.to_string();
    assert_eq!(BuildError::NotFound { path: s("/k") }.message(), "couldn't access /k");
    assert_eq!(
        BuildError::UnreadableDirectory { path: s("/d") }.message(),
        "failed to list directory `/d`"
    );
    assert_eq!(BuildError::UnknownStage { name: s("x") }.message(), "unknown stage \"x\"");
    assert_eq!(
        BuildError::StageRangeReversed { group: s("b..a") }.message(),
        "the stages of \"b..a\" are the wrong way round"
    );
    assert_eq!(
        BuildError::UnknownBootloader { name: s("lilo") }.message(),
        "unknown bootloader lilo; must be \"grub\" or \"limine\""
    );
    assert_eq!(
        BuildError::UnsupportedDownloader { name: s("fetch") }.message(),
        "unsupported downloader: fetch; must be wget or curl."
    );
    assert_eq!(
        BuildError::InvalidBuildMode { mode: s("fast") }.message(),
        "build-mode must be \"debug\" or \"release\", not \"fast\""
    );
    assert_eq!(
        BuildError::ToolFailed { stage: s("relink-objects"), binary: s("ld") }.message(),
        "ld invocation failed"
    );
    assert_eq!(
        BuildError::ModuleTooLarge { name: s("big.o") }.message(),
        "module big.o is too large for the module archive"
    );
    assert_eq!(
        BuildError::InvalidMemberName { archive: s("liba.rlib") }.message(),
        "a member of liba.rlib has a name that is not text"
    );
    assert_eq!(BuildError::ArchiveNotWritten.message(), "the module archive could not be written");
    assert_eq!(BuildError::EmptyOptionPath.message(), "invalid override key");
}

#[test]
fn the_order_of_the_directories_does_not_decide_without_ties() {
    let (apps, kernel) = sets();
    let one = dir("/one", vec![file("memory-a.o", 3), file("shell-a.o", 9), file("core-a.o", 1)]);
    let two = dir("/two", vec![file("shell-b.o", 4), file("memory-b.o", 8), file("core-b.o", 2)]);
    let forth = parse_input_dir(&apps, &kernel, &vec![one.clone(), two.clone()]);
    let back = parse_input_dir(&apps, &kernel, &vec![two, one]);
    assert_eq!(forth.apps, back.apps);
    assert_eq!(forth.kernel, back.kernel);
    assert_eq!(forth.other, back.other);
    assert_eq!(forth.apps, vec![artifact("shell", "/one", "shell-a", 9)]);
    assert_eq!(forth.kernel, vec![with_deps("memory", "/two", "memory-b", 8)]);
    assert_eq!(forth.other, vec![with_deps("core", "/two", "core-b", 2)]);
}
