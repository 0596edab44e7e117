use osbuild::plan::{tool, Step};
use osbuild::relink_objects::RelinkObjectsConfig;
use osbuild::strip_objects::StripObjectsConfig;

fn strings(items: &[&str]) -> Vec<String> {
    items.iter().map(|s| s.to_string()).collect()
}

fn listing(names: &[&str]) -> Vec<(String, bool)> {
    names.iter().map(|n| (n.to_string(), false)).collect()
}

fn relink_config() -> RelinkObjectsConfig {
    RelinkObjectsConfig {
        modules_dir: "/build/modules".to_string(),
        partial_relinking_script: "/cfg/partial.ld".to_string(),
        linker: "ld".to_string(),
        stripper: "strip".to_string(),
    }
}

fn relink_job(name: &str) -> Vec<Step> {
    let path = format!("/build/modules/{}", name);
    let tmp = format!("/build/modules/{}-relinked", name);
    vec![
        Step::Run(tool(
            "relink-objects",
            "ld",
            strings(&["-r", "-T", "/cfg/partial.ld", "-o", &tmp, &path]),
        )),
        Step::Rename { from: tmp, to: path.clone() },
        Step::Run(tool(
            "relink-objects",
            "strip",
            strings(&["--wildcard", "--strip-symbol=GCC_except_table*", &path]),
        )),
    ]
}

#[test]
fn each_object_is_relinked_beside_itself_and_moved_back() {
    let jobs = osbuild::relink_objects::process(&relink_config(), &listing(&["k#a.o", "notes.txt", "a#b.o"]));
    assert_eq!(jobs, vec![relink_job("k#a.o"), relink_job("a#b.o")]);
}

#[test]
fn a_directory_without_objects_gives_no_relink_job() {
    let jobs = osbuild::relink_objects::process(&relink_config(), &listing(&["a.rlib", "b"]));
    assert_eq!(jobs, Vec::<Vec<Step>>::new());
    assert_eq!(osbuild::relink_objects::process(&relink_config(), &[]), Vec::<Vec<Step>>::new());
}

#[test]
fn relink_jobs_share_no_file() {
    let jobs = osbuild::relink_objects::process(&relink_config(), &listing(&["a.o", "b.o", "c.o"]));
    let mut written: Vec<String> = Vec::new();
    for job in &jobs {
        match &job[1] {
            Step::Rename { from, to } => {
                assert!(!written.contains(from));
                assert!(!written.contains(to));
                written.push(from.clone());
                written.push(to.clone());
            }
            _ => panic!("the second step is the move"),
        }
    }
    assert_eq!(written.len(), 6);
}

fn strip_config(strip_nanocore: bool) -> StripObjectsConfig {
    StripObjectsConfig {
        nanocore_bin: "kernel.bin".to_string(),
        nanocore_path: "/build/nanocore/kernel.bin".to_string(),
        modules_dir: "/build/modules".to_string(),
        debug_symbols_dir: "/build/debug".to_string(),
        strip_nanocore,
        stripper: "strip".to_string(),
    }
}

fn split_job(path: &str, name: &str) -> Vec<Step> {
    let dbg = format!("/build/debug/{}", name);
    vec![
        Step::Copy { from: path.to_string(), to: dbg.clone() },
        Step::Run(tool("strip-objects", "strip", strings(&["--only-keep-debug", &dbg]))),
        Step::Run(tool("strip-objects", "strip", strings(&["--strip-debug", path]))),
    ]
}

#[test]
fn the_copy_comes_before_both_strip_passes() {
    let jobs = osbuild::strip_objects::process(&strip_config(false), &listing(&["a.o", "x", "b.o"]));
    assert_eq!(
        jobs,
        vec![split_job("/build/modules/a.o", "a.o"), split_job("/build/modules/b.o", "b.o")]
    );
    for job in &jobs {
        assert!(matches!(job[0], Step::Copy { .. }));
        assert!(matches!(job[1], Step::Run(_)));
        assert!(matches!(job[2], Step::Run(_)));
    }
}

#[test]
fn the_kernel_binary_is_split_only_where_asked_for() {
    let with = osbuild::strip_objects::process(&strip_config(true), &listing(&["a.o"]));
    assert_eq!(
        with,
        vec![
            split_job("/build/modules/a.o", "a.o"),
            split_job("/build/nanocore/kernel.bin", "kernel.bin"),
        ]
    );
    let without = osbuild::strip_objects::process(&strip_config(false), &listing(&["a.o"]));
    assert_eq!(without, vec![split_job("/build/modules/a.o", "a.o")]);
    let alone = osbuild::strip_objects::process(&strip_config(true), &[]);
    assert_eq!(alone, vec![split_job("/build/nanocore/kernel.bin", "kernel.bin")]);
}

#[test]
fn split_jobs_share_no_file() {
    let jobs = osbuild::strip_objects::process(&strip_config(true), &listing(&["a.o", "b.o"]));
    let mut touched: Vec<String> = Vec::new();
    for job in &jobs {
        match &job[0] {
            Step::Copy { from, to } => {
                assert!(!touched.contains(from));
                assert!(!touched.contains(to));
                touched.push(from.clone());
                touched.push(to.clone());
            }
            _ => panic!("the first step is the copy"),
        }
    }
    assert_eq!(touched.len(), 6);
}
