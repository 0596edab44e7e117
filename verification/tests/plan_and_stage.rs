use osbuild::error::BuildError;
use osbuild::plan::{check_result, run, run_env, tool, Invocation, ToolOutcome};
use osbuild::stage::{parse_stage, STAGE_COUNT};
use osbuild::text::{
    append_text, find_char, has_prefix, has_suffix, join, object_files, prefix_before, str_eq,
};

fn strings(items: &[&str]) -> Vec<String> {
    items.iter().map(|s| s.to_string()).collect()
}

#[test]
fn run_puts_the_argument_groups_one_after_the_other() {
    let inv = run("stage", "ld", &[&["-r", "-o", "out.o"], &[], &["a.o", "b.o"]]);
    assert_eq!(
        inv,
        Invocation {
            stage: "stage".to_string(),
            binary: "ld".to_string(),
            env: vec![],
            args: strings(&["-r", "-o", "out.o", "a.o", "b.o"]),
        }
    );
    assert_eq!(run("s", "true", &[]).args, Vec::<String>::new());
}

#[test]
fn run_env_keeps_the_variables_in_order() {
    let inv = run_env("build", "cargo", &[("RUSTFLAGS", "-C x"), ("A", "")], &[&["build"]]);
    assert_eq!(
        inv.env,
        vec![("RUSTFLAGS".to_string(), "-C x".to_string()), ("A".to_string(), String::new())]
    );
    assert_eq!(inv.args, strings(&["build"]));
    assert_eq!(inv.binary, "cargo");
    assert_eq!(inv.stage, "build");
}

#[test]
fn tool_takes_the_arguments_as_they_are() {
    let inv = tool("s", "strip", strings(&["--strip-debug", "x.o"]));
    assert_eq!(inv, run("s", "strip", &[&["--strip-debug", "x.o"]]));
}

#[test]
fn only_an_end_in_success_passes() {
    assert_eq!(check_result("s", ToolOutcome::Exited { success: true }, "ld"), Ok(()));
    let failed = BuildError::ToolFailed { stage: "s".to_string(), binary: "ld".to_string() };
    assert_eq!(check_result("s", ToolOutcome::Exited { success: false }, "ld"), Err(failed.clone()));
    assert_eq!(check_result("s", ToolOutcome::NotStarted, "ld"), Err(failed));
}

#[test]
fn every_stage_has_its_place() {
    let names = [
        "discover",
        "directories",
        "gen-mk-config",
        "build-cells",
        "link-nanocore",
        "serialize-nanocore-syms",
        "relink-rlibs",
        "copy-crate-objects",
        "relink-objects",
        "strip-objects",
        "add-bootloader",
        "run-qemu",
    ];
    assert_eq!(names.len(), STAGE_COUNT);
    for (i, name) in names.iter().enumerate() {
        assert_eq!(parse_stage(name, false), Ok(i));
        assert_eq!(parse_stage(name, true), Ok(i));
    }
}

#[test]
fn the_empty_stage_name_stands_for_an_end_of_the_pipeline() {
    assert_eq!(parse_stage("", false), Ok(0));
    assert_eq!(parse_stage("", true), Ok(11));
}

#[test]
fn an_unknown_stage_is_refused() {
    assert_eq!(
        parse_stage("link", true),
        Err(BuildError::UnknownStage { name: "link".to_string() })
    );
    assert_eq!(
        parse_stage("Discover", false),
        Err(BuildError::UnknownStage { name: "Discover".to_string() })
    );
    assert_eq!(
        parse_stage(" ", false),
        Err(BuildError::UnknownStage { name: " ".to_string() })
    );
}

#[test]
fn the_archives_are_merged_before_the_scan() {
    assert!(parse_stage("relink-rlibs", true).unwrap() < parse_stage("copy-crate-objects", false).unwrap());
}

#[test]
fn text_helpers_work_on_characters() {
    assert_eq!(find_char("ab-cd-e", '-'), 2);
    assert_eq!(find_char("abc", '-'), 3);
    assert_eq!(find_char("", '-'), 0);
    assert_eq!(find_char("äö-ü", '-'), 2);
    assert_eq!(prefix_before("äö-ü", '-'), "äö");
    assert_eq!(prefix_before("-x", '-'), "");
    assert_eq!(prefix_before("plain", '-'), "plain");
    assert!(has_suffix("a.o", ".o"));
    assert!(has_suffix(".o", ".o"));
    assert!(!has_suffix("o", ".o"));
    assert!(!has_suffix("a.oo", ".o"));
    assert!(has_suffix("x", ""));
    assert!(has_prefix("libfoo", "lib"));
    assert!(!has_prefix("li", "lib"));
    assert!(!has_prefix("Libfoo", "lib"));
    assert!(str_eq("é", "é"));
    assert!(!str_eq("e", "é"));
    assert!(!str_eq("ab", "abc"));
    assert_eq!(append_text("ab", "cd"), "abcd");
    assert_eq!(join("/a/b", "c.o"), "/a/b/c.o");
    assert_eq!(join("", ""), "/");
}

#[test]
fn object_files_are_picked_by_their_ending() {
    let listing = vec![
        ("k#a.o".to_string(), false),
        ("readme".to_string(), false),
        ("dir.o".to_string(), true),
        ("b.o.bak".to_string(), false),
        ("c.o".to_string(), false),
    ];
    assert_eq!(object_files(&listing), strings(&["k#a.o", "dir.o", "c.o"]));
    assert_eq!(object_files(&[]), Vec::<String>::new());
}
