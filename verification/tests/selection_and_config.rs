use osbuild::config::{
    collect_overrides, parse_override, scan_import, substitute, ImportScan, Override,
    OverrideValue,
};
use osbuild::error::BuildError;
use osbuild::plan::Step;
use osbuild::stage::{parse_group, select_stages};
use osbuild::text::{find_text, pad_right, split_at_text, split_commas, split_on};

fn strings(items: &[&str]) -> Vec<String> {
    items.iter().map(|s| s.to_string()).collect()
}

#[test]
fn the_default_selection_runs_every_stage() {
    assert_eq!(select_stages(".."), Ok(vec![0, 1, 2, 3, 4, 5, 6, 7, 8, 9, 10, 11]));
}

#[test]
fn a_range_runs_from_its_first_to_its_last_stage() {
    assert_eq!(select_stages("relink-rlibs..relink-objects"), Ok(vec![6, 7, 8]));
    assert_eq!(select_stages("..directories"), Ok(vec![0, 1]));
    assert_eq!(select_stages("add-bootloader.."), Ok(vec![10, 11]));
    assert_eq!(select_stages("build-cells..build-cells"), Ok(vec![3]));
}

#[test]
fn groups_run_in_the_order_asked_for() {
    assert_eq!(
        select_stages("run-qemu,discover..directories,strip-objects,discover"),
        Ok(vec![11, 0, 1, 9, 0])
    );
}

#[test]
fn a_lone_empty_group_is_the_last_stage() {
    assert_eq!(select_stages(""), Ok(vec![11]));
    assert_eq!(select_stages("discover,"), Ok(vec![0, 11]));
    assert_eq!(parse_group(""), Ok((11, 11)));
}

#[test]
fn a_range_that_ends_right_before_it_begins_is_empty() {
    assert_eq!(select_stages("directories..discover"), Ok(vec![]));
    assert_eq!(parse_group("directories..discover"), Ok((1, 0)));
}

#[test]
fn a_range_the_wrong_way_round_is_refused() {
    assert_eq!(
        select_stages("discover,run-qemu..discover"),
        Err(BuildError::StageRangeReversed { group: "run-qemu..discover".to_string() })
    );
    assert_eq!(
        parse_group("gen-mk-config..discover"),
        Err(BuildError::StageRangeReversed { group: "gen-mk-config..discover".to_string() })
    );
}

#[test]
fn the_first_unknown_stage_fails_the_selection() {
    assert_eq!(
        select_stages("discover,nope..alsonope,other"),
        Err(BuildError::UnknownStage { name: "nope".to_string() })
    );
    assert_eq!(
        select_stages("discover..nope"),
        Err(BuildError::UnknownStage { name: "nope".to_string() })
    );
    assert_eq!(
        select_stages("discover.directories"),
        Err(BuildError::UnknownStage { name: "discover.directories".to_string() })
    );
}

#[test]
fn of_a_group_with_more_dots_only_the_first_two_names_count() {
    assert_eq!(parse_group("discover..directories..run-qemu"), Ok((0, 1)));
    assert_eq!(parse_group("discover...."), Ok((0, 11)));
    assert_eq!(
        parse_group("discover..."),
        Err(BuildError::UnknownStage { name: ".".to_string() })
    );
}

#[test]
fn text_is_cut_at_separators() {
    assert_eq!(split_commas("a,b,,c"), strings(&["a", "b", "", "c"]));
    assert_eq!(split_commas(""), strings(&[""]));
    assert_eq!(split_commas(","), strings(&["", ""]));
    assert_eq!(split_on("a.b", '.'), strings(&["a", "b"]));
    assert_eq!(split_on("äb", '.'), strings(&["äb"]));
    assert_eq!(find_text("abcabc", "bc"), Some(1));
    assert_eq!(find_text("abc", "abcd"), None);
    assert_eq!(find_text("abc", ""), Some(0));
    assert_eq!(find_text("", ""), Some(0));
    assert_eq!(find_text("aab", "ab"), Some(1));
    assert_eq!(find_text("xyz", "z"), Some(2));
    assert_eq!(split_at_text("boot.asm.bak", ".asm"), Some(("boot".to_string(), ".bak".to_string())));
    assert_eq!(split_at_text("boot.s", ".asm"), None);
    assert_eq!(pad_right("ab", 4), "ab  ");
    assert_eq!(pad_right("abcd", 4), "abcd");
    assert_eq!(pad_right("abcde", 4), "abcde");
    assert_eq!(pad_right("", 0), "");
}

#[test]
fn an_override_names_an_option_and_a_value() {
    assert_eq!(
        parse_override("add-bootloader.bootloader=limine"),
        (strings(&["add-bootloader", "bootloader"]), "limine".to_string())
    );
    assert_eq!(parse_override("arch=x86_64"), (strings(&["arch"]), "x86_64".to_string()));
    assert_eq!(parse_override("a.b=c.d=e"), (strings(&["a", "b"]), "c.d=e".to_string()));
    assert_eq!(parse_override("flag"), (strings(&["flag"]), String::new()));
    assert_eq!(parse_override("a..b="), (strings(&["a", "", "b"]), String::new()));
    assert_eq!(parse_override(""), (strings(&[""]), String::new()));
    assert_eq!(parse_override("=v"), (strings(&[""]), "v".to_string()));
}

#[test]
fn overrides_are_read_with_their_lists() {
    let args = strings(&["a.b=1", "run-qemu.extra-args=[", "-m", "512M", "x=y", "]", "c=true"]);
    assert_eq!(
        collect_overrides(&args),
        vec![
            Override { path: strings(&["a", "b"]), value: OverrideValue::Scalar("1".to_string()) },
            Override {
                path: strings(&["run-qemu", "extra-args"]),
                value: OverrideValue::Array(strings(&["-m", "512M", "x=y"])),
            },
            Override { path: strings(&["c"]), value: OverrideValue::Scalar("true".to_string()) },
        ]
    );
}

#[test]
fn a_list_that_is_never_closed_sets_nothing() {
    let args = strings(&["a=1", "b=[", "x", "y"]);
    assert_eq!(
        collect_overrides(&args),
        vec![Override { path: strings(&["a"]), value: OverrideValue::Scalar("1".to_string()) }]
    );
    assert_eq!(collect_overrides(&vec![]), vec![]);
    assert_eq!(
        collect_overrides(&strings(&["l=[", "]", "]"])),
        vec![
            Override { path: strings(&["l"]), value: OverrideValue::Array(vec![]) },
            Override { path: strings(&["]"]), value: OverrideValue::Scalar(String::new()) },
        ]
    );
}

#[test]
fn the_first_reference_of_a_value_is_found() {
    assert_eq!(scan_import("plain/path"), ImportScan::Plain);
    assert_eq!(scan_import("close}only"), ImportScan::Plain);
    assert_eq!(scan_import("a{b"), ImportScan::Unclosed);
    assert_eq!(
        scan_import("{build-dir}/deps/{target}"),
        ImportScan::Import {
            prefix: String::new(),
            key: "build-dir".to_string(),
            from_env: false,
            suffix: "/deps/{target}".to_string(),
        }
    );
    assert_eq!(
        scan_import("x/{env:HOME}/y"),
        ImportScan::Import {
            prefix: "x/".to_string(),
            key: "HOME".to_string(),
            from_env: true,
            suffix: "/y".to_string(),
        }
    );
    assert_eq!(
        scan_import("{env:}"),
        ImportScan::Import {
            prefix: String::new(),
            key: String::new(),
            from_env: true,
            suffix: String::new(),
        }
    );
    assert_eq!(
        scan_import("{}"),
        ImportScan::Import {
            prefix: String::new(),
            key: String::new(),
            from_env: false,
            suffix: String::new(),
        }
    );
    assert_eq!(substitute("a/", "b", "/c"), "a/b/c");
}

#[test]
fn make_variables_are_upper_case_with_underscores() {
    assert_eq!(osbuild::gen_mk_config::mk_variable("build-cells.cargo-flags"), "BUILD_CELLS_CARGO_FLAGS");
    assert_eq!(osbuild::gen_mk_config::mk_variable("arch"), "ARCH");
    assert_eq!(osbuild::gen_mk_config::mk_variable(""), "");
    assert_eq!(osbuild::gen_mk_config::underscore("a-b.c_d"), "a_b_c_d");
    let options = vec![
        ("arch".to_string(), "x86_64".to_string()),
        ("directories.build-dir".to_string(), "/b \"q\"".to_string()),
    ];
    let text = osbuild::gen_mk_config::generate(&options);
    assert_eq!(text, "ARCH=\"x86_64\"\nDIRECTORIES_BUILD_DIR=\"/b \"q\"\"\n");
    assert_eq!(
        osbuild::gen_mk_config::write_config("/build/config.mk", &options),
        vec![Step::WriteFile { path: "/build/config.mk".to_string(), contents: text.into_bytes() }]
    );
    assert_eq!(osbuild::gen_mk_config::generate(&vec![]), "");
}

#[test]
fn the_crates_found_are_listed_in_columns() {
    assert_eq!(
        osbuild::discover::describe("memory", "Memory management"),
        format!("\u{2022} memory{} Memory management", " ".repeat(24))
    );
    assert_eq!(osbuild::discover::describe("", ""), format!("\u{2022} {} ", " ".repeat(30)));
    let groups = vec![
        vec![("a".to_string(), "first".to_string()), ("b".to_string(), String::new())],
        vec![],
        vec![("c".to_string(), "third".to_string())],
    ];
    assert_eq!(
        osbuild::discover::process(&groups),
        vec![
            osbuild::discover::describe("a", "first"),
            osbuild::discover::describe("b", ""),
            String::new(),
            String::new(),
            osbuild::discover::describe("c", "third"),
            String::new(),
        ]
    );
    assert_eq!(osbuild::discover::process(&vec![]), Vec::<String>::new());
}
