use osbuild::error::BuildError;
use osbuild::options::{
    apply_overrides, env_get, find, opt, opt_bool, opt_default, opt_str, opt_str_vec, option_keys,
    resolve_imports, set_option, Assignment, Config, ConfigValue, IMPORT_LIMIT,
};
use osbuild::plan::Step;
use osbuild::text::split_text;

fn s(text: &str) -> String {
    text.to_string()
}

fn strings(items: &[&str]) -> Vec<String> {
    items.iter().map(|s| s.to_string()).collect()
}

fn text(value: &str) -> ConfigValue {
    ConfigValue::String(s(value))
}

fn text_value(value: &str) -> ConfigValue {
    text(value)
}

fn table(entries: Vec<(&str, ConfigValue)>) -> ConfigValue {
    ConfigValue::Table(entries.into_iter().map(|(k, v)| (s(k), v)).collect())
}

fn defaults() -> ConfigValue {
    table(vec![
        ("arch", text("x86_64")),
        ("build-dir", text("{root}/build")),
        ("root", text("/src")),
        ("quiet", ConfigValue::Boolean(false)),
        ("count", ConfigValue::Integer(3)),
        (
            "directories",
            table(vec![
                ("modules", text("{build-dir}/isofiles/modules")),
                ("home", text("{env:HOME}/out")),
            ]),
        ),
        ("flags", ConfigValue::Array(vec![text("-m"), text("{arch}")])),
        ("gen-mk-config", table(vec![("output", text("{build-dir}/config.mk"))])),
    ])
}

fn env() -> Vec<(String, String)> {
    vec![(s("HOME"), s("/home/me")), (s("PATHS"), s("a:b::c")), (s("HOME"), s("/second"))]
}

fn config(inner: ConfigValue) -> Config {
    Config { inner, defaults: defaults(), env: env() }
}

#[test]
fn a_key_leads_from_table_to_table() {
    let d = defaults();
    assert_eq!(find(&d, "arch"), Some(&text("x86_64")));
    assert_eq!(find(&d, "directories.modules"), Some(&text("{build-dir}/isofiles/modules")));
    assert_eq!(find(&d, "directories.nothing"), None);
    assert_eq!(find(&d, "arch.deeper"), None);
    assert_eq!(find(&d, ""), None);
    assert_eq!(find(&d, "flags.0"), None);
    assert!(matches!(find(&d, "directories"), Some(ConfigValue::Table(_))));
    assert_eq!(d.get("count"), Some(&ConfigValue::Integer(3)));
    assert_eq!(text("x").get("count"), None);
}

#[test]
fn of_two_entries_of_one_name_the_first_counts() {
    let doubled = table(vec![("a", text("first")), ("a", text("second"))]);
    assert_eq!(find(&doubled, "a"), Some(&text("first")));
}

#[test]
fn what_is_not_set_comes_from_the_defaults() {
    let inner = table(vec![("arch", text("aarch64"))]);
    let d = defaults();
    assert_eq!(opt(&inner, &d, "arch"), Ok(&text("aarch64")));
    assert_eq!(opt(&inner, &d, "root"), Ok(&text("/src")));
    assert_eq!(opt(&inner, &d, "nothing"), Err(BuildError::MissingOption { key: s("nothing") }));
    assert_eq!(opt_default(&d, "arch"), Ok(&text("x86_64")));
    assert_eq!(opt_default(&d, "nope"), Err(BuildError::MissingOption { key: s("nope") }));
}

#[test]
fn a_truth_value_has_to_be_one() {
    let c = config(table(vec![("quiet", ConfigValue::Boolean(true))]));
    assert_eq!(c.bool("quiet"), Ok(true));
    assert_eq!(opt_bool(&table(vec![]), &defaults(), "quiet"), Ok(false));
    assert_eq!(
        c.bool("arch"),
        Err(BuildError::WrongType { key: s("arch"), expected: s("a boolean") })
    );
    assert_eq!(c.bool("missing"), Err(BuildError::MissingOption { key: s("missing") }));
}

#[test]
fn references_are_filled_in_all_the_way_down() {
    let c = config(table(vec![]));
    assert_eq!(c.str("arch"), Ok(s("x86_64")));
    assert_eq!(c.str("build-dir"), Ok(s("/src/build")));
    assert_eq!(c.str("directories.modules"), Ok(s("/src/build/isofiles/modules")));
    assert_eq!(c.str("directories.home"), Ok(s("/home/me/out")));
    let moved = config(table(vec![("root", text("/elsewhere"))]));
    assert_eq!(moved.str("directories.modules"), Ok(s("/elsewhere/build/isofiles/modules")));
}

#[test]
fn a_text_has_to_be_one() {
    let c = config(table(vec![]));
    assert_eq!(c.str("quiet"), Err(BuildError::WrongType { key: s("quiet"), expected: s("a string") }));
    assert_eq!(c.str("nothing"), Err(BuildError::MissingOption { key: s("nothing") }));
}

#[test]
fn references_that_cannot_be_filled_in_fail() {
    let d = defaults();
    let e = env();
    let inner = table(vec![
        ("open", text("a{b")),
        ("gone", text("{env:NOWHERE}")),
        ("lost", text("x{nothing}y")),
        ("kind", text("{quiet}")),
        ("again", text("{again}")),
    ]);
    assert_eq!(
        opt_str(&inner, &d, &e, "open", IMPORT_LIMIT),
        Err(BuildError::InvalidImport { value: s("a{b") })
    );
    assert_eq!(
        opt_str(&inner, &d, &e, "gone", IMPORT_LIMIT),
        Err(BuildError::MissingEnvironment { name: s("NOWHERE") })
    );
    assert_eq!(
        opt_str(&inner, &d, &e, "lost", IMPORT_LIMIT),
        Err(BuildError::MissingOption { key: s("nothing") })
    );
    assert_eq!(
        opt_str(&inner, &d, &e, "kind", IMPORT_LIMIT),
        Err(BuildError::WrongType { key: s("quiet"), expected: s("a string") })
    );
    assert_eq!(
        opt_str(&inner, &d, &e, "again", 50),
        Err(BuildError::ImportsTooDeep { value: s("{again}") })
    );
}

#[test]
fn the_fuel_bounds_the_references_followed() {
    let d = defaults();
    let e = env();
    let inner = table(vec![]);
    assert_eq!(resolve_imports(&inner, &d, &e, s("plain"), 0), Ok(s("plain")));
    assert_eq!(
        resolve_imports(&inner, &d, &e, s("{arch}"), 0),
        Err(BuildError::ImportsTooDeep { value: s("{arch}") })
    );
    assert_eq!(resolve_imports(&inner, &d, &e, s("{arch}"), 1), Ok(s("x86_64")));
    assert_eq!(resolve_imports(&inner, &d, &e, s("{arch}-{arch}"), 2), Ok(s("x86_64-x86_64")));
    assert_eq!(
        resolve_imports(&inner, &d, &e, s("{arch}-{arch}"), 1),
        Err(BuildError::ImportsTooDeep { value: s("x86_64-{arch}") })
    );
    assert_eq!(resolve_imports(&inner, &d, &e, s("{env:HOME}"), 1), Ok(s("/home/me")));
}

#[test]
fn a_list_is_an_array_of_strings_or_comes_from_the_environment() {
    let c = config(table(vec![
        ("mixed", ConfigValue::Array(vec![text("a"), ConfigValue::Integer(1), text("{nothing}")])),
        ("broken", ConfigValue::Array(vec![text("{nothing}"), ConfigValue::Integer(1)])),
        ("paths", table(vec![("from-env", text("PATHS")), ("delimiter", text(":"))])),
        ("absent", table(vec![("from-env", text("NOWHERE")), ("delimiter", text(":"))])),
        ("half", table(vec![("from-env", text("PATHS"))])),
        ("odd", table(vec![("from-env", text("PATHS")), ("delimiter", ConfigValue::Integer(1))])),
        ("none", ConfigValue::Array(vec![])),
    ]));
    let wrong = |key: &str| BuildError::WrongType { key: s(key), expected: s("an array of strings") };
    assert_eq!(c.vec("flags"), Ok(strings(&["-m", "x86_64"])));
    assert_eq!(c.vec("none"), Ok(vec![]));
    assert_eq!(c.vec("mixed"), Err(wrong("mixed")));
    assert_eq!(c.vec("broken"), Err(BuildError::MissingOption { key: s("nothing") }));
    assert_eq!(c.vec("paths"), Ok(strings(&["a", "b", "", "c"])));
    assert_eq!(c.vec("absent"), Err(BuildError::MissingEnvironment { name: s("NOWHERE") }));
    assert_eq!(c.vec("half"), Err(wrong("half")));
    assert_eq!(c.vec("odd"), Err(wrong("odd")));
    assert_eq!(c.vec("arch"), Err(wrong("arch")));
    assert_eq!(c.vec("nothing"), Err(BuildError::MissingOption { key: s("nothing") }));
    assert_eq!(
        opt_str_vec(&table(vec![]), &defaults(), &env(), "flags", 0),
        Err(BuildError::ImportsTooDeep { value: s("{arch}") })
    );
}

#[test]
fn the_first_variable_of_a_name_counts() {
    let e = env();
    assert_eq!(env_get(&e, "HOME"), Some(&s("/home/me")));
    assert_eq!(env_get(&e, "home"), None);
    assert_eq!(env_get(&vec![], "HOME"), None);
}

#[test]
fn text_is_cut_at_a_delimiter() {
    assert_eq!(split_text("a:b::c", ":"), strings(&["a", "b", "", "c"]));
    assert_eq!(split_text("a--b-c", "--"), strings(&["a", "b-c"]));
    assert_eq!(split_text("abc", "x"), strings(&["abc"]));
    assert_eq!(split_text("", "x"), strings(&[""]));
    assert_eq!(split_text("x", "x"), strings(&["", ""]));
    assert_eq!(split_text("aaa", "aa"), strings(&["", "a"]));
    assert_eq!(split_text("ab", ""), strings(&["", "a", "b", ""]));
    assert_eq!(split_text("", ""), strings(&["", ""]));
    for (text, pat) in [("a:b::c", ":"), ("aaa", "aa"), ("ab", ""), ("", ""), ("é-ü", "-")] {
        let expected: Vec<String> = text.split(pat).map(|p| p.to_string()).collect();
        assert_eq!(split_text(text, pat), expected);
    }
}

#[test]
fn the_keys_of_a_document_come_in_its_order() {
    assert_eq!(
        option_keys(&defaults()),
        strings(&[
            "arch",
            "build-dir",
            "root",
            "quiet",
            "count",
            "directories.modules",
            "directories.home",
            "flags",
            "gen-mk-config.output",
        ])
    );
    assert_eq!(option_keys(&table(vec![])), Vec::<String>::new());
    assert_eq!(option_keys(&table(vec![("t", table(vec![]))])), Vec::<String>::new());
    assert_eq!(option_keys(&text("x")), strings(&[""]));
}

#[test]
fn setting_an_option_makes_the_tables_on_the_way() {
    let start = table(vec![("a", text("1"))]);
    let set = set_option(start, &strings(&["b", "c", "d"]), ConfigValue::Boolean(true)).unwrap();
    assert_eq!(
        set,
        table(vec![
            ("a", text("1")),
            ("b", table(vec![("c", table(vec![("d", ConfigValue::Boolean(true))]))])),
        ])
    );
    let again = set_option(set, &strings(&["b", "c", "e"]), ConfigValue::Integer(2)).unwrap();
    assert_eq!(find(&again, "b.c.d"), Some(&ConfigValue::Boolean(true)));
    assert_eq!(find(&again, "b.c.e"), Some(&ConfigValue::Integer(2)));
}

#[test]
fn setting_an_option_that_is_there_keeps_its_place() {
    let start = table(vec![("a", text("1")), ("b", text("2")), ("c", text("3"))]);
    let set = set_option(start, &strings(&["b"]), table(vec![])).unwrap();
    assert_eq!(set, table(vec![("a", text("1")), ("b", table(vec![])), ("c", text("3"))]));
}

#[test]
fn an_option_cannot_lie_in_a_value_that_is_no_table() {
    let start = table(vec![("a", text("1"))]);
    assert_eq!(
        set_option(start, &strings(&["a", "b"]), text("x")),
        Err(BuildError::NotATable { key: s("a.b") })
    );
    assert_eq!(
        set_option(text("root"), &strings(&["a"]), text("x")),
        Err(BuildError::NotATable { key: s("a") })
    );
    assert_eq!(set_option(text("root"), &vec![], text("x")), Err(BuildError::EmptyOptionPath));
    assert_eq!(set_option(table(vec![]), &vec![], text("x")), Err(BuildError::EmptyOptionPath));
    assert_eq!(
        set_option(table(vec![]), &strings(&[""]), text("x")),
        Ok(table(vec![("", text("x"))]))
    );
}

#[test]
fn overrides_are_applied_in_order() {
    let start = table(vec![]);
    let items = vec![
        Assignment { path: strings(&["a", "b"]), value: ConfigValue::Integer(1) },
        Assignment { path: strings(&["a", "b"]), value: ConfigValue::Integer(2) },
        Assignment { path: strings(&["c"]), value: text("x") },
    ];
    assert_eq!(
        apply_overrides(start, items),
        Ok(table(vec![("a", table(vec![("b", ConfigValue::Integer(2))])), ("c", text("x"))]))
    );
    let failing = vec![
        Assignment { path: strings(&["c"]), value: text("x") },
        Assignment { path: strings(&["c", "d"]), value: text("y") },
        Assignment { path: strings(&["e"]), value: text("z") },
    ];
    assert_eq!(
        apply_overrides(table(vec![]), failing),
        Err(BuildError::NotATable { key: s("c.d") })
    );
    assert_eq!(apply_overrides(text("as is"), vec![]), Ok(text("as is")));
    let nameless = vec![
        Assignment { path: strings(&["a"]), value: text("x") },
        Assignment { path: vec![], value: text("y") },
    ];
    assert_eq!(apply_overrides(table(vec![]), nameless), Err(BuildError::EmptyOptionPath));
}

#[test]
fn every_option_with_a_default_becomes_a_variable() {
    let mut d = defaults();
    d = set_option(d, &strings(&["count"]), text("three")).unwrap();
    d = set_option(d, &strings(&["directories", "home"]), text("/h")).unwrap();
    let c = Config { inner: table(vec![("quiet", ConfigValue::Boolean(true))]), defaults: d, env: env() };
    let steps = osbuild::gen_mk_config::process(&c).unwrap();
    let expected = "ARCH=\"x86_64\"\nBUILD_DIR=\"/src/build\"\nROOT=\"/src\"\nQUIET=\"true\"\nCOUNT=\"three\"\nDIRECTORIES_MODULES=\"/src/build/isofiles/modules\"\nDIRECTORIES_HOME=\"/h\"\nFLAGS=\"-m x86_64\"\nGEN_MK_CONFIG_OUTPUT=\"/src/build/config.mk\"\n";
    assert_eq!(
        steps,
        vec![Step::WriteFile { path: s("/src/build/config.mk"), contents: expected.as_bytes().to_vec() }]
    );
}

#[test]
fn an_option_of_another_kind_cannot_become_a_variable() {
    let c = config(table(vec![]));
    assert_eq!(
        osbuild::gen_mk_config::process(&c),
        Err(BuildError::InvalidPropertyType { key: s("count") })
    );
    assert_eq!(osbuild::gen_mk_config::option_content(&c, "quiet"), Ok(s("false")));
    assert_eq!(osbuild::gen_mk_config::option_content(&c, "flags"), Ok(s("-m x86_64")));
    assert_eq!(
        osbuild::gen_mk_config::option_content(&c, "nothing"),
        Err(BuildError::MissingOption { key: s("nothing") })
    );
    let no_output = Config { inner: table(vec![]), defaults: table(vec![]), env: vec![] };
    assert_eq!(
        osbuild::gen_mk_config::process(&no_output),
        Err(BuildError::MissingOption { key: s("gen-mk-config.output") })
    );
}

#[test]
fn a_stage_reads_its_options_in_order() {
    let d = table(vec![
        ("directories", table(vec![("modules", text("{build-dir}/m"))])),
        ("build-dir", text("/b")),
        (
            "relink-objects",
            table(vec![
                ("partial-relinking-script", text("/cfg/p.ld")),
                ("linker", text("ld")),
                ("stripper", ConfigValue::Integer(1)),
            ]),
        ),
    ]);
    let c = Config { inner: table(vec![]), defaults: d, env: vec![] };
    assert_eq!(
        osbuild::relink_objects::from_config(&c),
        Err(BuildError::WrongType { key: s("relink-objects.stripper"), expected: s("a string") })
    );
    let inner = table(vec![("relink-objects", table(vec![("stripper", text("strip"))]))]);
    let c = Config { inner, defaults: c.defaults, env: vec![] };
    assert_eq!(
        osbuild::relink_objects::from_config(&c),
        Ok(osbuild::relink_objects::RelinkObjectsConfig {
            modules_dir: s("/b/m"),
            partial_relinking_script: s("/cfg/p.ld"),
            linker: s("ld"),
            stripper: s("strip"),
        })
    );
    let empty = Config { inner: table(vec![]), defaults: table(vec![]), env: vec![] };
    assert_eq!(
        osbuild::relink_objects::from_config(&empty),
        Err(BuildError::MissingOption { key: s("directories.modules") })
    );
    assert_eq!(
        osbuild::relink_rlibs::from_config(&empty),
        Err(BuildError::MissingOption { key: s("directories.target-deps") })
    );
    assert_eq!(
        osbuild::run_qemu::from_config(&empty),
        Err(BuildError::MissingOption { key: s("run-qemu.qemu") })
    );
}

#[test]
fn a_manifest_describes_its_package() {
    let manifest = table(vec![(
        "package",
        table(vec![("name", text("memory")), ("description", text("Memory management"))]),
    )]);
    assert_eq!(osbuild::discover::description_of(&manifest), "Memory management");
    let plain = table(vec![("package", table(vec![("name", text("memory"))]))]);
    assert_eq!(osbuild::discover::description_of(&plain), "");
    let odd = table(vec![("package", table(vec![("description", ConfigValue::Integer(1))]))]);
    assert_eq!(osbuild::discover::description_of(&odd), "");
    assert_eq!(osbuild::discover::description_of(&table(vec![])), "");
    assert_eq!(osbuild::discover::description_of(&text("x")), "");
}

#[test]
fn a_document_is_read_value_by_value() {
    let text = "name = \"theseus\"\ncount = 3\nratio = 0.5\nquiet = true\nwhen = 1979-05-27T07:32:00Z\nlist = [\"a\", [1, 2], { k = \"v\" }]\n\n[directories]\nmodules = \"{build-dir}/m\"\n\n[directories.deep]\nx = -7\n";
    let document = osbuild::document::parse_document(text).unwrap();
    assert_eq!(find(&document, "name"), Some(&ConfigValue::String(s("theseus"))));
    assert_eq!(find(&document, "count"), Some(&ConfigValue::Integer(3)));
    assert_eq!(find(&document, "ratio"), Some(&ConfigValue::Float(s("0.5"))));
    assert_eq!(find(&document, "quiet"), Some(&ConfigValue::Boolean(true)));
    assert_eq!(find(&document, "when"), Some(&ConfigValue::Datetime(s("1979-05-27T07:32:00Z"))));
    assert_eq!(
        find(&document, "list"),
        Some(&ConfigValue::Array(vec![
            text_value("a"),
            ConfigValue::Array(vec![ConfigValue::Integer(1), ConfigValue::Integer(2)]),
            table(vec![("k", text_value("v"))]),
        ]))
    );
    assert_eq!(find(&document, "directories.modules"), Some(&text_value("{build-dir}/m")));
    assert_eq!(find(&document, "directories.deep.x"), Some(&ConfigValue::Integer(-7)));
    assert_ne!(document, ConfigValue::String(s(text)));
}

#[test]
fn an_empty_text_is_an_empty_document() {
    assert_eq!(osbuild::document::parse_document(""), Ok(table(vec![])));
    assert_eq!(
        osbuild::document::parse_document("# nothing but a comment\n"),
        Ok(table(vec![]))
    );
}

#[test]
fn a_text_that_is_no_document_is_refused() {
    for bad in ["key", "a = ", "[table", "a = 1\na = 2", "= 3"] {
        match osbuild::document::parse_document(bad) {
            Err(BuildError::InvalidDocument { reason }) => assert!(!reason.is_empty()),
            other => panic!("{:?} is no document, but gave {:?}", bad, other),
        }
    }
}

#[test]
fn the_keys_of_a_read_document_can_be_listed() {
    let document = osbuild::document::parse_document("b = 1\n[t]\ny = 2\nx = [3]\n").unwrap();
    let keys = option_keys(&document);
    assert_eq!(keys.len(), 3);
    assert!(keys.contains(&s("b")));
    assert!(keys.contains(&s("t.x")));
    assert!(keys.contains(&s("t.y")));
}
