use osbuild::artifact::{CandidateDir, FileInfo};
use osbuild::scan::parse_input_dir;
use osbuild::crate_set::{populate_crates_from_file, CrateKind};
use osbuild::error::BuildError;
use osbuild::plan::{tool, Step};
use osbuild::archive::is_safe;
use osbuild::relink_rlibs::{
    is_rlib, needs_relink, process, read_archive, unpack, Archive, Member, RelinkRlibsConfig,
};

fn strings(items: &[&str]) -> Vec<String> {
    items.iter().map(|s| s.to_string()).collect()
}

fn config(clean: bool) -> RelinkRlibsConfig {
    RelinkRlibsConfig {
        deps_dir: "/t/deps".to_string(),
        extracted_rlibs_dir: "/build/extracted".to_string(),
        linker: "ld".to_string(),
        remove_rlibs_dirs: clean,
    }
}

fn member(name: &str, data: &[u8]) -> Member {
    Member { name: name.as_bytes().to_vec(), data: data.to_vec() }
}

fn build_archive(members: &[(&str, &[u8])]) -> Vec<u8> {
    let mut builder = ar::Builder::new(Vec::new());
    for (name, data) in members {
        let header = ar::Header::new(name.as_bytes().to_vec(), data.len() as u64);
        builder.append(&header, *data).unwrap();
    }
    builder.into_inner().unwrap()
}

#[test]
fn an_archive_of_two_members_is_left_alone() {
    let bytes = build_archive(&[("lib.rmeta", b"meta"), ("foo-1.o", b"obj")]);
    let archive = read_archive("libfoo-1.rlib", &bytes).unwrap();
    assert_eq!(archive.entry_count, 2);
    assert_eq!(unpack(&config(true), &archive), Ok(vec![]));
    assert_eq!(process(&config(true), &vec![archive]), Ok(vec![]));
}

#[test]
fn an_archive_of_three_members_is_linked_once() {
    let bytes = build_archive(&[("lib.rmeta", b"meta"), ("foo-1.o", b"one"), ("native.o", b"two")]);
    let archive = read_archive("libfoo-1.rlib", &bytes).unwrap();
    assert_eq!(archive.entry_count, 3);
    let steps = unpack(&config(false), &archive).unwrap();
    assert_eq!(
        steps,
        vec![
            Step::CreateDir { path: "/build/extracted/libfoo-1.rlib".to_string(), all: false },
            Step::WriteFile {
                path: "/build/extracted/libfoo-1.rlib/foo-1.o".to_string(),
                contents: b"one".to_vec(),
            },
            Step::WriteFile {
                path: "/build/extracted/libfoo-1.rlib/native.o".to_string(),
                contents: b"two".to_vec(),
            },
            Step::Run(tool(
                "relink-rlibs",
                "ld",
                strings(&[
                    "-r",
                    "--output",
                    "/t/deps/foo-1.o",
                    "/build/extracted/libfoo-1.rlib/foo-1.o",
                    "/build/extracted/libfoo-1.rlib/native.o",
                ]),
            )),
        ]
    );
    let runs = steps.iter().filter(|s| matches!(s, Step::Run(_))).count();
    assert_eq!(runs, 1);
}

#[test]
fn the_merged_object_lies_where_the_scan_finds_the_crates_object() {
    let archive = Archive {
        file_name: "libfoo-1.rlib".to_string(),
        entry_count: 3,
        members: vec![member("a.o", b"a"), member("b.o", b"b"), member("lib.rmeta", b"m")],
    };
    let steps = unpack(&config(false), &archive).unwrap();
    let output = match &steps[3] {
        Step::Run(inv) => inv.args[2].clone(),
        _ => panic!("the link comes after the members"),
    };
    let apps = populate_crates_from_file(CrateKind::Application, &vec![]);
    let kernel = populate_crates_from_file(CrateKind::Kernel, &strings(&["foo"]));
    let dirs = vec![
        CandidateDir {
            path: "/t/deps".to_string(),
            files: vec![FileInfo { name: "foo-1.o".to_string(), is_file: true, modified: 50 }],
        },
    ];
    let sel = parse_input_dir(&apps, &kernel, &dirs);
    assert_eq!(sel.kernel.len(), 1);
    assert_eq!(sel.kernel[0].object.file.full(), output);
    assert_eq!(sel.kernel[0].deps.rlib.full(), "/t/deps/libfoo-1.rlib");
}

#[test]
fn the_scratch_directory_goes_where_the_configuration_says_so() {
    let archive = Archive {
        file_name: "libz.rlib".to_string(),
        entry_count: 4,
        members: vec![member("only.o", b"x")],
    };
    let steps = unpack(&config(true), &archive).unwrap();
    assert_eq!(steps.len(), 4);
    assert_eq!(steps[3], Step::RemoveDirAll { path: "/build/extracted/libz.rlib".to_string() });
    assert_eq!(unpack(&config(false), &archive).unwrap().len(), 3);
}

#[test]
fn members_that_are_no_objects_stay_in_the_archive() {
    let archive = Archive {
        file_name: "libfoo.rlib".to_string(),
        entry_count: 3,
        members: vec![member("lib.rmeta", b"m"), member("x.obj", b"1"), member("y.o.txt", b"2")],
    };
    let steps = unpack(&config(false), &archive).unwrap();
    assert_eq!(
        steps,
        vec![
            Step::CreateDir { path: "/build/extracted/libfoo.rlib".to_string(), all: false },
            Step::Run(tool("relink-rlibs", "ld", strings(&["-r", "--output", "/t/deps/foo.o"]))),
        ]
    );
}

#[test]
fn a_member_name_that_is_no_text_fails_the_archive() {
    let archive = Archive {
        file_name: "libbad.rlib".to_string(),
        entry_count: 3,
        members: vec![member("a.o", b"a"), Member { name: vec![0xff, 0x2e, 0x6f], data: vec![] }],
    };
    let failed = BuildError::InvalidMemberName { archive: "libbad.rlib".to_string() };
    assert_eq!(unpack(&config(false), &archive), Err(failed.clone()));
    let fine = Archive { file_name: "libok.rlib".to_string(), entry_count: 2, members: vec![] };
    assert_eq!(process(&config(false), &vec![fine, archive]), Err(failed));
}

#[test]
fn a_bad_member_name_is_not_looked_at_in_a_plain_archive() {
    let archive = Archive {
        file_name: "libbad.rlib".to_string(),
        entry_count: 2,
        members: vec![Member { name: vec![0xff], data: vec![] }],
    };
    assert_eq!(unpack(&config(false), &archive), Ok(vec![]));
}

#[test]
fn only_files_named_like_an_archive_are_worked_on() {
    assert!(is_rlib("libfoo-1.rlib"));
    assert!(is_rlib("lib.rlib"));
    assert!(!is_rlib("foo.rlib"));
    assert!(!is_rlib("libfoo.rmeta"));
    assert!(!is_rlib("lib"));
    assert!(!is_rlib(".rlib"));
    assert!(!is_rlib("librlib"));
    let archive = Archive {
        file_name: "foo.rlib".to_string(),
        entry_count: 5,
        members: vec![member("a.o", b"a")],
    };
    assert_eq!(unpack(&config(false), &archive), Ok(vec![]));
    let empty_stem = Archive {
        file_name: "lib.rlib".to_string(),
        entry_count: 3,
        members: vec![],
    };
    let steps = unpack(&config(false), &empty_stem).unwrap();
    assert_eq!(
        steps[1],
        Step::Run(tool("relink-rlibs", "ld", strings(&["-r", "--output", "/t/deps/.o"])))
    );
}

#[test]
fn more_than_two_members_need_a_relink() {
    assert!(!needs_relink(0));
    assert!(!needs_relink(2));
    assert!(needs_relink(3));
    assert!(needs_relink(usize::MAX));
}

#[test]
fn the_archives_are_planned_one_after_the_other() {
    let a = Archive { file_name: "liba.rlib".to_string(), entry_count: 3, members: vec![member("a.o", b"1")] };
    let b = Archive { file_name: "libb.rlib".to_string(), entry_count: 2, members: vec![] };
    let c = Archive { file_name: "libc.rlib".to_string(), entry_count: 9, members: vec![member("c.o", b"3")] };
    let cfg = config(false);
    let mut expected = unpack(&cfg, &a).unwrap();
    expected.extend(unpack(&cfg, &c).unwrap());
    assert_eq!(expected.len(), 6);
    assert_eq!(process(&cfg, &vec![a, b, c]), Ok(expected));
    assert_eq!(process(&cfg, &vec![]), Ok(vec![]));
}

fn header(name: &str, size: usize) -> Vec<u8> {
    format!("{:<16}{:<12}{:<6}{:<6}{:<8}{:<10}`\n", name, 0, 0, 0, 0, size).into_bytes()
}

fn raw_archive(members: &[(&str, &[u8])]) -> Vec<u8> {
    let mut bytes = b"!<arch>\n".to_vec();
    for (name, data) in members {
        bytes.extend(header(name, data.len()));
        bytes.extend_from_slice(data);
        if data.len() % 2 == 1 {
            bytes.push(b'\n');
        }
    }
    bytes
}

#[test]
fn an_archive_is_read_with_its_members() {
    let bytes = build_archive(&[("lib.rmeta", b"meta"), ("a.o", b"one"), ("b.o", b"three")]);
    assert_ne!(bytes, b"meta".to_vec());
    let archive = read_archive("libx.rlib", &bytes).unwrap();
    assert_eq!(
        archive,
        Archive {
            file_name: "libx.rlib".to_string(),
            entry_count: 3,
            members: vec![member("lib.rmeta", b"meta"), member("a.o", b"one"), member("b.o", b"three")],
        }
    );
    assert_eq!(raw_archive(&[("lib.rmeta", b"meta"), ("a.o", b"one"), ("b.o", b"three")]), bytes);
}

#[test]
fn the_members_of_a_plain_archive_are_not_read() {
    let bytes = build_archive(&[("lib.rmeta", b"meta"), ("a.o", b"one")]);
    let archive = read_archive("libx.rlib", &bytes).unwrap();
    assert_eq!(archive.entry_count, 2);
    assert_eq!(archive.members, vec![]);
    let empty = read_archive("libe.rlib", b"!<arch>\n").unwrap();
    assert_eq!(empty.entry_count, 0);
}

#[test]
fn long_names_in_a_table_are_followed() {
    let names = vec![
        b"a_member_with_a_long_name.o".to_vec(),
        b"short.o".to_vec(),
        b"another_member_with_a_long_name.rcgu.o".to_vec(),
    ];
    let mut builder = ar::GnuBuilder::new(Vec::new(), names.clone());
    for name in &names {
        let header = ar::Header::new(name.clone(), 3);
        builder.append(&header, &b"abc"[..]).unwrap();
    }
    let bytes = builder.into_inner().unwrap();
    assert!(is_safe(&bytes));
    let archive = read_archive("libg.rlib", &bytes).unwrap();
    assert_eq!(archive.entry_count, 3);
    let read: Vec<Vec<u8>> = archive.members.iter().map(|m| m.name.clone()).collect();
    assert_eq!(read, names);
    let steps = unpack(&config(false), &archive).unwrap();
    assert_eq!(steps.len(), 5);
}

#[test]
fn long_names_in_front_of_the_members_are_followed() {
    let names = vec![
        b"a_member_with_a_long_name.o".to_vec(),
        b"odd_length_of_a_long_name.o".to_vec(),
        b"s.o".to_vec(),
    ];
    let mut builder = ar::Builder::new(Vec::new());
    for name in &names {
        let header = ar::Header::new(name.clone(), 5);
        builder.append(&header, &b"12345"[..]).unwrap();
    }
    let bytes = builder.into_inner().unwrap();
    assert!(is_safe(&bytes));
    let archive = read_archive("libb.rlib", &bytes).unwrap();
    assert_eq!(archive.entry_count, 3);
    let read: Vec<Vec<u8>> = archive.members.iter().map(|m| m.name.clone()).collect();
    assert_eq!(read, names);
    assert_eq!(archive.members[1].data, b"12345".to_vec());
}

#[test]
fn a_pointer_beyond_the_name_table_is_not_followed() {
    let unsafe_one = raw_archive(&[("/99", b"data")]);
    assert!(!is_safe(&unsafe_one));
    assert_eq!(
        read_archive("libp.rlib", &unsafe_one),
        Err(BuildError::UnreadableArchive { name: "libp.rlib".to_string() })
    );
    let short_table = raw_archive(&[("//", b"abc.o/\n"), ("/7", b"x"), ("/8", b"y")]);
    assert!(!is_safe(&short_table));
    let within = raw_archive(&[("//", b"abc.o/\n"), ("/0", b"x"), ("y.o/", b"y"), ("z.o/", b"z")]);
    assert!(is_safe(&within));
    let archive = read_archive("libw.rlib", &within).unwrap();
    assert_eq!(archive.entry_count, 3);
    assert_eq!(archive.members[0], member("abc.o", b"x"));
    assert_eq!(archive.members[1], member("y.o", b"y"));
}

#[test]
fn an_archive_that_cannot_be_followed_is_refused() {
    let failed = Err(BuildError::UnreadableArchive { name: "libq.rlib".to_string() });
    assert_eq!(read_archive("libq.rlib", b""), failed);
    assert_eq!(read_archive("libq.rlib", b"this is no archive at all"), failed);
    let mut cut = build_archive(&[("a.o", b"0123456789")]);
    cut.truncate(cut.len() - 4);
    assert!(!is_safe(&cut));
    assert_eq!(read_archive("libq.rlib", &cut), failed);
    let mut no_size = raw_archive(&[("a.o", b"xy")]);
    no_size[8 + 48] = b'x';
    assert!(!is_safe(&no_size));
    let mut signed = raw_archive(&[("a.o", b"xy")]);
    signed[8 + 48] = b'+';
    assert!(!is_safe(&signed));
    assert_eq!(read_archive("libq.rlib", &signed), failed);
    let wrong_signature = {
        let mut bytes = raw_archive(&[("a.o", b"xy")]);
        bytes[0] = b'?';
        bytes
    };
    assert!(is_safe(&wrong_signature));
    assert_eq!(read_archive("libq.rlib", &wrong_signature), failed);
}

#[test]
fn the_look_over_follows_every_header() {
    assert!(is_safe(b""));
    assert!(is_safe(b"!<arch>\n"));
    assert!(is_safe(&raw_archive(&[("a.o", b"odd"), ("b.o", b"even"), ("c.o", b"")])));
    assert!(is_safe(&raw_archive(&[("/", b"symbols"), ("//", b""), ("a.o/", b"x")])));
    assert!(!is_safe(&raw_archive(&[("/", b"symbols"), ("/0x", b"")])));
    assert!(is_safe(&raw_archive(&[("#1/4", b"abcdXY"), ("/99", b"")])));
    assert!(!is_safe(&raw_archive(&[("#1/x", b"abcdXY")])));
    assert!(is_safe(&raw_archive(&[("#1/9", b"abc"), ("/99", b"")])));
    let mut second_cut = raw_archive(&[("a.o", b"xy"), ("b.o", b"0123456789")]);
    second_cut.truncate(second_cut.len() - 1);
    assert!(!is_safe(&second_cut));
}
