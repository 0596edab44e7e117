use osbuild::add_bootloader::{
    create_grub_cfg_string, downloader_output_flag, frame_block, grub_plan, length_prefix,
    limine_plan, pack_archive, pack_modules, parse_bootloader, process, AddBootloaderConfig,
    Bootloader, ModuleFile,
};
use osbuild::error::BuildError;
use osbuild::plan::{tool, Step};
use std::io::Read;

fn strings(items: &[&str]) -> Vec<String> {
    items.iter().map(|s| s.to_string()).collect()
}

fn config(bootloader: &str) -> AddBootloaderConfig {
    AddBootloaderConfig {
        output_iso: "/build/os.iso".to_string(),
        nanocore_path: "/build/nanocore/kernel.bin".to_string(),
        modules_dir: "/build/isofiles/modules".to_string(),
        isofiles_dir: "/build/isofiles".to_string(),
        bootloader: bootloader.to_string(),
        grub_mkrescue: "grub-mkrescue".to_string(),
        limine_config: "built-in".to_string(),
        limine_tarball: "https://example.org/limine.tar.xz".to_string(),
        tarball_path: "/build/limine.tar.xz".to_string(),
        extract_dir: "/build/limine".to_string(),
        expected_subdir: "/build/limine/limine-3".to_string(),
        downloader: "curl".to_string(),
        xorriso: "xorriso".to_string(),
        nanocore_destination: "/build/isofiles/boot/kernel.bin".to_string(),
    }
}

fn modules() -> Vec<ModuleFile> {
    vec![
        ModuleFile { name: "a.o".to_string(), contents: b"AA".to_vec() },
        ModuleFile { name: "b.o".to_string(), contents: b"BB".to_vec() },
    ]
}

fn run(binary: &str, args: &[&str]) -> Step {
    Step::Run(tool("add-bootloader", binary, strings(args)))
}

fn copy(from: &str, to: &str) -> Step {
    Step::Copy { from: from.to_string(), to: to.to_string() }
}

const HEADER: &str = "### This file has been autogenerated, do not manually modify it!\nset timeout=0\nset default=0\n\nmenuentry \"Theseus OS\" {\n\tmultiboot2 /boot/kernel.bin \n";

#[test]
fn the_grub_configuration_lists_the_modules_in_columns() {
    let listing = vec![("a.o".to_string(), false), ("b.o".to_string(), false)];
    let text = create_grub_cfg_string(&listing);
    let pad = " ".repeat(47);
    let expected = format!(
        "{}\tmodule2 /modules/a.o{}\t\ta.o{}\n\tmodule2 /modules/b.o{}\t\tb.o{}\n\n\tboot\n}}\n",
        HEADER, pad, pad, pad, pad
    );
    assert_eq!(text, expected);
    let lines: Vec<&str> = text.lines().filter(|l| l.starts_with("\tmodule2 /modules/")).collect();
    assert_eq!(lines.len(), 2);
    assert_eq!(lines[0].len(), lines[1].len());
}

#[test]
fn the_grub_configuration_without_modules_is_header_and_footer() {
    assert_eq!(create_grub_cfg_string(&[]), format!("{}\n\tboot\n}}\n", HEADER));
}

#[test]
fn a_long_module_name_is_not_cut() {
    let name = "n".repeat(50);
    let longer = "m".repeat(51);
    let short = "é".repeat(49);
    let listing = vec![(name.clone(), false), (longer.clone(), true), (short.clone(), false)];
    let text = create_grub_cfg_string(&listing);
    let expected = format!(
        "{}\tmodule2 /modules/{}\t\t{}\n\tmodule2 /modules/{}\t\t{}\n\tmodule2 /modules/{} \t\t{} \n\n\tboot\n}}\n",
        HEADER, name, name, longer, longer, short, short
    );
    assert_eq!(text, expected);
}

#[test]
fn the_selector_names_one_of_two_boot_loaders() {
    assert_eq!(parse_bootloader("grub"), Ok(Bootloader::Grub));
    assert_eq!(parse_bootloader("limine"), Ok(Bootloader::Limine));
    for bad in ["", "GRUB", "grub2", "lilo", " limine"] {
        assert_eq!(
            parse_bootloader(bad),
            Err(BuildError::UnknownBootloader { name: bad.to_string() })
        );
    }
}

#[test]
fn an_unknown_boot_loader_plans_nothing() {
    let r = process(&config("syslinux"), &modules(), false, false);
    assert_eq!(r, Err(BuildError::UnknownBootloader { name: "syslinux".to_string() }));
}

#[test]
fn the_grub_path_writes_the_configuration_and_authors_the_image() {
    let cfg = config("grub");
    let steps = process(&cfg, &modules(), false, false).unwrap();
    let listing = vec![("a.o".to_string(), false), ("b.o".to_string(), false)];
    assert_eq!(
        steps,
        vec![
            copy("/build/nanocore/kernel.bin", "/build/isofiles/boot/kernel.bin"),
            Step::CreateDir { path: "/build/isofiles/boot/grub".to_string(), all: true },
            Step::WriteFile {
                path: "/build/isofiles/boot/grub/grub.cfg".to_string(),
                contents: create_grub_cfg_string(&listing).into_bytes(),
            },
            run("grub-mkrescue", &["-o", "/build/os.iso", "/build/isofiles"]),
        ]
    );
    assert_eq!(steps, grub_plan(&cfg, &strings(&["a.o", "b.o"])));
}

fn image_of(steps: &[Step]) -> Vec<u8> {
    match &steps[1] {
        Step::WriteFile { path, contents } => {
            assert_eq!(path, "/build/isofiles/modules.cpio.lz4");
            contents.clone()
        }
        _ => panic!("the module image is written second"),
    }
}

fn entries_of(archive: &[u8]) -> Vec<(String, Vec<u8>)> {
    let mut rest: &[u8] = archive;
    let mut out = Vec::new();
    loop {
        let mut reader = cpio::NewcReader::new(rest).unwrap();
        if reader.entry().is_trailer() {
            break;
        }
        let name = reader.entry().name().to_string();
        let mut data = Vec::new();
        reader.read_to_end(&mut data).unwrap();
        out.push((name, data));
        rest = reader.finish().unwrap();
    }
    out
}

fn unpacked(image: &[u8]) -> Vec<u8> {
    let length = u32::from_le_bytes([image[0], image[1], image[2], image[3]]) as usize;
    assert_eq!(length, image.len() - 4);
    lz4_flex::block::decompress(&image[4..], 1 << 20).unwrap()
}

fn archive_of(files: &[ModuleFile]) -> Vec<u8> {
    let mut inputs = Vec::new();
    for f in files {
        inputs.push((cpio::NewcBuilder::new(&f.name), std::io::Cursor::new(f.contents.clone())));
    }
    cpio::write_cpio(inputs.into_iter(), Vec::new()).unwrap()
}

#[test]
fn the_module_image_holds_every_module_once_unpacked() {
    let steps = process(&config("limine"), &modules(), true, false).unwrap();
    let image = image_of(&steps);
    let prefix = u32::from_le_bytes([image[0], image[1], image[2], image[3]]);
    assert_eq!(prefix as usize, image.len() - 4);
    let archive = unpacked(&image);
    assert_eq!(
        entries_of(&archive),
        vec![("a.o".to_string(), b"AA".to_vec()), ("b.o".to_string(), b"BB".to_vec())]
    );
    assert_eq!(&image[4..], &lz4_flex::block::compress(&archive)[..]);
}

#[test]
fn packing_is_archiving_then_compressing_then_framing() {
    let files = modules();
    let image = pack_modules(&files).unwrap();
    let archive = archive_of(&files);
    assert_ne!(archive, files[0].contents);
    let block = lz4_flex::block::compress(&archive);
    assert_ne!(block, archive);
    let mut expected = (block.len() as u32).to_le_bytes().to_vec();
    expected.extend_from_slice(&block);
    assert_eq!(image, expected);
    assert_eq!(pack_archive(Some(archive.clone())), Ok(image.clone()));
    assert_eq!(frame_block(block), image);
    assert_eq!(pack_archive(None), Err(BuildError::ArchiveNotWritten));
}

#[test]
fn the_prefix_is_the_length_of_the_compressed_block() {
    let plain = vec![7u8; 5000];
    let image = pack_archive(Some(plain.clone())).unwrap();
    let prefix = u32::from_le_bytes([image[0], image[1], image[2], image[3]]) as usize;
    assert_eq!(prefix, image.len() - 4);
    assert!(prefix < plain.len());
    assert_eq!(unpacked(&image), plain);
    assert_eq!(frame_block(vec![]), vec![0, 0, 0, 0]);
    assert_eq!(frame_block(vec![9, 8, 7]), vec![3, 0, 0, 0, 9, 8, 7]);
    let long = frame_block(vec![1u8; 0x1_0203]);
    assert_eq!(&long[..4], &[3, 2, 1, 0]);
    assert_eq!(long.len(), 0x1_0203 + 4);
}

fn padded4(n: usize) -> usize {
    (n + 3) / 4 * 4
}

#[test]
fn the_archive_is_as_long_as_its_entries_and_its_trailer() {
    let cases: Vec<Vec<(&str, usize)>> = vec![
        vec![],
        vec![("a.o", 2), ("b.o", 2)],
        vec![("", 0)],
        vec![("x", 1), ("xy", 2), ("xyz", 3), ("wxyz", 4), ("vwxyz", 5)],
        vec![("k#memory-0123456789abcdef.o", 4097), ("a#shell-\u{e9}\u{fc}.o", 0)],
    ];
    for case in cases {
        let files: Vec<ModuleFile> = case
            .iter()
            .map(|(name, size)| ModuleFile { name: name.to_string(), contents: vec![5u8; *size] })
            .collect();
        let mut expected = 124;
        for f in &files {
            expected += padded4(110 + f.name.len() + 1) + padded4(f.contents.len());
        }
        let archive = archive_of(&files);
        assert_eq!(archive.len(), expected);
        assert_eq!(unpacked(&pack_modules(&files).unwrap()), archive);
    }
    assert_eq!(archive_of(&modules()).len(), 364);
}

#[test]
fn a_block_is_no_longer_than_its_limit() {
    let mut noise: Vec<u8> = Vec::new();
    let mut state: u32 = 12345;
    for _ in 0..10_000 {
        state = state.wrapping_mul(1_664_525).wrapping_add(1_013_904_223);
        noise.push((state >> 24) as u8);
    }
    for input in [vec![], vec![1u8], noise.clone(), noise[..13].to_vec(), vec![0u8; 70_000]] {
        let block = lz4_flex::block::compress(&input);
        assert!(block.len() <= 20 + input.len() * 11 / 10);
        let image = pack_archive(Some(input.clone())).unwrap();
        assert_eq!(image.len(), block.len() + 4);
    }
}

#[test]
fn an_empty_module_directory_is_packed_as_a_bare_trailer() {
    let image = pack_modules(&vec![]).unwrap();
    let archive = unpacked(&image);
    assert_eq!(entries_of(&archive), vec![]);
    assert!(archive.len() > 0);
}

fn tail(cfg: &AddBootloaderConfig) -> Vec<Step> {
    vec![
        copy("/build/limine/limine-3/limine-cd.bin", "/build/isofiles/limine-cd.bin"),
        copy("/build/limine/limine-3/limine-cd-efi.bin", "/build/isofiles/limine-cd-efi.bin"),
        copy("/build/limine/limine-3/limine.sys", "/build/isofiles/limine.sys"),
        if cfg.limine_config == "built-in" {
            Step::WriteFile {
                path: "/build/isofiles/limine.cfg".to_string(),
                contents: b"TIMEOUT=0\n\n:Theseus OS\nPROTOCOL=multiboot2\nKERNEL_PATH=boot:///boot/kernel.bin\nMODULE_PATH=boot:///modules.cpio.lz4\nMODULE_STRING=modules.cpio.lz4\n".to_vec(),
            }
        } else {
            copy(&cfg.limine_config, "/build/isofiles/limine.cfg")
        },
        Step::RemoveFile { path: "/build/os.iso".to_string() },
        run(
            "xorriso",
            &[
                "-as",
                "mkisofs",
                "-b",
                "limine-cd.bin",
                "-no-emul-boot",
                "-boot-load-size",
                "4",
                "-boot-info-table",
                "--efi-boot",
                "limine-cd-efi.bin",
                "-efi-boot-part",
                "--efi-boot-image",
                "--protective-msdos-label",
                "/build/isofiles",
                "-o",
                "/build/os.iso",
            ],
        ),
        run("make", &["-C", "/build/limine/limine-3"]),
        run("/build/limine/limine-3/limine-deploy", &["/build/os.iso"]),
    ]
}

fn head(image: &[u8]) -> Vec<Step> {
    vec![
        copy("/build/nanocore/kernel.bin", "/build/isofiles/boot/kernel.bin"),
        Step::WriteFile {
            path: "/build/isofiles/modules.cpio.lz4".to_string(),
            contents: image.to_vec(),
        },
    ]
}

#[test]
fn binaries_at_hand_are_not_fetched() {
    let cfg = config("limine");
    let steps = limine_plan(&cfg, vec![1, 2, 3], true, false).unwrap();
    let mut expected = head(&[1, 2, 3]);
    expected.extend(tail(&cfg));
    assert_eq!(steps, expected);
    assert_eq!(limine_plan(&cfg, vec![1, 2, 3], true, true).unwrap(), expected);
}

#[test]
fn a_kept_tarball_is_extracted_without_download() {
    let cfg = config("limine");
    let steps = limine_plan(&cfg, vec![], false, true).unwrap();
    let mut expected = head(&[]);
    expected.push(Step::CreateDir { path: "/build/limine".to_string(), all: false });
    expected.push(run("tar", &["-axf", "/build/limine.tar.xz", "-C", "/build/limine"]));
    expected.extend(tail(&cfg));
    assert_eq!(steps, expected);
}

#[test]
fn a_remote_tarball_is_downloaded_first() {
    let mut cfg = config("limine");
    let steps = limine_plan(&cfg, vec![], false, false).unwrap();
    let mut expected = head(&[]);
    expected.push(run(
        "curl",
        &["-o", "/build/limine.tar.xz", "https://example.org/limine.tar.xz"],
    ));
    expected.push(Step::CreateDir { path: "/build/limine".to_string(), all: false });
    expected.push(run("tar", &["-axf", "/build/limine.tar.xz", "-C", "/build/limine"]));
    expected.extend(tail(&cfg));
    assert_eq!(steps, expected);
    cfg.downloader = "wget".to_string();
    let steps = limine_plan(&cfg, vec![], false, false).unwrap();
    assert_eq!(
        steps[2],
        run("wget", &["-O", "/build/limine.tar.xz", "https://example.org/limine.tar.xz"])
    );
}

#[test]
fn a_local_tarball_is_extracted_where_it_lies() {
    let mut cfg = config("limine");
    cfg.limine_tarball = "/downloads/limine.tar.xz".to_string();
    cfg.downloader = "fetch".to_string();
    cfg.limine_config = "/etc/limine.cfg".to_string();
    let steps = limine_plan(&cfg, vec![9], false, false).unwrap();
    let mut expected = head(&[9]);
    expected.push(Step::CreateDir { path: "/build/limine".to_string(), all: false });
    expected.push(run("tar", &["-axf", "/downloads/limine.tar.xz", "-C", "/build/limine"]));
    expected.extend(tail(&cfg));
    assert_eq!(steps, expected);
    assert_eq!(steps[7], copy("/etc/limine.cfg", "/build/isofiles/limine.cfg"));
}

#[test]
fn an_unsupported_downloader_fails_only_where_a_download_is_needed() {
    let mut cfg = config("limine");
    cfg.downloader = "fetch".to_string();
    let failed = BuildError::UnsupportedDownloader { name: "fetch".to_string() };
    assert_eq!(limine_plan(&cfg, vec![], false, false), Err(failed.clone()));
    assert_eq!(process(&cfg, &modules(), false, false), Err(failed));
    assert!(limine_plan(&cfg, vec![], true, false).is_ok());
    assert!(limine_plan(&cfg, vec![], false, true).is_ok());
}

#[test]
fn each_downloader_has_its_output_option() {
    assert_eq!(downloader_output_flag("wget"), Ok("-O".to_string()));
    assert_eq!(downloader_output_flag("curl"), Ok("-o".to_string()));
    assert_eq!(
        downloader_output_flag("aria2c"),
        Err(BuildError::UnsupportedDownloader { name: "aria2c".to_string() })
    );
}

#[test]
fn the_limine_path_plans_around_the_packed_modules() {
    let cfg = config("limine");
    let image = pack_modules(&modules()).unwrap();
    let steps = process(&cfg, &modules(), false, true).unwrap();
    assert_eq!(steps, limine_plan(&cfg, image, false, true).unwrap());
}

#[test]
fn a_length_is_written_lowest_byte_first() {
    assert_eq!(length_prefix(0), vec![0, 0, 0, 0]);
    assert_eq!(length_prefix(1), vec![1, 0, 0, 0]);
    assert_eq!(length_prefix(0x0102_0304), vec![4, 3, 2, 1]);
    assert_eq!(length_prefix(0xFFFF_FFFF), vec![255, 255, 255, 255]);
    for len in [255usize, 256, 65535, 65536, 16_777_215, 16_777_216, 123_456_789] {
        assert_eq!(length_prefix(len), (len as u32).to_le_bytes().to_vec());
    }
    let block = vec![7u8; 300];
    assert_eq!(&frame_block(block)[..4], &length_prefix(300)[..]);
}
