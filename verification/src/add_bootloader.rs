//! Assembles the bootable image.
//!
//! With `grub` the modules are listed one by one in a generated boot-loader
//! configuration. With `limine` the whole module directory goes into one
//! archive, compressed, so that the boot loader reads a single file; the boot
//! loader's prebuilt binaries are fetched where they are not yet at hand.

use crate::error::{BuildError, BuildErrorView};
use crate::options::{text_in, Config, ConfigView};
use crate::plan::{run_step, tool, Step, StepView};
use crate::text::{append_text, has_prefix, join, pad_right, pad_to, path_join, str_eq};
use vstd::prelude::*;
use vstd::utf8::encode_utf8;

verus! {

/// What the stage is configured with.
#[derive(Debug, Clone, PartialEq, Eq)]
pub struct AddBootloaderConfig {
    /// Where the image is written.
    pub output_iso: String,
    /// The kernel binary.
    pub nanocore_path: String,
    /// The directory of the finished modules.
    pub modules_dir: String,
    /// The root of the image tree.
    pub isofiles_dir: String,
    /// The boot loader: `grub` or `limine`.
    pub bootloader: String,
    /// The tool that authors a grub image.
    pub grub_mkrescue: String,
    /// `built-in`, or the path of a configuration for limine.
    pub limine_config: String,
    /// Where limine's prebuilt binaries come from: an address or a path.
    pub limine_tarball: String,
    /// Where a downloaded tarball is kept.
    pub tarball_path: String,
    /// The directory that the tarball is extracted into.
    pub extract_dir: String,
    /// The directory that the extraction leaves; it holds the binaries.
    pub expected_subdir: String,
    /// The downloader: `wget` or `curl`.
    pub downloader: String,
    /// The tool that authors a limine image.
    pub xorriso: String,
    /// Where the kernel binary lies in the image tree.
    pub nanocore_destination: String,
}

pub struct AddBootloaderConfigView {
    pub output_iso: Seq<char>,
    pub nanocore_path: Seq<char>,
    pub modules_dir: Seq<char>,
    pub isofiles_dir: Seq<char>,
    pub bootloader: Seq<char>,
    pub grub_mkrescue: Seq<char>,
    pub limine_config: Seq<char>,
    pub limine_tarball: Seq<char>,
    pub tarball_path: Seq<char>,
    pub extract_dir: Seq<char>,
    pub expected_subdir: Seq<char>,
    pub downloader: Seq<char>,
    pub xorriso: Seq<char>,
    pub nanocore_destination: Seq<char>,
}

impl DeepView for AddBootloaderConfig {
    type V = AddBootloaderConfigView;

    open spec fn deep_view(&self) -> AddBootloaderConfigView {
        AddBootloaderConfigView {
            output_iso: self.output_iso@,
            nanocore_path: self.nanocore_path@,
            modules_dir: self.modules_dir@,
            isofiles_dir: self.isofiles_dir@,
            bootloader: self.bootloader@,
            grub_mkrescue: self.grub_mkrescue@,
            limine_config: self.limine_config@,
            limine_tarball: self.limine_tarball@,
            tarball_path: self.tarball_path@,
            extract_dir: self.extract_dir@,
            expected_subdir: self.expected_subdir@,
            downloader: self.downloader@,
            xorriso: self.xorriso@,
            nanocore_destination: self.nanocore_destination@,
        }
    }
}

/// A boot loader that an image can be built with.
#[derive(Debug, Clone, Copy, PartialEq, Eq)]
pub enum Bootloader {
    Grub,
    Limine,
}

/// A file of the module directory: its name and what it holds.
#[derive(Debug, Clone, PartialEq, Eq)]
pub struct ModuleFile {
    pub name: String,
    pub contents: Vec<u8>,
}

pub struct ModuleFileView {
    pub name: Seq<char>,
    pub contents: Seq<u8>,
}

impl DeepView for ModuleFile {
    type V = ModuleFileView;

    open spec fn deep_view(&self) -> ModuleFileView {
        ModuleFileView { name: self.name@, contents: self.contents@ }
    }
}

/// The stage's name.
pub open spec fn stage_name() -> Seq<char> {
    "add-bootloader"@
}

/// The boot loader that a selector names.
pub open spec fn bootloader_named(name: Seq<char>) -> Option<Bootloader> {
    if name == "grub"@ {
        Some(Bootloader::Grub)
    } else if name == "limine"@ {
        Some(Bootloader::Limine)
    } else {
        None
    }
}

/// Reads the boot-loader selector. Anything but `grub` and `limine` is
/// `UnknownBootloader`.
pub fn parse_bootloader(name: &str) -> (r: Result<Bootloader, BuildError>)
    ensures
        match r {
            Ok(b) => bootloader_named(name@) == Some(b),
            Err(e) => bootloader_named(name@) is None && e.deep_view() == (
            BuildErrorView::UnknownBootloader { name: name@ }),
        },
{
    if str_eq(name, "grub") {
        Ok(Bootloader::Grub)
    } else if str_eq(name, "limine") {
        Ok(Bootloader::Limine)
    } else {
        Err(BuildError::UnknownBootloader { name: name.to_owned() })
    }
}

/// The lines that open a grub configuration.
pub open spec fn grub_header() -> Seq<char> {
    "### This file has been autogenerated, do not manually modify it!\n"@ + "set timeout=0\n"@
        + "set default=0\n\n"@ + "menuentry \"Theseus OS\" {\n"@
        + "\tmultiboot2 /boot/kernel.bin \n"@
}

/// The line that loads the module `name`: the path, then the name once more
/// as the module's argument, both in columns fifty wide.
pub open spec fn grub_module_line(name: Seq<char>) -> Seq<char> {
    "\tmodule2 /modules/"@ + pad_to(name, 50) + "\t\t"@ + pad_to(name, 50) + "\n"@
}

/// One line per module, in listing order.
pub open spec fn grub_module_lines(names: Seq<Seq<char>>) -> Seq<char>
    decreases names.len(),
{
    if names.len() == 0 {
        Seq::empty()
    } else {
        grub_module_lines(names.drop_last()) + grub_module_line(names.last())
    }
}

/// The lines that close a grub configuration.
pub open spec fn grub_footer() -> Seq<char> {
    "\n\tboot\n}\n"@
}

/// The grub configuration for the modules `names`.
pub open spec fn grub_cfg(names: Seq<Seq<char>>) -> Seq<char> {
    grub_header() + grub_module_lines(names) + grub_footer()
}

/// The names of a directory listing.
pub open spec fn listed_names(listing: Seq<(Seq<char>, bool)>) -> Seq<Seq<char>> {
    Seq::new(listing.len(), |i: int| listing[i].0)
}

/// The names of the module files.
pub open spec fn module_names(files: Seq<ModuleFileView>) -> Seq<Seq<char>> {
    Seq::new(files.len(), |i: int| files[i].name)
}

/// Writes the grub configuration for the modules `names`.
fn grub_cfg_text(names: &Vec<String>) -> (r: String)
    ensures
        r@ == grub_cfg(names.deep_view()),
{
    let mut lines = String::new();
    lines.append("### This file has been autogenerated, do not manually modify it!\n");
    lines.append("set timeout=0\n");
    lines.append("set default=0\n\n");
    lines.append("menuentry \"Theseus OS\" {\n");
    lines.append("\tmultiboot2 /boot/kernel.bin \n");
    assert(lines@ =~= grub_header());
    let ghost nv = names.deep_view();
    let n = names.len();
    let mut i: usize = 0;
    assert(lines@ =~= grub_header() + grub_module_lines(nv.take(0)));
    while i < n
        invariant
            n == names.len(),
            i <= n,
            nv == names.deep_view(),
            lines@ == grub_header() + grub_module_lines(nv.take(i as int)),
        decreases n - i,
    {
        let ghost before = lines@;
        let column = pad_right(names[i].as_str(), 50);
        lines.append("\tmodule2 /modules/");
        lines.append(column.as_str());
        lines.append("\t\t");
        lines.append(column.as_str());
        lines.append("\n");
        proof {
            assert(nv.take(i + 1).drop_last() =~= nv.take(i as int));
            assert(nv.take(i + 1).last() == nv[i as int]);
            assert(lines@ =~= before + grub_module_line(nv[i as int]));
            assert(lines@ =~= grub_header() + grub_module_lines(nv.take(i + 1)));
        }
        i += 1;
    }
    assert(nv.take(n as int) =~= nv);
    lines.append("\n\tboot\n}\n");
    assert(lines@ =~= grub_cfg(nv));
    lines
}

/// Writes the grub configuration for a module directory: the fixed opening
/// lines, one `module2` line per entry of the listing in listing order, and
/// the closing lines.
pub fn create_grub_cfg_string(modules: &[(String, bool)]) -> (r: String)
    ensures
        r@ == grub_cfg(listed_names(modules.deep_view())),
{
    let mut names: Vec<String> = Vec::new();
    let n = modules.len();
    let mut i: usize = 0;
    while i < n
        invariant
            n == modules.len(),
            i <= n,
            names.deep_view() == listed_names(modules.deep_view()).take(i as int),
        decreases n - i,
    {
        let ghost before = names.deep_view();
        let entry = &modules[i];
        assert(entry.deep_view() == modules.deep_view()[i as int]);
        names.push(entry.0.clone());
        assert(names.deep_view() =~= before.push(modules.deep_view()[i as int].0));
        assert(listed_names(modules.deep_view()).take(i + 1) =~= before.push(
            modules.deep_view()[i as int].0,
        ));
        i += 1;
    }
    assert(listed_names(modules.deep_view()).take(n as int) =~= listed_names(modules.deep_view()));
    grub_cfg_text(&names)
}

/// The option by which a downloader is told where to write.
pub open spec fn output_flag(downloader: Seq<char>) -> Option<Seq<char>> {
    if downloader == "wget"@ {
        Some("-O"@)
    } else if downloader == "curl"@ {
        Some("-o"@)
    } else {
        None
    }
}

/// The option by which `downloader` is told where to write: `-O` for `wget`,
/// `-o` for `curl`. Any other downloader is `UnsupportedDownloader`.
pub fn downloader_output_flag(downloader: &str) -> (r: Result<String, BuildError>)
    ensures
        match r {
            Ok(flag) => output_flag(downloader@) == Some(flag@),
            Err(e) => output_flag(downloader@) is None && e.deep_view() == (
            BuildErrorView::UnsupportedDownloader { name: downloader@ }),
        },
{
    if str_eq(downloader, "wget") {
        Ok("-O".to_owned())
    } else if str_eq(downloader, "curl") {
        Ok("-o".to_owned())
    } else {
        Err(BuildError::UnsupportedDownloader { name: downloader.to_owned() })
    }
}

/// The boot-loader configuration that is used where none is supplied.
pub open spec fn builtin_limine_cfg() -> Seq<char> {
    "TIMEOUT=0\n\n:Theseus OS\nPROTOCOL=multiboot2\nKERNEL_PATH=boot:///boot/kernel.bin\nMODULE_PATH=boot:///modules.cpio.lz4\nMODULE_STRING=modules.cpio.lz4\n"@
}

/// The steps of the grub path: put the kernel binary into the image tree,
/// write the configuration that lists the modules `names`, and author the
/// image.
pub open spec fn grub_steps(cfg: AddBootloaderConfigView, names: Seq<Seq<char>>) -> Seq<StepView> {
    seq![
        StepView::Copy { from: cfg.nanocore_path, to: cfg.nanocore_destination },
        StepView::CreateDir { path: cfg.isofiles_dir + "/boot/grub"@, all: true },
        StepView::WriteFile {
            path: cfg.isofiles_dir + "/boot/grub"@ + "/grub.cfg"@,
            contents: encode_utf8(grub_cfg(names)),
        },
        run_step(stage_name(), cfg.grub_mkrescue, seq!["-o"@, cfg.output_iso, cfg.isofiles_dir]),
    ]
}

/// Plans the grub path for the modules `names`.
pub fn grub_plan(config: &AddBootloaderConfig, names: &Vec<String>) -> (steps: Vec<Step>)
    ensures
        steps.deep_view() == grub_steps(config.deep_view(), names.deep_view()),
{
    let ghost cfg = config.deep_view();
    let stage = "add-bootloader";
    let grub_dir = append_text(config.isofiles_dir.as_str(), "/boot/grub");
    let grub_cfg_path = append_text(grub_dir.as_str(), "/grub.cfg");
    let cfg_string = grub_cfg_text(names);
    let mut args: Vec<String> = Vec::new();
    args.push("-o".to_owned());
    args.push(config.output_iso.clone());
    args.push(config.isofiles_dir.clone());
    assert(args.deep_view() =~= seq!["-o"@, cfg.output_iso, cfg.isofiles_dir]);
    let mut steps: Vec<Step> = Vec::new();
    steps.push(
        Step::Copy { from: config.nanocore_path.clone(), to: config.nanocore_destination.clone() },
    );
    steps.push(Step::CreateDir { path: grub_dir, all: true });
    steps.push(
        Step::WriteFile { path: grub_cfg_path, contents: cfg_string.as_str().as_bytes_vec() },
    );
    steps.push(Step::Run(tool(stage, config.grub_mkrescue.as_str(), args)));
    assert(steps.deep_view() =~= grub_steps(cfg, names.deep_view()));
    steps
}

/// The module archive: what `cpio::write_cpio` writes for the entries, each a
/// name and its bytes, in the new ASCII format.
pub uninterp spec fn newc_archive(entries: Seq<(Seq<char>, Seq<u8>)>) -> Seq<u8>;

/// The block that `lz4_flex::block::compress` makes of the input.
pub uninterp spec fn lz4_block(input: Seq<u8>) -> Seq<u8>;

/// The entries of the module archive: the module files by name and bytes, in
/// listing order.
pub open spec fn archive_entries(files: Seq<ModuleFileView>) -> Seq<(Seq<char>, Seq<u8>)> {
    Seq::new(files.len(), |i: int| (files[i].name, files[i].contents))
}

/// A length as the four bytes of a 32-bit number, lowest byte first.
pub open spec fn size_prefix(len: nat) -> Seq<u8> {
    let n = len % 0x1_0000_0000;
    seq![
        (n % 256) as u8,
        ((n / 0x100) % 256) as u8,
        ((n / 0x1_0000) % 256) as u8,
        ((n / 0x100_0000) % 256) as u8,
    ]
}

/// The four bytes that stand for a length in front of a compressed block.
pub fn length_prefix(len: usize) -> (r: Vec<u8>)
    ensures
        r@ == size_prefix(len as nat),
{
    let n: u64 = (len as u64) % 0x1_0000_0000;
    let mut r: Vec<u8> = Vec::new();
    r.push((n % 256) as u8);
    r.push(((n / 0x100) % 256) as u8);
    r.push(((n / 0x1_0000) % 256) as u8);
    r.push(((n / 0x100_0000) % 256) as u8);
    assert(r@ =~= size_prefix(len as nat));
    r
}

/// The number that four bytes write, lowest byte first.
pub open spec fn prefix_value(image: Seq<u8>) -> nat {
    (image[0] as nat) + (image[1] as nat) * 0x100 + (image[2] as nat) * 0x1_0000 + (image[3] as nat)
        * 0x100_0000
}

/// A compressed block as the boot loader reads it: the block's own length in
/// four bytes, lowest byte first, and behind it the block. A length that four
/// bytes cannot hold wraps around.
pub open spec fn framed(block: Seq<u8>) -> Seq<u8> {
    size_prefix(block.len()) + block
}

/// A byte string compressed for the boot loader: its compressed block,
/// framed.
pub open spec fn compressed(input: Seq<u8>) -> Seq<u8> {
    framed(lz4_block(input))
}

/// The one file that holds all modules.
pub open spec fn module_image(files: Seq<ModuleFileView>) -> Seq<u8> {
    compressed(newc_archive(archive_entries(files)))
}

/// The four bytes in front of a framed block tell the length of the block,
/// which is the length of all that follows them, as long as four bytes can
/// hold that length.
pub proof fn lemma_prefix_tells_block_length(block: Seq<u8>)
    requires
        block.len() <= 0xFFFF_FFFF,
    ensures
        framed(block).len() == block.len() + 4,
        prefix_value(framed(block)) == block.len(),
        prefix_value(framed(block)) == framed(block).len() - 4,
        framed(block).subrange(4, framed(block).len() as int) == block,
{
    let n = block.len();
    let image = framed(block);
    assert(n % 0x1_0000_0000 == n);
    assert(image[0] == (n % 256) as u8);
    assert(image[1] == ((n / 0x100) % 256) as u8);
    assert(image[2] == ((n / 0x1_0000) % 256) as u8);
    assert(image[3] == ((n / 0x100_0000) % 256) as u8);
    assert(n / 0x100_0000 < 256);
    assert(n == n % 256 + ((n / 0x100) % 256) * 0x100 + ((n / 0x1_0000) % 256) * 0x1_0000 + (n
        / 0x100_0000) * 0x100_0000);
    assert(image.subrange(4, image.len() as int) =~= block);
}

/// A length rounded up to the next multiple of four.
pub open spec fn padded4(n: nat) -> nat {
    if n % 4 == 0 {
        n
    } else {
        (n + 4 - n % 4) as nat
    }
}

/// The length of one entry in the archive: a header of 110 bytes with the
/// name and a closing zero byte behind it, filled up to a multiple of four,
/// and the entry's bytes, filled up likewise.
pub open spec fn entry_len(entry: (Seq<char>, Seq<u8>)) -> nat {
    padded4(110 + encode_utf8(entry.0).len() + 1) + padded4(entry.1.len())
}

/// The length of the archive of the entries: the entries one after the
/// other, and the trailer of 124 bytes.
pub open spec fn newc_len(entries: Seq<(Seq<char>, Seq<u8>)>) -> nat
    decreases entries.len(),
{
    if entries.len() == 0 {
        124
    } else {
        newc_len(entries.drop_last()) + entry_len(entries.last())
    }
}

/// Every name is short enough for the eight digits that a header has for its
/// length.
pub open spec fn names_fit(entries: Seq<(Seq<char>, Seq<u8>)>) -> bool {
    forall|i: int| 0 <= i < entries.len() ==> encode_utf8((#[trigger] entries[i]).0).len() < 0xFFFF_FFFF
}

/// The longest block that an input of `len` bytes is compressed to.
pub open spec fn block_limit(len: nat) -> nat {
    20 + len * 11 / 10
}

/// What is known of the sizes on the way to the module image: the archive of
/// entries with names that fit is as long as `newc_len` says, and the block
/// of an archive of no more than `0xFFFF_FFFF_FFFF` bytes is no longer than
/// `block_limit` says.
pub open spec fn sizes_hold(files: Seq<ModuleFileView>) -> bool {
    let entries = archive_entries(files);
    let archive = newc_archive(entries);
    &&& names_fit(entries) ==> archive.len() == newc_len(entries)
    &&& archive.len() <= 0xFFFF_FFFF_FFFF ==> lz4_block(archive).len() <= block_limit(archive.len())
}

/// Whether a module is small enough for the archive's size field.
pub open spec fn fits_archive(f: ModuleFileView) -> bool {
    f.contents.len() <= 0xFFFF_FFFF
}

/// Every module is small enough for the archive.
pub open spec fn all_fit(files: Seq<ModuleFileView>) -> bool {
    forall|i: int| 0 <= i < files.len() ==> fits_archive(#[trigger] files[i])
}

/// The module at `i` is the first that is too large for the archive.
pub open spec fn first_oversized(files: Seq<ModuleFileView>, i: int) -> bool {
    &&& 0 <= i < files.len()
    &&& !fits_archive(files[i])
    &&& forall|j: int| 0 <= j < i ==> fits_archive(#[trigger] files[j])
}

/// `cpio::write_cpio` over entries held in memory: each file is archived
/// under its name with the builder's defaults and its place in the list as
/// inode number, and a trailer ends the archive. With every file short enough
/// for the size that its header announces, neither reading from memory nor
/// writing into memory can fail, so the archive always comes back. Where
/// every name is short enough for the eight digits of its length, the archive
/// is as long as `newc_len` says.
#[verifier::external_body]
fn write_newc(files: &Vec<ModuleFile>) -> (r: Option<Vec<u8>>)
    requires
        all_fit(files.deep_view()),
    ensures
        r is Some,
        r matches Some(bytes) ==> bytes@ == newc_archive(archive_entries(files.deep_view())),
        r matches Some(bytes) ==> (names_fit(archive_entries(files.deep_view())) ==> bytes@.len()
            == newc_len(archive_entries(files.deep_view()))),
{
    let inputs = files.iter().map(
        |f| (cpio::NewcBuilder::new(&f.name), std::io::Cursor::new(&f.contents)),
    );
    cpio::write_cpio(inputs, Vec::new()).ok()
}

/// `lz4_flex::block::compress`: the input's compressed block. The block is
/// written into room of `get_maximum_output_size` bytes, twenty more than
/// eleven tenths of the input's length, and is no longer than that.
pub assume_specification[ lz4_flex::block::compress ](input: &[u8]) -> (out: Vec<u8>)
    ensures
        out@ == lz4_block(input@),
        input@.len() <= 0xFFFF_FFFF_FFFF ==> out@.len() <= block_limit(input@.len()),
;

/// Frames a compressed block for the boot loader: the block's length in four
/// bytes, lowest byte first, and behind it the block.
pub fn frame_block(block: Vec<u8>) -> (image: Vec<u8>)
    ensures
        image@ == framed(block@),
{
    let mut image = length_prefix(block.len());
    let mut rest = block;
    image.append(&mut rest);
    image
}

/// Compresses the module archive, where there is one, for the boot loader.
pub fn pack_archive(archive: Option<Vec<u8>>) -> (r: Result<Vec<u8>, BuildError>)
    ensures
        match r {
            Ok(image) => archive matches Some(bytes) && image@ == compressed(bytes@)
                && (bytes@.len() <= 0xFFFF_FFFF_FFFF ==> lz4_block(bytes@).len() <= block_limit(
                bytes@.len(),
            )),
            Err(e) => archive is None && e.deep_view() == BuildErrorView::ArchiveNotWritten,
        },
{
    match archive {
        Some(bytes) => Ok(frame_block(lz4_flex::block::compress(bytes.as_slice()))),
        None => Err(BuildError::ArchiveNotWritten),
    }
}

/// Finds the first module that is too large for the archive.
fn find_oversized(files: &Vec<ModuleFile>) -> (r: Option<usize>)
    ensures
        match r {
            Some(i) => first_oversized(files.deep_view(), i as int),
            None => all_fit(files.deep_view()),
        },
{
    let n = files.len();
    let mut i: usize = 0;
    while i < n
        invariant
            n == files.len(),
            i <= n,
            forall|j: int| 0 <= j < i ==> fits_archive(#[trigger] files.deep_view()[j]),
        decreases n - i,
    {
        assert(files[i as int].deep_view() == files.deep_view()[i as int]);
        if files[i].contents.len() > 0xFFFF_FFFF {
            return Some(i);
        }
        i += 1;
    }
    None
}

/// Packs the module files into the one file that the boot loader reads: an
/// archive of all of them in listing order, compressed, with the length of
/// the compressed block in front. Modules that fit the archive are always
/// packed. A module of more than `0xFFFF_FFFF` bytes cannot be archived:
/// `ModuleTooLarge` with the name of the first such module.
pub fn pack_modules(files: &Vec<ModuleFile>) -> (r: Result<Vec<u8>, BuildError>)
    ensures
        all_fit(files.deep_view()) ==> r is Ok,
        match r {
            Ok(image) => all_fit(files.deep_view()) && image@ == module_image(files.deep_view())
                && sizes_hold(files.deep_view()),
            Err(e) => exists|i: int|
                #[trigger] first_oversized(files.deep_view(), i) && e.deep_view() == (
                BuildErrorView::ModuleTooLarge { name: files.deep_view()[i].name }),
        },
{
    match find_oversized(files) {
        Some(i) => {
            assert(files[i as int].deep_view() == files.deep_view()[i as int]);
            Err(BuildError::ModuleTooLarge { name: files[i].name.clone() })
        },
        None => pack_archive(write_newc(files)),
    }
}

/// Whether limine's binaries come from the network.
pub open spec fn is_remote(source: Seq<char>) -> bool {
    "https://"@.is_prefix_of(source)
}

/// Whether the tarball has to be downloaded: the binaries are not at hand, no
/// tarball is, and the source is an address.
pub open spec fn needs_download(
    cfg: AddBootloaderConfigView,
    prebuilt_present: bool,
    tarball_present: bool,
) -> bool {
    !prebuilt_present && !tarball_present && is_remote(cfg.limine_tarball)
}

/// The tarball that is extracted: the kept one where it is at hand or is
/// downloaded, else the configured source, taken as a path.
pub open spec fn tarball_to_extract(cfg: AddBootloaderConfigView, tarball_present: bool) -> Seq<char> {
    if tarball_present || is_remote(cfg.limine_tarball) {
        cfg.tarball_path
    } else {
        cfg.limine_tarball
    }
}

/// The steps that bring limine's binaries to hand: none where they are there
/// already; else the download where one is needed, and the extraction.
pub open spec fn provision_steps(
    cfg: AddBootloaderConfigView,
    prebuilt_present: bool,
    tarball_present: bool,
) -> Seq<StepView> {
    if prebuilt_present {
        Seq::empty()
    } else {
        let download = if needs_download(cfg, prebuilt_present, tarball_present) {
            seq![
                run_step(
                    stage_name(),
                    cfg.downloader,
                    seq![output_flag(cfg.downloader).unwrap(), cfg.tarball_path, cfg.limine_tarball],
                ),
            ]
        } else {
            Seq::empty()
        };
        download + seq![
            StepView::CreateDir { path: cfg.extract_dir, all: false },
            run_step(
                stage_name(),
                "tar"@,
                seq!["-axf"@, tarball_to_extract(cfg, tarball_present), "-C"@, cfg.extract_dir],
            ),
        ]
    }
}

/// The step that brings one of limine's binaries into the image tree.
pub open spec fn import_step(cfg: AddBootloaderConfigView, file: Seq<char>) -> StepView {
    StepView::Copy {
        from: path_join(cfg.expected_subdir, file),
        to: path_join(cfg.isofiles_dir, file),
    }
}

/// The step that installs limine's configuration: the built-in one, or a copy
/// of the file that the configuration names.
pub open spec fn config_step(cfg: AddBootloaderConfigView) -> StepView {
    if cfg.limine_config == "built-in"@ {
        StepView::WriteFile {
            path: path_join(cfg.isofiles_dir, "limine.cfg"@),
            contents: encode_utf8(builtin_limine_cfg()),
        }
    } else {
        StepView::Copy { from: cfg.limine_config, to: path_join(cfg.isofiles_dir, "limine.cfg"@) }
    }
}

/// The arguments of the image authoring tool: a boot catalog for the BIOS
/// loader and a hybrid layout for EFI.
pub open spec fn xorriso_args(cfg: AddBootloaderConfigView) -> Seq<Seq<char>> {
    seq![
        "-as"@,
        "mkisofs"@,
        "-b"@,
        "limine-cd.bin"@,
        "-no-emul-boot"@,
        "-boot-load-size"@,
        "4"@,
        "-boot-info-table"@,
        "--efi-boot"@,
        "limine-cd-efi.bin"@,
        "-efi-boot-part"@,
        "--efi-boot-image"@,
        "--protective-msdos-label"@,
        cfg.isofiles_dir,
        "-o"@,
        cfg.output_iso,
    ]
}

/// The steps that author the image once the image tree is complete: remove
/// an image left from an earlier run, author the new one, build the boot
/// loader's installer and run it on the image.
pub open spec fn authoring_steps(cfg: AddBootloaderConfigView) -> Seq<StepView> {
    seq![
        StepView::RemoveFile { path: cfg.output_iso },
        run_step(stage_name(), cfg.xorriso, xorriso_args(cfg)),
        run_step(stage_name(), "make"@, seq!["-C"@, cfg.expected_subdir]),
        run_step(
            stage_name(),
            path_join(cfg.expected_subdir, "limine-deploy"@),
            seq![cfg.output_iso],
        ),
    ]
}

/// The steps of the limine path, with `image` as the file that holds the
/// modules.
pub open spec fn limine_steps(
    cfg: AddBootloaderConfigView,
    image: Seq<u8>,
    prebuilt_present: bool,
    tarball_present: bool,
) -> Seq<StepView> {
    seq![
        StepView::Copy { from: cfg.nanocore_path, to: cfg.nanocore_destination },
        StepView::WriteFile { path: path_join(cfg.isofiles_dir, "modules.cpio.lz4"@), contents: image },
    ] + provision_steps(cfg, prebuilt_present, tarball_present) + seq![
        import_step(cfg, "limine-cd.bin"@),
        import_step(cfg, "limine-cd-efi.bin"@),
        import_step(cfg, "limine.sys"@),
        config_step(cfg),
    ] + authoring_steps(cfg)
}

/// Whether the download, where one is needed, can be planned.
pub open spec fn download_plannable(
    cfg: AddBootloaderConfigView,
    prebuilt_present: bool,
    tarball_present: bool,
) -> bool {
    needs_download(cfg, prebuilt_present, tarball_present) ==> output_flag(cfg.downloader) is Some
}

/// Plans the steps that bring limine's binaries to hand.
fn plan_provision(config: &AddBootloaderConfig, prebuilt_present: bool, tarball_present: bool) -> (r:
    Result<Vec<Step>, BuildError>)
    ensures
        match r {
            Ok(steps) => download_plannable(config.deep_view(), prebuilt_present, tarball_present)
                && steps.deep_view() == provision_steps(
                config.deep_view(),
                prebuilt_present,
                tarball_present,
            ),
            Err(e) => !download_plannable(config.deep_view(), prebuilt_present, tarball_present)
                && e.deep_view() == (BuildErrorView::UnsupportedDownloader {
                name: config.deep_view().downloader,
            }),
        },
{
    let ghost cfg = config.deep_view();
    let stage = "add-bootloader";
    let mut steps: Vec<Step> = Vec::new();
    if prebuilt_present {
        assert(steps.deep_view() =~= provision_steps(cfg, prebuilt_present, tarball_present));
        return Ok(steps);
    }
    let mut tarball = config.tarball_path.clone();
    if tarball_present {
    } else if has_prefix(config.limine_tarball.as_str(), "https://") {
        let flag = match downloader_output_flag(config.downloader.as_str()) {
            Ok(flag) => flag,
            Err(e) => {
                return Err(e);
            },
        };
        let mut args: Vec<String> = Vec::new();
        args.push(flag);
        args.push(config.tarball_path.clone());
        args.push(config.limine_tarball.clone());
        assert(args.deep_view() =~= seq![
            output_flag(cfg.downloader).unwrap(),
            cfg.tarball_path,
            cfg.limine_tarball,
        ]);
        steps.push(Step::Run(tool(stage, config.downloader.as_str(), args)));
    } else {
        tarball = config.limine_tarball.clone();
    }
    assert(tarball@ == tarball_to_extract(cfg, tarball_present));
    let mut args: Vec<String> = Vec::new();
    args.push("-axf".to_owned());
    args.push(tarball);
    args.push("-C".to_owned());
    args.push(config.extract_dir.clone());
    assert(args.deep_view() =~= seq![
        "-axf"@,
        tarball_to_extract(cfg, tarball_present),
        "-C"@,
        cfg.extract_dir,
    ]);
    steps.push(Step::CreateDir { path: config.extract_dir.clone(), all: false });
    steps.push(Step::Run(tool(stage, "tar", args)));
    assert(steps.deep_view() =~= provision_steps(cfg, prebuilt_present, tarball_present));
    Ok(steps)
}

/// Plans the import of one of limine's binaries.
fn plan_import(config: &AddBootloaderConfig, file: &str) -> (step: Step)
    ensures
        step.deep_view() == import_step(config.deep_view(), file@),
{
    Step::Copy {
        from: join(config.expected_subdir.as_str(), file),
        to: join(config.isofiles_dir.as_str(), file),
    }
}

/// Plans the steps that author the image.
fn plan_authoring(config: &AddBootloaderConfig) -> (steps: Vec<Step>)
    ensures
        steps.deep_view() == authoring_steps(config.deep_view()),
{
    let ghost cfg = config.deep_view();
    let stage = "add-bootloader";
    let mut args: Vec<String> = Vec::new();
    args.push("-as".to_owned());
    args.push("mkisofs".to_owned());
    args.push("-b".to_owned());
    args.push("limine-cd.bin".to_owned());
    args.push("-no-emul-boot".to_owned());
    args.push("-boot-load-size".to_owned());
    args.push("4".to_owned());
    args.push("-boot-info-table".to_owned());
    args.push("--efi-boot".to_owned());
    args.push("limine-cd-efi.bin".to_owned());
    args.push("-efi-boot-part".to_owned());
    args.push("--efi-boot-image".to_owned());
    args.push("--protective-msdos-label".to_owned());
    args.push(config.isofiles_dir.clone());
    args.push("-o".to_owned());
    args.push(config.output_iso.clone());
    assert(args.deep_view() =~= xorriso_args(cfg));
    let mut make_args: Vec<String> = Vec::new();
    make_args.push("-C".to_owned());
    make_args.push(config.expected_subdir.clone());
    assert(make_args.deep_view() =~= seq!["-C"@, cfg.expected_subdir]);
    let mut deploy_args: Vec<String> = Vec::new();
    deploy_args.push(config.output_iso.clone());
    assert(deploy_args.deep_view() =~= seq![cfg.output_iso]);
    let deploy = join(config.expected_subdir.as_str(), "limine-deploy");
    let mut steps: Vec<Step> = Vec::new();
    steps.push(Step::RemoveFile { path: config.output_iso.clone() });
    steps.push(Step::Run(tool(stage, config.xorriso.as_str(), args)));
    steps.push(Step::Run(tool(stage, "make", make_args)));
    steps.push(Step::Run(tool(stage, deploy.as_str(), deploy_args)));
    assert(steps.deep_view() =~= authoring_steps(cfg));
    steps
}

/// Plans the limine path around `image`, the file that holds the modules.
/// `prebuilt_present` says whether the directory of limine's binaries is
/// there, `tarball_present` whether the kept tarball is. Where a download is
/// needed and the downloader is neither `wget` nor `curl`, the plan fails with
/// `UnsupportedDownloader`.
pub fn limine_plan(
    config: &AddBootloaderConfig,
    image: Vec<u8>,
    prebuilt_present: bool,
    tarball_present: bool,
) -> (r: Result<Vec<Step>, BuildError>)
    ensures
        match r {
            Ok(steps) => download_plannable(config.deep_view(), prebuilt_present, tarball_present)
                && steps.deep_view() == limine_steps(
                config.deep_view(),
                image@,
                prebuilt_present,
                tarball_present,
            ),
            Err(e) => !download_plannable(config.deep_view(), prebuilt_present, tarball_present)
                && e.deep_view() == (BuildErrorView::UnsupportedDownloader {
                name: config.deep_view().downloader,
            }),
        },
{
    let ghost cfg = config.deep_view();
    let ghost iv = image@;
    let mut provision = match plan_provision(config, prebuilt_present, tarball_present) {
        Ok(steps) => steps,
        Err(e) => {
            return Err(e);
        },
    };
    let mut steps: Vec<Step> = Vec::new();
    steps.push(
        Step::Copy { from: config.nanocore_path.clone(), to: config.nanocore_destination.clone() },
    );
    steps.push(
        Step::WriteFile {
            path: join(config.isofiles_dir.as_str(), "modules.cpio.lz4"),
            contents: image,
        },
    );
    let ghost s0 = steps.deep_view();
    assert(s0 =~= seq![
        StepView::Copy { from: cfg.nanocore_path, to: cfg.nanocore_destination },
        StepView::WriteFile { path: path_join(cfg.isofiles_dir, "modules.cpio.lz4"@), contents: iv },
    ]);
    let ghost provision_before = provision.deep_view();
    steps.append(&mut provision);
    assert(steps.deep_view() =~= s0 + provision_before);
    let ghost s1 = steps.deep_view();
    steps.push(plan_import(config, "limine-cd.bin"));
    steps.push(plan_import(config, "limine-cd-efi.bin"));
    steps.push(plan_import(config, "limine.sys"));
    let limine_cfg = join(config.isofiles_dir.as_str(), "limine.cfg");
    if str_eq(config.limine_config.as_str(), "built-in") {
        let text = "TIMEOUT=0\n\n:Theseus OS\nPROTOCOL=multiboot2\nKERNEL_PATH=boot:///boot/kernel.bin\nMODULE_PATH=boot:///modules.cpio.lz4\nMODULE_STRING=modules.cpio.lz4\n";
        steps.push(Step::WriteFile { path: limine_cfg, contents: text.as_bytes_vec() });
    } else {
        steps.push(Step::Copy { from: config.limine_config.clone(), to: limine_cfg });
    }
    assert(steps.deep_view() =~= s1 + seq![
        import_step(cfg, "limine-cd.bin"@),
        import_step(cfg, "limine-cd-efi.bin"@),
        import_step(cfg, "limine.sys"@),
        config_step(cfg),
    ]);
    let ghost s2 = steps.deep_view();
    let mut authoring = plan_authoring(config);
    let ghost a0 = authoring.deep_view();
    steps.append(&mut authoring);
    assert(steps.deep_view() =~= s2 + a0);
    assert(steps.deep_view() =~= limine_steps(cfg, iv, prebuilt_present, tarball_present));
    Ok(steps)
}

/// What the stage plans: nothing but `UnknownBootloader` for a selector other
/// than `grub` and `limine`; for `grub` the grub path; for `limine` the limine
/// path around the packed modules, or `ModuleTooLarge` for the first module
/// that cannot be archived, or else `UnsupportedDownloader` where a download
/// is needed and cannot be planned.
pub open spec fn process_outcome(
    cfg: AddBootloaderConfigView,
    files: Seq<ModuleFileView>,
    prebuilt_present: bool,
    tarball_present: bool,
    r: Result<Vec<Step>, BuildError>,
) -> bool {
    match bootloader_named(cfg.bootloader) {
        None => r matches Err(e) && e.deep_view() == (BuildErrorView::UnknownBootloader {
            name: cfg.bootloader,
        }),
        Some(Bootloader::Grub) => r matches Ok(steps) && steps.deep_view() == grub_steps(
            cfg,
            module_names(files),
        ),
        Some(Bootloader::Limine) => match r {
            Ok(steps) => {
                &&& all_fit(files)
                &&& download_plannable(cfg, prebuilt_present, tarball_present)
                &&& sizes_hold(files)
                &&& steps.deep_view() == limine_steps(
                    cfg,
                    module_image(files),
                    prebuilt_present,
                    tarball_present,
                )
            },
            Err(e) => {
                ||| exists|i: int|
                    #[trigger] first_oversized(files, i) && e.deep_view() == (
                    BuildErrorView::ModuleTooLarge { name: files[i].name })
                ||| all_fit(files) && !download_plannable(cfg, prebuilt_present, tarball_present)
                    && e.deep_view() == (BuildErrorView::UnsupportedDownloader {
                    name: cfg.downloader,
                })
            },
        },
    }
}

/// Plans the assembly of the image from the files of the module directory,
/// in listing order. `prebuilt_present` says whether the directory of limine's
/// binaries is there, `tarball_present` whether the kept tarball is. The
/// selector is read first: with an unknown one nothing is planned.
pub fn process(
    config: &AddBootloaderConfig,
    modules: &Vec<ModuleFile>,
    prebuilt_present: bool,
    tarball_present: bool,
) -> (r: Result<Vec<Step>, BuildError>)
    ensures
        process_outcome(
            config.deep_view(),
            modules.deep_view(),
            prebuilt_present,
            tarball_present,
            r,
        ),
        bootloader_named(config.deep_view().bootloader) == Some(Bootloader::Limine) && all_fit(
            modules.deep_view(),
        ) && download_plannable(config.deep_view(), prebuilt_present, tarball_present) ==> r is Ok,
{
    match parse_bootloader(config.bootloader.as_str()) {
        Err(e) => Err(e),
        Ok(Bootloader::Grub) => {
            let mut names: Vec<String> = Vec::new();
            let n = modules.len();
            let mut i: usize = 0;
            while i < n
                invariant
                    n == modules.len(),
                    i <= n,
                    names.deep_view() == module_names(modules.deep_view()).take(i as int),
                decreases n - i,
            {
                let ghost before = names.deep_view();
                assert(modules[i as int].deep_view() == modules.deep_view()[i as int]);
                names.push(modules[i].name.clone());
                assert(names.deep_view() =~= before.push(modules.deep_view()[i as int].name));
                assert(module_names(modules.deep_view()).take(i + 1) =~= before.push(
                    modules.deep_view()[i as int].name,
                ));
                i += 1;
            }
            assert(module_names(modules.deep_view()).take(n as int) =~= module_names(
                modules.deep_view(),
            ));
            Ok(grub_plan(config, &names))
        },
        Ok(Bootloader::Limine) => {
            match pack_modules(modules) {
                Err(e) => Err(e),
                Ok(image) => limine_plan(config, image, prebuilt_present, tarball_present),
            }
        },
    }
}

/// The stage's options as the configuration gives them: each from its key.
/// Of the options that cannot be read, the first in this order fails them
/// all.
pub open spec fn configured(c: ConfigView) -> Result<AddBootloaderConfigView, BuildErrorView> {
    let output_iso = text_in(c, "output-iso"@);
    let nanocore_path = text_in(c, "nanocore-path"@);
    let modules_dir = text_in(c, "directories.modules"@);
    let isofiles_dir = text_in(c, "directories.isofiles"@);
    let bootloader = text_in(c, "add-bootloader.bootloader"@);
    let grub_mkrescue = text_in(c, "add-bootloader.grub-mkrescue"@);
    let limine_config = text_in(c, "add-bootloader.limine-config"@);
    let limine_tarball = text_in(c, "add-bootloader.limine-tarball"@);
    let tarball_path = text_in(c, "add-bootloader.tarball-path"@);
    let extract_dir = text_in(c, "add-bootloader.extract-dir"@);
    let expected_subdir = text_in(c, "add-bootloader.expected-subdir"@);
    let downloader = text_in(c, "add-bootloader.downloader"@);
    let xorriso = text_in(c, "add-bootloader.xorriso"@);
    let nanocore_destination = text_in(c, "add-bootloader.nanocore-destination"@);
    if output_iso is Err {
        Err(output_iso->Err_0)
    } else if nanocore_path is Err {
        Err(nanocore_path->Err_0)
    } else if modules_dir is Err {
        Err(modules_dir->Err_0)
    } else if isofiles_dir is Err {
        Err(isofiles_dir->Err_0)
    } else if bootloader is Err {
        Err(bootloader->Err_0)
    } else if grub_mkrescue is Err {
        Err(grub_mkrescue->Err_0)
    } else if limine_config is Err {
        Err(limine_config->Err_0)
    } else if limine_tarball is Err {
        Err(limine_tarball->Err_0)
    } else if tarball_path is Err {
        Err(tarball_path->Err_0)
    } else if extract_dir is Err {
        Err(extract_dir->Err_0)
    } else if expected_subdir is Err {
        Err(expected_subdir->Err_0)
    } else if downloader is Err {
        Err(downloader->Err_0)
    } else if xorriso is Err {
        Err(xorriso->Err_0)
    } else if nanocore_destination is Err {
        Err(nanocore_destination->Err_0)
    } else {
        Ok(
            AddBootloaderConfigView {
                output_iso: output_iso->Ok_0,
                nanocore_path: nanocore_path->Ok_0,
                modules_dir: modules_dir->Ok_0,
                isofiles_dir: isofiles_dir->Ok_0,
                bootloader: bootloader->Ok_0,
                grub_mkrescue: grub_mkrescue->Ok_0,
                limine_config: limine_config->Ok_0,
                limine_tarball: limine_tarball->Ok_0,
                tarball_path: tarball_path->Ok_0,
                extract_dir: extract_dir->Ok_0,
                expected_subdir: expected_subdir->Ok_0,
                downloader: downloader->Ok_0,
                xorriso: xorriso->Ok_0,
                nanocore_destination: nanocore_destination->Ok_0,
            },
        )
    }
}

/// Reads the stage's options from the configuration.
pub fn from_config(config: &Config) -> (r: Result<AddBootloaderConfig, BuildError>)
    ensures
        match r {
            Ok(read) => configured(config.deep_view()) == Ok::<AddBootloaderConfigView, BuildErrorView>(
                read.deep_view(),
            ),
            Err(e) => configured(config.deep_view()) == Err::<AddBootloaderConfigView, BuildErrorView>(
                e.deep_view(),
            ),
        },
{
    let output_iso = match config.str("output-iso") {
        Ok(value) => value,
        Err(e) => {
            return Err(e);
        },
    };
    let nanocore_path = match config.str("nanocore-path") {
        Ok(value) => value,
        Err(e) => {
            return Err(e);
        },
    };
    let modules_dir = match config.str("directories.modules") {
        Ok(value) => value,
        Err(e) => {
            return Err(e);
        },
    };
    let isofiles_dir = match config.str("directories.isofiles") {
        Ok(value) => value,
        Err(e) => {
            return Err(e);
        },
    };
    let bootloader = match config.str("add-bootloader.bootloader") {
        Ok(value) => value,
        Err(e) => {
            return Err(e);
        },
    };
    let grub_mkrescue = match config.str("add-bootloader.grub-mkrescue") {
        Ok(value) => value,
        Err(e) => {
            return Err(e);
        },
    };
    let limine_config = match config.str("add-bootloader.limine-config") {
        Ok(value) => value,
        Err(e) => {
            return Err(e);
        },
    };
    let limine_tarball = match config.str("add-bootloader.limine-tarball") {
        Ok(value) => value,
        Err(e) => {
            return Err(e);
        },
    };
    let tarball_path = match config.str("add-bootloader.tarball-path") {
        Ok(value) => value,
        Err(e) => {
            return Err(e);
        },
    };
    let extract_dir = match config.str("add-bootloader.extract-dir") {
        Ok(value) => value,
        Err(e) => {
            return Err(e);
        },
    };
    let expected_subdir = match config.str("add-bootloader.expected-subdir") {
        Ok(value) => value,
        Err(e) => {
            return Err(e);
        },
    };
    let downloader = match config.str("add-bootloader.downloader") {
        Ok(value) => value,
        Err(e) => {
            return Err(e);
        },
    };
    let xorriso = match config.str("add-bootloader.xorriso") {
        Ok(value) => value,
        Err(e) => {
            return Err(e);
        },
    };
    let nanocore_destination = match config.str("add-bootloader.nanocore-destination") {
        Ok(value) => value,
        Err(e) => {
            return Err(e);
        },
    };
    Ok(
        AddBootloaderConfig {
            output_iso,
            nanocore_path,
            modules_dir,
            isofiles_dir,
            bootloader,
            grub_mkrescue,
            limine_config,
            limine_tarball,
            tarball_path,
            extract_dir,
            expected_subdir,
            downloader,
            xorriso,
            nanocore_destination,
        },
    )
}

} // verus!
