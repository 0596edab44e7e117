//! Merges the objects of library archives that hold more than one.
//!
//! A crate's archive normally holds two members, its metadata and one object.
//! Where it holds more, the crate was built into several objects; they are
//! taken out and linked into the one object that stands for the crate.
//!
//! This stage runs before the object files are scanned. The merged object is
//! written to the very path at which the scan finds the crate's object of the
//! same stem, so it is what the scan selects there.

use crate::archive::{is_safe, is_safe_archive};
use crate::error::{BuildError, BuildErrorView};
use crate::options::{flag_in, text_in, Config, ConfigView};
use crate::plan::{
    invocation, lemma_runs_in_concat, run_step, runs_in, tool, InvocationView, Step, StepView,
};
use crate::scan::{artifact_of, deps_of, CandidateView};
use crate::text::{append_text, has_prefix, has_suffix, join, object_ending, path_join};
use vstd::prelude::*;
use vstd::slice::slice_to_vec;
use vstd::utf8::{decode_utf8, valid_utf8};

verus! {

/// What the stage is configured with.
#[derive(Debug, Clone, PartialEq, Eq)]
pub struct RelinkRlibsConfig {
    /// The directory that holds the archives, and receives the merged objects.
    pub deps_dir: String,
    /// The directory under which the members are taken out.
    pub extracted_rlibs_dir: String,
    pub linker: String,
    /// Whether a scratch directory is removed after the link.
    pub remove_rlibs_dirs: bool,
}

pub struct RelinkRlibsConfigView {
    pub deps_dir: Seq<char>,
    pub extracted_rlibs_dir: Seq<char>,
    pub linker: Seq<char>,
    pub remove_rlibs_dirs: bool,
}

impl DeepView for RelinkRlibsConfig {
    type V = RelinkRlibsConfigView;

    open spec fn deep_view(&self) -> RelinkRlibsConfigView {
        RelinkRlibsConfigView {
            deps_dir: self.deps_dir@,
            extracted_rlibs_dir: self.extracted_rlibs_dir@,
            linker: self.linker@,
            remove_rlibs_dirs: self.remove_rlibs_dirs,
        }
    }
}

/// One member of an archive: its name as the archive holds it, and its bytes.
#[derive(Debug, Clone, PartialEq, Eq)]
pub struct Member {
    pub name: Vec<u8>,
    pub data: Vec<u8>,
}

pub struct MemberView {
    pub name: Seq<u8>,
    pub data: Seq<u8>,
}

impl DeepView for Member {
    type V = MemberView;

    open spec fn deep_view(&self) -> MemberView {
        MemberView { name: self.name@, data: self.data@ }
    }
}

/// A library archive as read from the dependency directory.
#[derive(Debug, Clone, PartialEq, Eq)]
pub struct Archive {
    /// The archive's file name.
    pub file_name: String,
    /// How many members the archive counts.
    pub entry_count: usize,
    /// The members in archive order. They are looked at only where the count
    /// is over two.
    pub members: Vec<Member>,
}

pub struct ArchiveView {
    pub file_name: Seq<char>,
    pub entry_count: usize,
    pub members: Seq<MemberView>,
}

impl DeepView for Archive {
    type V = ArchiveView;

    open spec fn deep_view(&self) -> ArchiveView {
        ArchiveView {
            file_name: self.file_name@,
            entry_count: self.entry_count,
            members: self.members.deep_view(),
        }
    }
}

/// The stage's name.
pub open spec fn stage_name() -> Seq<char> {
    "relink-rlibs"@
}

/// Whether a file name is that of a library archive: `lib`, a stem, `.rlib`.
pub open spec fn is_rlib_name(name: Seq<char>) -> bool {
    "lib"@.is_prefix_of(name) && ".rlib"@.is_suffix_of(name)
}

/// The stem of an archive's name: what stands between `lib` and `.rlib`.
pub open spec fn crate_stem(name: Seq<char>) -> Seq<char> {
    name.subrange(3, name.len() - 5)
}

/// The file name of the object that the members of an archive are merged into.
pub open spec fn merged_object_name(archive_name: Seq<char>) -> Seq<char> {
    crate_stem(archive_name) + ".o"@
}

/// Whether an archive holds more than the two members of a plain crate.
pub open spec fn holds_extra_objects(entry_count: usize) -> bool {
    entry_count > 2
}

/// The directory into which the members of an archive are taken out.
pub open spec fn scratch_dir(cfg: RelinkRlibsConfigView, archive_name: Seq<char>) -> Seq<char> {
    path_join(cfg.extracted_rlibs_dir, archive_name)
}

/// Whether a member is an object: its name is text that ends like an object
/// file.
pub open spec fn is_object_member(m: MemberView) -> bool {
    object_ending().is_suffix_of(decode_utf8(m.name))
}

/// Where a member is written to.
pub open spec fn extracted_path(scratch: Seq<char>, m: MemberView) -> Seq<char> {
    path_join(scratch, decode_utf8(m.name))
}

/// The steps that write the object members out, in archive order.
pub open spec fn extraction(scratch: Seq<char>, members: Seq<MemberView>) -> Seq<StepView>
    decreases members.len(),
{
    if members.len() == 0 {
        Seq::empty()
    } else {
        let earlier = extraction(scratch, members.drop_last());
        let m = members.last();
        if is_object_member(m) {
            earlier.push(StepView::WriteFile { path: extracted_path(scratch, m), contents: m.data })
        } else {
            earlier
        }
    }
}

/// The paths of the object members once written out, in archive order.
pub open spec fn extracted_paths(scratch: Seq<char>, members: Seq<MemberView>) -> Seq<Seq<char>>
    decreases members.len(),
{
    if members.len() == 0 {
        Seq::empty()
    } else {
        let earlier = extracted_paths(scratch, members.drop_last());
        let m = members.last();
        if is_object_member(m) {
            earlier.push(extracted_path(scratch, m))
        } else {
            earlier
        }
    }
}

/// The one link that merges the objects of an archive.
pub open spec fn merge_step(cfg: RelinkRlibsConfigView, a: ArchiveView) -> StepView {
    run_step(
        stage_name(),
        cfg.linker,
        seq!["-r"@, "--output"@, path_join(cfg.deps_dir, merged_object_name(a.file_name))]
            + extracted_paths(scratch_dir(cfg, a.file_name), a.members),
    )
}

/// What follows the link: the scratch directory goes where the configuration
/// says so.
pub open spec fn cleanup(cfg: RelinkRlibsConfigView, a: ArchiveView) -> Seq<StepView> {
    if cfg.remove_rlibs_dirs {
        seq![StepView::RemoveDirAll { path: scratch_dir(cfg, a.file_name) }]
    } else {
        Seq::empty()
    }
}

/// Whether an archive is one that this stage works on.
pub open spec fn is_merged(a: ArchiveView) -> bool {
    is_rlib_name(a.file_name) && holds_extra_objects(a.entry_count)
}

/// The steps for one archive. One with two members or fewer, or with another
/// kind of name, is left alone. For any other: make the scratch directory,
/// write the object members into it, link them into `<stem>.o` in the
/// dependency directory, and clean up.
pub open spec fn unpack_plan(cfg: RelinkRlibsConfigView, a: ArchiveView) -> Seq<StepView> {
    if is_merged(a) {
        seq![StepView::CreateDir { path: scratch_dir(cfg, a.file_name), all: false }] + extraction(
            scratch_dir(cfg, a.file_name),
            a.members,
        ) + seq![merge_step(cfg, a)] + cleanup(cfg, a)
    } else {
        Seq::empty()
    }
}

/// Every member's name is text.
pub open spec fn names_are_text(members: Seq<MemberView>) -> bool {
    forall|i: int| 0 <= i < members.len() ==> valid_utf8(#[trigger] members[i].name)
}

/// Whether the steps for an archive can be planned: where the archive is
/// worked on, every member's name is text.
pub open spec fn plannable(a: ArchiveView) -> bool {
    is_merged(a) ==> names_are_text(a.members)
}

/// The steps for all archives, archive by archive.
pub open spec fn unpack_all(cfg: RelinkRlibsConfigView, archives: Seq<ArchiveView>) -> Seq<StepView>
    decreases archives.len(),
{
    if archives.len() == 0 {
        Seq::empty()
    } else {
        unpack_all(cfg, archives.drop_last()) + unpack_plan(cfg, archives.last())
    }
}

/// The archive at `i` is the first whose steps cannot be planned.
pub open spec fn first_unplannable(archives: Seq<ArchiveView>, i: int) -> bool {
    &&& 0 <= i < archives.len()
    &&& !plannable(archives[i])
    &&& forall|j: int| 0 <= j < i ==> plannable(#[trigger] archives[j])
}

/// What planning one archive gives.
pub open spec fn unpack_outcome(
    cfg: RelinkRlibsConfigView,
    a: ArchiveView,
    r: Result<Vec<Step>, BuildError>,
) -> bool {
    match r {
        Ok(steps) => plannable(a) && steps.deep_view() == unpack_plan(cfg, a),
        Err(e) => !plannable(a) && e.deep_view() == (BuildErrorView::InvalidMemberName {
            archive: a.file_name,
        }),
    }
}

/// An archive's name is at least as long as `lib` and `.rlib` together.
pub proof fn lemma_rlib_name_len(name: Seq<char>)
    requires
        is_rlib_name(name),
    ensures
        name.len() >= 8,
{
    reveal_strlit("lib");
    reveal_strlit(".rlib");
    let n = name.len() as int;
    let head = name.subrange(0, 3);
    let tail = name.subrange(n - 5, n);
    assert(head =~= "lib"@);
    assert(tail =~= ".rlib"@);
    assert(head[0] == 'l' && head[1] == 'i' && head[2] == 'b');
    assert(tail[0] == '.');
    if n == 5 {
        assert(name[0] == head[0] && name[0] == tail[0]);
    } else if n == 6 {
        assert(name[1] == head[1] && name[1] == tail[0]);
    } else if n == 7 {
        assert(name[2] == head[2] && name[2] == tail[0]);
    }
}

/// The merged object of an archive takes the place of the object that the
/// scan pairs with that archive: for an object file `<stem>.o`, the archive
/// beside it is `lib<stem>.rlib`, and the object merged from that archive is
/// named `<stem>.o` again.
pub proof fn lemma_merged_object_replaces_scanned(c: CandidateView)
    requires
        object_ending().is_suffix_of(c.name),
    ensures
        is_rlib_name(deps_of(artifact_of(c)).rlib.name),
        merged_object_name(deps_of(artifact_of(c)).rlib.name) == c.name,
        deps_of(artifact_of(c)).rlib.dir == c.dir,
{
    reveal_strlit("lib");
    reveal_strlit(".rlib");
    reveal_strlit(".o");
    let stem = artifact_of(c).file_stem;
    let rlib = deps_of(artifact_of(c)).rlib.name;
    assert(rlib == "lib"@ + stem + ".rlib"@);
    assert(rlib.subrange(0, 3) =~= "lib"@);
    assert(rlib.subrange(rlib.len() - 5, rlib.len() as int) =~= ".rlib"@);
    assert(crate_stem(rlib) =~= stem);
    assert(c.name.subrange(c.name.len() - 2, c.name.len() as int) =~= ".o"@);
    assert(stem + ".o"@ =~= c.name);
}

/// `String::from_utf8` of std: the bytes as text where they are UTF-8, and
/// nothing where they are not.
#[verifier::external_body]
fn text_of(bytes: &[u8]) -> (r: Option<String>)
    ensures
        r is Some <==> valid_utf8(bytes@),
        r matches Some(s) ==> s@ == decode_utf8(bytes@),
{
    String::from_utf8(bytes.to_vec()).ok()
}

/// Whether a file name is that of a library archive.
pub fn is_rlib(name: &str) -> (b: bool)
    ensures
        b == is_rlib_name(name@),
{
    has_prefix(name, "lib") && has_suffix(name, ".rlib")
}

/// Whether an archive with `entry_count` members holds more than the two of a
/// plain crate, so that its objects have to be merged.
pub fn needs_relink(entry_count: usize) -> (b: bool)
    ensures
        b == holds_extra_objects(entry_count),
{
    entry_count > 2
}

proof fn lemma_extraction_step(scratch: Seq<char>, members: Seq<MemberView>, k: int)
    requires
        0 <= k < members.len(),
    ensures
        extraction(scratch, members.take(k + 1)) == if is_object_member(members[k]) {
            extraction(scratch, members.take(k)).push(
                StepView::WriteFile {
                    path: extracted_path(scratch, members[k]),
                    contents: members[k].data,
                },
            )
        } else {
            extraction(scratch, members.take(k))
        },
        extracted_paths(scratch, members.take(k + 1)) == if is_object_member(members[k]) {
            extracted_paths(scratch, members.take(k)).push(extracted_path(scratch, members[k]))
        } else {
            extracted_paths(scratch, members.take(k))
        },
{
    assert(members.take(k + 1).drop_last() =~= members.take(k));
    assert(members.take(k + 1).last() == members[k]);
}

/// Plans the work on one archive: nothing for an archive of two members or
/// fewer, or one that is not named `lib*.rlib`; else the steps of
/// `unpack_plan`. A member whose name is not text makes the archive's members
/// unusable: `InvalidMemberName` with the archive's name.
pub fn unpack(config: &RelinkRlibsConfig, archive: &Archive) -> (r: Result<Vec<Step>, BuildError>)
    ensures
        unpack_outcome(config.deep_view(), archive.deep_view(), r),
{
    let ghost cfg = config.deep_view();
    let ghost av = archive.deep_view();
    let mut steps: Vec<Step> = Vec::new();
    if !(is_rlib(archive.file_name.as_str()) && needs_relink(archive.entry_count)) {
        assert(steps.deep_view() =~= unpack_plan(cfg, av));
        return Ok(steps);
    }
    let stage = "relink-rlibs";
    let name = archive.file_name.as_str();
    let tmp_dir = join(config.extracted_rlibs_dir.as_str(), name);
    let ghost scratch = scratch_dir(cfg, av.file_name);
    steps.push(Step::CreateDir { path: tmp_dir.clone(), all: false });
    let ghost first = seq![StepView::CreateDir { path: scratch, all: false }];
    let mut object_files: Vec<String> = Vec::new();
    let n = archive.members.len();
    let mut i: usize = 0;
    assert(steps.deep_view() =~= first + extraction(scratch, av.members.take(0)));
    assert(object_files.deep_view() =~= extracted_paths(scratch, av.members.take(0)));
    while i < n
        invariant
            n == archive.members.len(),
            i <= n,
            av == archive.deep_view(),
            tmp_dir@ == scratch,
            first == seq![StepView::CreateDir { path: scratch, all: false }],
            steps.deep_view() == first + extraction(scratch, av.members.take(i as int)),
            object_files.deep_view() == extracted_paths(scratch, av.members.take(i as int)),
            forall|j: int| 0 <= j < i ==> valid_utf8(#[trigger] av.members[j].name),
            is_merged(av),
        decreases n - i,
    {
        let member = &archive.members[i];
        assert(member.deep_view() == av.members[i as int]);
        proof {
            lemma_extraction_step(scratch, av.members, i as int);
        }
        match text_of(member.name.as_slice()) {
            None => {
                assert(!names_are_text(av.members));
                return Err(BuildError::InvalidMemberName { archive: archive.file_name.clone() });
            },
            Some(member_name) => {
                if has_suffix(member_name.as_str(), ".o") {
                    let ghost s0 = steps.deep_view();
                    let ghost paths_before = object_files.deep_view();
                    let path = join(tmp_dir.as_str(), member_name.as_str());
                    steps.push(
                        Step::WriteFile {
                            path: path.clone(),
                            contents: slice_to_vec(member.data.as_slice()),
                        },
                    );
                    object_files.push(path);
                    assert(steps.deep_view() =~= s0.push(
                        StepView::WriteFile {
                            path: extracted_path(scratch, av.members[i as int]),
                            contents: av.members[i as int].data,
                        },
                    ));
                    assert(object_files.deep_view() =~= paths_before.push(
                        extracted_path(scratch, av.members[i as int]),
                    ));
                    assert(steps.deep_view() =~= first + extraction(
                        scratch,
                        av.members.take(i + 1),
                    ));
                }
            },
        }
        i += 1;
    }
    assert(av.members.take(n as int) =~= av.members);
    assert(names_are_text(av.members));
    proof {
        lemma_rlib_name_len(name@);
    }
    let len = name.unicode_len();
    let stem = name.substring_char(3, len - 5);
    let output = join(config.deps_dir.as_str(), append_text(stem, ".o").as_str());
    assert(output@ == path_join(cfg.deps_dir, merged_object_name(av.file_name)));
    let mut link_args: Vec<String> = Vec::new();
    link_args.push("-r".to_owned());
    link_args.push("--output".to_owned());
    link_args.push(output);
    let ghost head = link_args.deep_view();
    assert(head =~= seq!["-r"@, "--output"@, path_join(cfg.deps_dir, merged_object_name(av.file_name))]);
    let ghost paths = object_files.deep_view();
    link_args.append(&mut object_files);
    assert(link_args.deep_view() =~= head + paths);
    let ghost s1 = steps.deep_view();
    steps.push(Step::Run(tool(stage, config.linker.as_str(), link_args)));
    assert(steps.deep_view() =~= s1.push(merge_step(cfg, av)));
    if config.remove_rlibs_dirs {
        let ghost s2 = steps.deep_view();
        steps.push(Step::RemoveDirAll { path: tmp_dir });
        assert(steps.deep_view() =~= s2.push(StepView::RemoveDirAll { path: scratch }));
    }
    assert(steps.deep_view() =~= unpack_plan(cfg, av));
    Ok(steps)
}

/// Plans the stage for the archives of the dependency directory, in the
/// order given: the steps of each archive one after the other. The first
/// archive that cannot be planned ends the planning with its failure.
pub fn process(config: &RelinkRlibsConfig, archives: &Vec<Archive>) -> (r: Result<
    Vec<Step>,
    BuildError,
>)
    ensures
        match r {
            Ok(steps) => {
                &&& forall|i: int| 0 <= i < archives.len() ==> plannable(#[trigger] archives.deep_view()[i])
                &&& steps.deep_view() == unpack_all(config.deep_view(), archives.deep_view())
            },
            Err(e) => exists|i: int|
                #[trigger] first_unplannable(archives.deep_view(), i) && e.deep_view() == (
                BuildErrorView::InvalidMemberName { archive: archives.deep_view()[i].file_name }),
        },
{
    let ghost cfg = config.deep_view();
    let ghost all = archives.deep_view();
    let mut steps: Vec<Step> = Vec::new();
    let n = archives.len();
    let mut i: usize = 0;
    assert(steps.deep_view() =~= unpack_all(cfg, all.take(0)));
    while i < n
        invariant
            n == archives.len(),
            i <= n,
            cfg == config.deep_view(),
            all == archives.deep_view(),
            forall|j: int| 0 <= j < i ==> plannable(#[trigger] all[j]),
            steps.deep_view() == unpack_all(cfg, all.take(i as int)),
        decreases n - i,
    {
        assert(archives[i as int].deep_view() == all[i as int]);
        assert(all.take(i + 1).drop_last() =~= all.take(i as int));
        assert(all.take(i + 1).last() == all[i as int]);
        match unpack(config, &archives[i]) {
            Err(e) => {
                assert(first_unplannable(all, i as int));
                return Err(e);
            },
            Ok(mut more) => {
                let ghost s0 = steps.deep_view();
                let ghost m0 = more.deep_view();
                steps.append(&mut more);
                assert(steps.deep_view() =~= s0 + m0);
            },
        }
        i += 1;
    }
    assert(all.take(n as int) =~= all);
    Ok(steps)
}

/// Writing members out calls no tool.
proof fn lemma_extraction_runs_nothing(scratch: Seq<char>, members: Seq<MemberView>)
    ensures
        runs_in(extraction(scratch, members)) == Seq::<InvocationView>::empty(),
    decreases members.len(),
{
    if members.len() > 0 {
        lemma_extraction_runs_nothing(scratch, members.drop_last());
        let earlier = extraction(scratch, members.drop_last());
        if is_object_member(members.last()) {
            let step = StepView::WriteFile {
                path: extracted_path(scratch, members.last()),
                contents: members.last().data,
            };
            assert(earlier.push(step).drop_last() =~= earlier);
        }
    }
}

/// An archive with the two members of a plain crate, or fewer, is left alone:
/// nothing is written and no tool is called. For an archive with more the
/// linker is called exactly once, and it writes the object named after the
/// archive's stem.
pub proof fn lemma_one_link_per_merged_archive(cfg: RelinkRlibsConfigView, a: ArchiveView)
    ensures
        !is_merged(a) ==> unpack_plan(cfg, a) == Seq::<StepView>::empty(),
        is_merged(a) ==> runs_in(unpack_plan(cfg, a)) == seq![
            invocation(
                stage_name(),
                cfg.linker,
                seq!["-r"@, "--output"@, path_join(cfg.deps_dir, merged_object_name(a.file_name))]
                    + extracted_paths(scratch_dir(cfg, a.file_name), a.members),
            ),
        ],
{
    if is_merged(a) {
        let scratch = scratch_dir(cfg, a.file_name);
        let first = seq![StepView::CreateDir { path: scratch, all: false }];
        let writes = extraction(scratch, a.members);
        let link = seq![merge_step(cfg, a)];
        let last = cleanup(cfg, a);
        lemma_extraction_runs_nothing(scratch, a.members);
        lemma_runs_in_concat(first, writes);
        lemma_runs_in_concat(first + writes, link);
        lemma_runs_in_concat(first + writes + link, last);
        assert(first.drop_last() =~= Seq::<StepView>::empty());
        assert(runs_in(first) =~= Seq::<InvocationView>::empty());
        assert(link.drop_last() =~= Seq::<StepView>::empty());
        assert(runs_in(link) =~= seq![merge_step(cfg, a)->0]);
        if cfg.remove_rlibs_dirs {
            assert(last.drop_last() =~= Seq::<StepView>::empty());
        }
        assert(runs_in(last) =~= Seq::<InvocationView>::empty());
        assert(runs_in(unpack_plan(cfg, a)) =~= seq![merge_step(cfg, a)->0]);
    }
}

/// How many members `ar::Archive::count_entries` counts in an archive, or
/// nothing where it fails.
pub uninterp spec fn ar_entry_count(bytes: Seq<u8>) -> Option<usize>;

/// The members that `ar::Archive::next_entry` hands out of an archive one
/// after the other, each by its identifier and its bytes; nothing where a
/// member cannot be handed out.
pub uninterp spec fn ar_members(bytes: Seq<u8>) -> Option<Seq<MemberView>>;

/// `ar::Archive::count_entries` on an archive held in memory: the number of
/// its members, the tables of names and of symbols not counted.
#[verifier::external_body]
fn count_entries(bytes: &[u8]) -> (r: Option<usize>)
    requires
        is_safe_archive(bytes@),
    ensures
        r == ar_entry_count(bytes@),
{
    ar::Archive::new(std::io::Cursor::new(bytes)).count_entries().ok()
}

/// `ar::Archive::next_entry` on an archive held in memory, called until
/// nothing more comes: every member with the identifier of its header and
/// with its bytes, read to their end.
#[verifier::external_body]
fn read_members(bytes: &[u8]) -> (r: Option<Vec<Member>>)
    requires
        is_safe_archive(bytes@),
    ensures
        r.deep_view() == ar_members(bytes@),
{
    let mut archive = ar::Archive::new(bytes);
    let mut members = Vec::new();
    while let Some(entry) = archive.next_entry() {
        let mut entry = entry.ok()?;
        let mut data = Vec::new();
        std::io::Read::read_to_end(&mut entry, &mut data).ok()?;
        members.push(Member { name: entry.header().identifier().to_vec(), data });
    }
    Some(members)
}

/// What reading an archive gives. An archive that does not pass the look
/// over, whose members cannot be counted, or whose members are needed and
/// cannot be handed out, is `UnreadableArchive`. The members are read only
/// where the archive holds more than two.
pub open spec fn read_outcome(
    file_name: Seq<char>,
    bytes: Seq<u8>,
    r: Result<Archive, BuildError>,
) -> bool {
    match r {
        Ok(archive) => {
            &&& is_safe_archive(bytes)
            &&& archive.file_name@ == file_name
            &&& ar_entry_count(bytes) == Some(archive.entry_count)
            &&& if holds_extra_objects(archive.entry_count) {
                ar_members(bytes) == Some(archive.members.deep_view())
            } else {
                archive.members.deep_view() == Seq::<MemberView>::empty()
            }
        },
        Err(e) => {
            &&& e.deep_view() == (BuildErrorView::UnreadableArchive { name: file_name })
            &&& {
                ||| !is_safe_archive(bytes)
                ||| ar_entry_count(bytes) is None
                ||| holds_extra_objects(ar_entry_count(bytes).unwrap()) && ar_members(bytes) is None
            }
        },
    }
}

/// Reads the archive called `file_name` from its bytes.
pub fn read_archive(file_name: &str, bytes: &[u8]) -> (r: Result<Archive, BuildError>)
    ensures
        read_outcome(file_name@, bytes@, r),
{
    if !is_safe(bytes) {
        return Err(BuildError::UnreadableArchive { name: file_name.to_owned() });
    }
    let entry_count = match count_entries(bytes) {
        Some(count) => count,
        None => {
            return Err(BuildError::UnreadableArchive { name: file_name.to_owned() });
        },
    };
    let members = if needs_relink(entry_count) {
        match read_members(bytes) {
            Some(members) => members,
            None => {
                return Err(BuildError::UnreadableArchive { name: file_name.to_owned() });
            },
        }
    } else {
        let none: Vec<Member> = Vec::new();
        assert(none.deep_view() =~= Seq::<MemberView>::empty());
        none
    };
    Ok(Archive { file_name: file_name.to_owned(), entry_count, members })
}

/// The stage's options as the configuration gives them: each from its key.
/// Of the options that cannot be read, the first in this order fails them
/// all.
pub open spec fn configured(c: ConfigView) -> Result<RelinkRlibsConfigView, BuildErrorView> {
    let deps_dir = text_in(c, "directories.target-deps"@);
    let extracted_rlibs_dir = text_in(c, "directories.extracted-rlibs"@);
    let linker = text_in(c, "relink-rlibs.linker"@);
    let remove_rlibs_dirs = flag_in(c, "relink-rlibs.remove-rlibs-dirs"@);
    if deps_dir is Err {
        Err(deps_dir->Err_0)
    } else if extracted_rlibs_dir is Err {
        Err(extracted_rlibs_dir->Err_0)
    } else if linker is Err {
        Err(linker->Err_0)
    } else if remove_rlibs_dirs is Err {
        Err(remove_rlibs_dirs->Err_0)
    } else {
        Ok(
            RelinkRlibsConfigView {
                deps_dir: deps_dir->Ok_0,
                extracted_rlibs_dir: extracted_rlibs_dir->Ok_0,
                linker: linker->Ok_0,
                remove_rlibs_dirs: remove_rlibs_dirs->Ok_0,
            },
        )
    }
}

/// Reads the stage's options from the configuration.
pub fn from_config(config: &Config) -> (r: Result<RelinkRlibsConfig, BuildError>)
    ensures
        match r {
            Ok(read) => configured(config.deep_view()) == Ok::<RelinkRlibsConfigView, BuildErrorView>(
                read.deep_view(),
            ),
            Err(e) => configured(config.deep_view()) == Err::<RelinkRlibsConfigView, BuildErrorView>(
                e.deep_view(),
            ),
        },
{
    let deps_dir = match config.str("directories.target-deps") {
        Ok(value) => value,
        Err(e) => {
            return Err(e);
        },
    };
    let extracted_rlibs_dir = match config.str("directories.extracted-rlibs") {
        Ok(value) => value,
        Err(e) => {
            return Err(e);
        },
    };
    let linker = match config.str("relink-rlibs.linker") {
        Ok(value) => value,
        Err(e) => {
            return Err(e);
        },
    };
    let remove_rlibs_dirs = match config.bool("relink-rlibs.remove-rlibs-dirs") {
        Ok(value) => value,
        Err(e) => {
            return Err(e);
        },
    };
    Ok(RelinkRlibsConfig { deps_dir, extracted_rlibs_dir, linker, remove_rlibs_dirs })
}

} // verus!
