//! The stages of the pipeline and their order.
//!
//! A stage runs only once every stage before it is done. The archives are
//! merged (`relink-rlibs`) before the object files are scanned
//! (`copy-crate-objects`), so that a merged object is there to be found.

use crate::error::{BuildError, BuildErrorView};
use crate::text::{
    after_text, before_text, comma_pieces, contains_text, split_at_text, split_commas, str_eq,
};
use vstd::prelude::*;

verus! {

/// How many stages the pipeline has.
pub const STAGE_COUNT: usize = 12;

/// The place of the stage called `name` in the pipeline. The empty name
/// stands for the last stage where `last` is set, and for the first one where
/// it is not.
pub open spec fn stage_index(name: Seq<char>, last: bool) -> Option<int> {
    if name == ""@ && !last {
        Some(0)
    } else if name == "discover"@ {
        Some(0)
    } else if name == "directories"@ {
        Some(1)
    } else if name == "gen-mk-config"@ {
        Some(2)
    } else if name == "build-cells"@ {
        Some(3)
    } else if name == "link-nanocore"@ {
        Some(4)
    } else if name == "serialize-nanocore-syms"@ {
        Some(5)
    } else if name == "relink-rlibs"@ {
        Some(6)
    } else if name == "copy-crate-objects"@ {
        Some(7)
    } else if name == "relink-objects"@ {
        Some(8)
    } else if name == "strip-objects"@ {
        Some(9)
    } else if name == "add-bootloader"@ {
        Some(10)
    } else if name == "run-qemu"@ {
        Some(11)
    } else if name == ""@ && last {
        Some(11)
    } else {
        None
    }
}

/// Finds the place of a stage by its name. The empty name stands for the last
/// stage where `last` is set, and for the first one where it is not. Any other
/// name that is not a stage's gives `UnknownStage`.
pub fn parse_stage(name: &str, last: bool) -> (r: Result<usize, BuildError>)
    ensures
        match r {
            Ok(i) => stage_index(name@, last) == Some(i as int) && i < STAGE_COUNT,
            Err(e) => stage_index(name@, last) is None && e.deep_view() == (
            BuildErrorView::UnknownStage { name: name@ }),
        },
{
    if str_eq(name, "") && !last {
        Ok(0)
    } else if str_eq(name, "discover") {
        Ok(0)
    } else if str_eq(name, "directories") {
        Ok(1)
    } else if str_eq(name, "gen-mk-config") {
        Ok(2)
    } else if str_eq(name, "build-cells") {
        Ok(3)
    } else if str_eq(name, "link-nanocore") {
        Ok(4)
    } else if str_eq(name, "serialize-nanocore-syms") {
        Ok(5)
    } else if str_eq(name, "relink-rlibs") {
        Ok(6)
    } else if str_eq(name, "copy-crate-objects") {
        Ok(7)
    } else if str_eq(name, "relink-objects") {
        Ok(8)
    } else if str_eq(name, "strip-objects") {
        Ok(9)
    } else if str_eq(name, "add-bootloader") {
        Ok(10)
    } else if str_eq(name, "run-qemu") {
        Ok(11)
    } else if str_eq(name, "") && last {
        Ok(11)
    } else {
        Err(BuildError::UnknownStage { name: name.to_owned() })
    }
}

/// The archives are merged before the object files are scanned, whichever
/// end of a range the two stages are named at.
pub proof fn lemma_merge_precedes_scan(a: bool, b: bool)
    ensures
        stage_index("relink-rlibs"@, a) == Some(6int),
        stage_index("copy-crate-objects"@, b) == Some(7int),
{
    reveal_strlit("");
    reveal_strlit("discover");
    reveal_strlit("directories");
    reveal_strlit("gen-mk-config");
    reveal_strlit("build-cells");
    reveal_strlit("link-nanocore");
    reveal_strlit("serialize-nanocore-syms");
    reveal_strlit("relink-rlibs");
    reveal_strlit("copy-crate-objects");
    let m = "relink-rlibs"@;
    let s = "copy-crate-objects"@;
    assert(m.len() == 12);
    assert(s.len() == 18);
    assert(""@.len() == 0);
    assert("discover"@.len() == 8);
    assert("directories"@.len() == 11);
    assert("gen-mk-config"@.len() == 13);
    assert("build-cells"@.len() == 11);
    assert("link-nanocore"@.len() == 13);
    assert("serialize-nanocore-syms"@.len() == 23);
}

/// What a group of a stage selection asks for. A group is one stage name, or
/// two with `..` between them: the stages from the first to the last. A name
/// left out stands for that end of the pipeline.
pub enum GroupMeaning {
    /// The stages from `first` to `last`, both included; none where `first`
    /// is the stage right behind `last`.
    Stages { first: int, last: int },
    /// A name that is no stage's.
    Unknown { name: Seq<char> },
    /// A range whose first stage lies more than one place behind its last.
    Reversed,
}

/// What a range from `first_name` to `last_name` asks for.
pub open spec fn range_meaning(first_name: Seq<char>, last_name: Seq<char>) -> GroupMeaning {
    match stage_index(first_name, false) {
        None => GroupMeaning::Unknown { name: first_name },
        Some(first) => match stage_index(last_name, true) {
            None => GroupMeaning::Unknown { name: last_name },
            Some(last) => if first <= last + 1 {
                GroupMeaning::Stages { first, last }
            } else {
                GroupMeaning::Reversed
            },
        },
    }
}

/// What a group asks for. Of a group with more than one `..` only the first
/// two names count.
pub open spec fn group_meaning(group: Seq<char>) -> GroupMeaning {
    if contains_text(group, ".."@) {
        range_meaning(before_text(group, ".."@), before_text(after_text(group, ".."@), ".."@))
    } else {
        match stage_index(group, true) {
            None => GroupMeaning::Unknown { name: group },
            Some(stage) => GroupMeaning::Stages { first: stage, last: stage },
        }
    }
}

/// The stages from `first` to `last`.
pub open spec fn stages_between(first: int, last: int) -> Seq<int> {
    Seq::new((last + 1 - first) as nat, |i: int| first + i)
}

/// The stages that the groups ask for, group by group.
pub open spec fn stages_of(groups: Seq<Seq<char>>) -> Seq<int>
    decreases groups.len(),
{
    if groups.len() == 0 {
        Seq::empty()
    } else {
        stages_of(groups.drop_last()) + match group_meaning(groups.last()) {
            GroupMeaning::Stages { first, last } => stages_between(first, last),
            _ => Seq::empty(),
        }
    }
}

/// The group at `i` is the first that asks for no stages.
pub open spec fn first_bad_group(groups: Seq<Seq<char>>, i: int) -> bool {
    &&& 0 <= i < groups.len()
    &&& !(group_meaning(groups[i]) is Stages)
    &&& forall|j: int| 0 <= j < i ==> group_meaning(#[trigger] groups[j]) is Stages
}

/// The failure that a group ends in.
pub open spec fn is_group_failure(group: Seq<char>, e: BuildErrorView) -> bool {
    match group_meaning(group) {
        GroupMeaning::Stages { first, last } => false,
        GroupMeaning::Unknown { name } => e == (BuildErrorView::UnknownStage { name }),
        GroupMeaning::Reversed => e == (BuildErrorView::StageRangeReversed { group }),
    }
}

/// Reads one group of a stage selection.
pub fn parse_group(group: &str) -> (r: Result<(usize, usize), BuildError>)
    ensures
        match r {
            Ok((first, last)) => group_meaning(group@) == (GroupMeaning::Stages {
                first: first as int,
                last: last as int,
            }) && first <= last + 1 && last < STAGE_COUNT,
            Err(e) => is_group_failure(group@, e.deep_view()),
        },
{
    match split_at_text(group, "..") {
        None => {
            match parse_stage(group, true) {
                Ok(stage) => Ok((stage, stage)),
                Err(e) => Err(e),
            }
        },
        Some((first_name, rest)) => {
            let ghost rv = rest@;
            assert(rv.subrange(0, rv.len() as int) =~= rv);
            let last_name = match split_at_text(rest.as_str(), "..") {
                None => rest,
                Some((name, _)) => name,
            };
            assert(last_name@ == before_text(rv, ".."@));
            let first = match parse_stage(first_name.as_str(), false) {
                Ok(stage) => stage,
                Err(e) => {
                    return Err(e);
                },
            };
            let last = match parse_stage(last_name.as_str(), true) {
                Ok(stage) => stage,
                Err(e) => {
                    return Err(e);
                },
            };
            if first <= last + 1 {
                Ok((first, last))
            } else {
                Err(BuildError::StageRangeReversed { group: group.to_owned() })
            }
        },
    }
}

/// Reads a stage selection: groups with commas between them, each a stage
/// name or a range of stages. Gives the stages to run, in the order asked
/// for; a stage asked for twice runs twice. The first group that names an
/// unknown stage, or a range the wrong way round, fails the selection.
pub fn select_stages(selection: &str) -> (r: Result<Vec<usize>, BuildError>)
    ensures
        match r {
            Ok(stages) => {
                &&& forall|i: int|
                    0 <= i < comma_pieces(selection@).len() ==> group_meaning(
                        #[trigger] comma_pieces(selection@)[i],
                    ) is Stages
                &&& stages@.len() == stages_of(comma_pieces(selection@)).len()
                &&& forall|k: int|
                    0 <= k < stages@.len() ==> #[trigger] stages@[k] == stages_of(
                        comma_pieces(selection@),
                    )[k] && stages@[k] < STAGE_COUNT
            },
            Err(e) => exists|i: int|
                #[trigger] first_bad_group(comma_pieces(selection@), i) && is_group_failure(
                    comma_pieces(selection@)[i],
                    e.deep_view(),
                ),
        },
{
    let groups = split_commas(selection);
    let ghost gv = groups.deep_view();
    let mut stages: Vec<usize> = Vec::new();
    let n = groups.len();
    let mut i: usize = 0;
    assert(gv.take(0) =~= Seq::empty());
    while i < n
        invariant
            n == groups.len(),
            i <= n,
            gv == groups.deep_view(),
            gv == comma_pieces(selection@),
            forall|j: int| 0 <= j < i ==> group_meaning(#[trigger] gv[j]) is Stages,
            stages@.len() == stages_of(gv.take(i as int)).len(),
            forall|k: int|
                0 <= k < stages@.len() ==> #[trigger] stages@[k] == stages_of(gv.take(i as int))[k]
                    && stages@[k] < STAGE_COUNT,
        decreases n - i,
    {
        proof {
            assert(gv.take(i + 1).drop_last() =~= gv.take(i as int));
            assert(gv.take(i + 1).last() == gv[i as int]);
        }
        let (first, last) = match parse_group(groups[i].as_str()) {
            Ok(range) => range,
            Err(e) => {
                assert(first_bad_group(gv, i as int));
                return Err(e);
            },
        };
        let ghost base = stages@;
        let ghost target = stages_of(gv.take(i as int)) + stages_between(first as int, last as int);
        assert(stages_of(gv.take(i + 1)) == target);
        let mut stage = first;
        while stage <= last
            invariant
                first <= stage <= last + 1,
                last < STAGE_COUNT,
                base.len() == stages_of(gv.take(i as int)).len(),
                target == stages_of(gv.take(i as int)) + stages_between(first as int, last as int),
                stages@.len() == base.len() + (stage - first),
                forall|k: int|
                    0 <= k < stages@.len() ==> #[trigger] stages@[k] == target[k] && stages@[k]
                        < STAGE_COUNT,
            decreases last + 1 - stage,
        {
            stages.push(stage);
            stage += 1;
        }
        i += 1;
    }
    assert(gv.take(n as int) =~= gv);
    Ok(stages)
}

} // verus!
