//! Lists the crates of the source tree with what their manifests say of them.

use crate::error::{BuildError, BuildErrorView};
use crate::options::{list_in, member, text_in, Config, ConfigView, ConfigValue, ConfigValueView};
use crate::text::{pad_right, pad_to};
use vstd::prelude::*;

verus! {

/// What the stage is configured with.
#[derive(Debug, Clone, PartialEq, Eq)]
pub struct DiscoverConfig {
    pub theseus_root: String,
    /// The directories below the root that are looked into.
    pub subdirs: Vec<String>,
}

pub struct DiscoverConfigView {
    pub theseus_root: Seq<char>,
    pub subdirs: Seq<Seq<char>>,
}

impl DeepView for DiscoverConfig {
    type V = DiscoverConfigView;

    open spec fn deep_view(&self) -> DiscoverConfigView {
        DiscoverConfigView { theseus_root: self.theseus_root@, subdirs: self.subdirs.deep_view() }
    }
}

/// What a crate's manifest says of the crate: the description of its
/// package, where that is a string; else nothing.
pub open spec fn manifest_description(manifest: ConfigValueView) -> Seq<char> {
    match member(manifest, "package"@) {
        Some(package) => match member(package, "description"@) {
            Some(ConfigValueView::String(text)) => text,
            _ => Seq::empty(),
        },
        None => Seq::empty(),
    }
}

/// Reads the description of a crate from its manifest.
pub fn description_of(manifest: &ConfigValue) -> (r: String)
    ensures
        r@ == manifest_description(manifest.deep_view()),
{
    match manifest.get("package") {
        Some(package) => match package.get("description") {
            Some(ConfigValue::String(text)) => text.clone(),
            _ => String::new(),
        },
        None => String::new(),
    }
}

/// The line for one crate: a bullet, the name in a column thirty wide, and
/// the description.
pub open spec fn crate_line(name: Seq<char>, description: Seq<char>) -> Seq<char> {
    "\u{2022} "@ + pad_to(name, 30) + " "@ + description
}

/// The lines for the crates of one directory, each a name and a description,
/// with an empty line behind them.
pub open spec fn group_lines(crates: Seq<(Seq<char>, Seq<char>)>) -> Seq<Seq<char>> {
    Seq::new(crates.len(), |i: int| crate_line(crates[i].0, crates[i].1)).push(Seq::empty())
}

/// The lines for all directories, one after the other.
pub open spec fn report_lines(groups: Seq<Seq<(Seq<char>, Seq<char>)>>) -> Seq<Seq<char>>
    decreases groups.len(),
{
    if groups.len() == 0 {
        Seq::empty()
    } else {
        report_lines(groups.drop_last()) + group_lines(groups.last())
    }
}

/// Writes the line for one crate.
pub fn describe(name: &str, description: &str) -> (line: String)
    ensures
        line@ == crate_line(name@, description@),
{
    let mut line = "\u{2022} ".to_owned();
    line.append(pad_right(name, 30).as_str());
    line.append(" ");
    line.append(description);
    line
}

/// Writes the report on the crates found: for each directory that was looked
/// into, a line per crate in the order found, then an empty line.
pub fn process(groups: &Vec<Vec<(String, String)>>) -> (lines: Vec<String>)
    ensures
        lines.deep_view() == report_lines(groups.deep_view()),
{
    let ghost gv = groups.deep_view();
    let mut lines: Vec<String> = Vec::new();
    let n = groups.len();
    let mut g: usize = 0;
    assert(gv.take(0) =~= Seq::empty());
    while g < n
        invariant
            n == groups.len(),
            g <= n,
            gv == groups.deep_view(),
            lines.deep_view() == report_lines(gv.take(g as int)),
        decreases n - g,
    {
        let group = &groups[g];
        let ghost cv = gv[g as int];
        assert(group.deep_view() == cv);
        let ghost base = lines.deep_view();
        proof {
            assert(gv.take(g + 1).drop_last() =~= gv.take(g as int));
            assert(gv.take(g + 1).last() == gv[g as int]);
        }
        let m = group.len();
        let mut i: usize = 0;
        while i < m
            invariant
                m == group.len(),
                i <= m,
                cv == group.deep_view(),
                lines.deep_view().len() == base.len() + i,
                forall|k: int| 0 <= k < base.len() ==> #[trigger] lines.deep_view()[k] == base[k],
                forall|k: int|
                    0 <= k < i ==> #[trigger] lines.deep_view()[base.len() + k] == crate_line(
                        cv[k].0,
                        cv[k].1,
                    ),
            decreases m - i,
        {
            let ghost before = lines.deep_view();
            let item = &group[i];
            assert(item.deep_view() == cv[i as int]);
            lines.push(describe(item.0.as_str(), item.1.as_str()));
            assert(lines.deep_view() =~= before.push(crate_line(cv[i as int].0, cv[i as int].1)));
            i += 1;
        }
        let ghost before = lines.deep_view();
        lines.push(String::new());
        assert(lines.deep_view() =~= before.push(Seq::empty()));
        proof {
            let target = base + group_lines(cv);
            let now = lines.deep_view();
            assert(now.len() == target.len());
            assert forall|k: int| 0 <= k < now.len() implies now[k] == target[k] by {
                if k < base.len() {
                    assert(before[k] == base[k]);
                } else if k < base.len() + m {
                    let j = k - base.len();
                    assert(before[base.len() + j] == crate_line(cv[j].0, cv[j].1));
                }
            }
            assert(now =~= target);
        }
        g += 1;
    }
    assert(gv.take(n as int) =~= gv);
    lines
}

/// The stage's options as the configuration gives them: each from its key.
/// Of the options that cannot be read, the first in this order fails them
/// all.
pub open spec fn configured(c: ConfigView) -> Result<DiscoverConfigView, BuildErrorView> {
    let theseus_root = text_in(c, "theseus-root"@);
    let subdirs = list_in(c, "discover"@);
    if theseus_root is Err {
        Err(theseus_root->Err_0)
    } else if subdirs is Err {
        Err(subdirs->Err_0)
    } else {
        Ok(
            DiscoverConfigView {
                theseus_root: theseus_root->Ok_0,
                subdirs: subdirs->Ok_0,
            },
        )
    }
}

/// Reads the stage's options from the configuration.
pub fn from_config(config: &Config) -> (r: Result<DiscoverConfig, BuildError>)
    ensures
        match r {
            Ok(read) => configured(config.deep_view()) == Ok::<DiscoverConfigView, BuildErrorView>(
                read.deep_view(),
            ),
            Err(e) => configured(config.deep_view()) == Err::<DiscoverConfigView, BuildErrorView>(
                e.deep_view(),
            ),
        },
{
    let theseus_root = match config.str("theseus-root") {
        Ok(value) => value,
        Err(e) => {
            return Err(e);
        },
    };
    let subdirs = match config.vec("discover") {
        Ok(value) => value,
        Err(e) => {
            return Err(e);
        },
    };
    Ok(DiscoverConfig { theseus_root, subdirs })
}

} // verus!
