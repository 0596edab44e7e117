//! The text side of the configuration: options set on the command line, and
//! references from one option's value to another option or to the
//! environment.

use crate::text::{
    before_first, find_char, first_index_of, has_prefix, lemma_first_index_of, pieces, split_on,
    str_eq,
};
use vstd::prelude::*;

verus! {

/// The option that an argument of the form `a.b.c=value` sets: the names
/// between the dots before the first `=`.
pub open spec fn override_path(arg: Seq<char>) -> Seq<Seq<char>> {
    pieces(before_first(arg, '='), '.')
}

/// The value that an argument of the form `a.b.c=value` sets: what stands
/// behind the first `=`; nothing where there is none.
pub open spec fn override_value(arg: Seq<char>) -> Seq<char> {
    if first_index_of(arg, '=') < arg.len() {
        arg.subrange(first_index_of(arg, '=') + 1, arg.len() as int)
    } else {
        Seq::empty()
    }
}

/// Splits an argument of the form `a.b.c=value` into the option's path and
/// the value.
pub fn parse_override(arg: &str) -> (r: (Vec<String>, String))
    ensures
        r.0.deep_view() == override_path(arg@),
        r.1@ == override_value(arg@),
{
    let n = arg.unicode_len();
    let at = find_char(arg, '=');
    proof {
        lemma_first_index_of(arg@, '=');
    }
    let path = split_on(arg.substring_char(0, at), '.');
    let value = if at < n {
        arg.substring_char(at + 1, n).to_owned()
    } else {
        String::new()
    };
    (path, value)
}

/// What an override sets an option to.
#[derive(Debug, Clone, PartialEq, Eq)]
pub enum OverrideValue {
    /// One value, as written.
    Scalar(String),
    /// A list of values, each as written.
    Array(Vec<String>),
}

pub enum OverrideValueView {
    Scalar(Seq<char>),
    Array(Seq<Seq<char>>),
}

impl DeepView for OverrideValue {
    type V = OverrideValueView;

    open spec fn deep_view(&self) -> OverrideValueView {
        match self {
            OverrideValue::Scalar(s) => OverrideValueView::Scalar(s@),
            OverrideValue::Array(items) => OverrideValueView::Array(items.deep_view()),
        }
    }
}

/// An option set on the command line.
#[derive(Debug, Clone, PartialEq, Eq)]
pub struct Override {
    pub path: Vec<String>,
    pub value: OverrideValue,
}

pub struct OverrideView {
    pub path: Seq<Seq<char>>,
    pub value: OverrideValueView,
}

impl DeepView for Override {
    type V = OverrideView;

    open spec fn deep_view(&self) -> OverrideView {
        OverrideView { path: self.path.deep_view(), value: self.value.deep_view() }
    }
}

/// A list that has been opened and not yet closed: the option, and the items
/// so far.
pub struct OpenList {
    pub path: Seq<Seq<char>>,
    pub items: Seq<Seq<char>>,
}

/// The overrides that the arguments make, read from the left with `open` as
/// the list that is open. `key=[` opens a list, every argument after it is an
/// item, `]` closes it; any other argument sets one option to one value. A
/// list that is never closed sets nothing.
pub open spec fn overrides_from(args: Seq<Seq<char>>, open: Option<OpenList>) -> Seq<OverrideView>
    decreases args.len(),
{
    if args.len() == 0 {
        Seq::empty()
    } else {
        let arg = args[0];
        let rest = args.drop_first();
        match open {
            Some(list) => if arg == "]"@ {
                seq![OverrideView { path: list.path, value: OverrideValueView::Array(list.items) }]
                    + overrides_from(rest, None)
            } else {
                overrides_from(
                    rest,
                    Some(OpenList { path: list.path, items: list.items.push(arg) }),
                )
            },
            None => if override_value(arg) == "["@ {
                overrides_from(rest, Some(OpenList { path: override_path(arg), items: Seq::empty() }))
            } else {
                seq![
                    OverrideView {
                        path: override_path(arg),
                        value: OverrideValueView::Scalar(override_value(arg)),
                    },
                ] + overrides_from(rest, None)
            },
        }
    }
}

/// The overrides that the arguments of a command line make.
pub open spec fn overrides_of(args: Seq<Seq<char>>) -> Seq<OverrideView> {
    overrides_from(args, None)
}

/// Reads the overrides from the arguments that are left on the command line,
/// in order.
pub fn collect_overrides(args: &Vec<String>) -> (out: Vec<Override>)
    ensures
        out.deep_view() == overrides_of(args.deep_view()),
{
    let ghost av = args.deep_view();
    let mut out: Vec<Override> = Vec::new();
    let mut open_path: Option<Vec<String>> = None;
    let mut items: Vec<String> = Vec::new();
    let n = args.len();
    let mut i: usize = 0;
    assert(av.skip(0) =~= av);
    while i < n
        invariant
            n == args.len(),
            i <= n,
            av == args.deep_view(),
            overrides_of(av) == out.deep_view() + overrides_from(
                av.skip(i as int),
                match open_path {
                    Some(p) => Some(OpenList { path: p.deep_view(), items: items.deep_view() }),
                    None => None,
                },
            ),
        decreases n - i,
    {
        let arg = args[i].as_str();
        let ghost rest = av.skip(i as int);
        let ghost before = out.deep_view();
        proof {
            assert(rest[0] == av[i as int]);
            assert(rest.drop_first() =~= av.skip(i + 1));
        }
        match open_path {
            Some(path) => {
                if str_eq(arg, "]") {
                    let ghost pv = path.deep_view();
                    let ghost iv = items.deep_view();
                    out.push(Override { path, value: OverrideValue::Array(items) });
                    items = Vec::new();
                    open_path = None;
                    assert(out.deep_view() =~= before + seq![
                        OverrideView { path: pv, value: OverrideValueView::Array(iv) },
                    ]);
                } else {
                    let ghost iv = items.deep_view();
                    items.push(arg.to_owned());
                    assert(items.deep_view() =~= iv.push(av[i as int]));
                    open_path = Some(path);
                }
            },
            None => {
                let (path, value) = parse_override(arg);
                if str_eq(value.as_str(), "[") {
                    items = Vec::new();
                    assert(items.deep_view() =~= Seq::<Seq<char>>::empty());
                    open_path = Some(path);
                } else {
                    let ghost pv = path.deep_view();
                    let ghost vv = value@;
                    out.push(Override { path, value: OverrideValue::Scalar(value) });
                    assert(out.deep_view() =~= before + seq![
                        OverrideView { path: pv, value: OverrideValueView::Scalar(vv) },
                    ]);
                    open_path = None;
                }
            },
        }
        i += 1;
    }
    assert(av.skip(n as int) =~= Seq::<Seq<char>>::empty());
    assert(out.deep_view() + Seq::<OverrideView>::empty() =~= out.deep_view());
    out
}

/// What a look for a reference in an option's value finds.
#[derive(Debug, Clone, PartialEq, Eq)]
pub enum ImportScan {
    /// No reference: the value holds no opening brace.
    Plain,
    /// An opening brace that is never closed.
    Unclosed,
    /// The first reference: what stands before it, the name between the
    /// braces, whether it names a variable of the environment, and what
    /// stands behind it.
    Import { prefix: String, key: String, from_env: bool, suffix: String },
}

pub enum ImportScanView {
    Plain,
    Unclosed,
    Import { prefix: Seq<char>, key: Seq<char>, from_env: bool, suffix: Seq<char> },
}

impl DeepView for ImportScan {
    type V = ImportScanView;

    open spec fn deep_view(&self) -> ImportScanView {
        match self {
            ImportScan::Plain => ImportScanView::Plain,
            ImportScan::Unclosed => ImportScanView::Unclosed,
            ImportScan::Import { prefix, key, from_env, suffix } => ImportScanView::Import {
                prefix: prefix@,
                key: key@,
                from_env: *from_env,
                suffix: suffix@,
            },
        }
    }
}

/// The first reference in a value. A reference is a name in braces; a name
/// that begins with `env:` names a variable of the environment, any other an
/// option.
pub open spec fn first_import(s: Seq<char>) -> ImportScanView {
    let open = first_index_of(s, '{');
    if open >= s.len() {
        ImportScanView::Plain
    } else {
        let rest = s.subrange(open + 1, s.len() as int);
        let close = first_index_of(rest, '}');
        if close >= rest.len() {
            ImportScanView::Unclosed
        } else {
            let name = rest.subrange(0, close);
            let suffix = rest.subrange(close + 1, rest.len() as int);
            if "env:"@.is_prefix_of(name) {
                ImportScanView::Import {
                    prefix: s.subrange(0, open),
                    key: name.subrange(4, name.len() as int),
                    from_env: true,
                    suffix,
                }
            } else {
                ImportScanView::Import { prefix: s.subrange(0, open), key: name, from_env: false, suffix }
            }
        }
    }
}

/// Looks for the first reference in a value.
pub fn scan_import(s: &str) -> (r: ImportScan)
    ensures
        r.deep_view() == first_import(s@),
{
    let n = s.unicode_len();
    let open = find_char(s, '{');
    proof {
        lemma_first_index_of(s@, '{');
    }
    if open >= n {
        return ImportScan::Plain;
    }
    let rest = s.substring_char(open + 1, n);
    let m = n - open - 1;
    let close = find_char(rest, '}');
    proof {
        lemma_first_index_of(rest@, '}');
    }
    if close >= m {
        return ImportScan::Unclosed;
    }
    let name = rest.substring_char(0, close);
    let suffix = rest.substring_char(close + 1, m).to_owned();
    let prefix = s.substring_char(0, open).to_owned();
    if has_prefix(name, "env:") {
        proof {
            reveal_strlit("env:");
        }
        ImportScan::Import {
            prefix,
            key: name.substring_char(4, close).to_owned(),
            from_env: true,
            suffix,
        }
    } else {
        ImportScan::Import { prefix, key: name.to_owned(), from_env: false, suffix }
    }
}

/// Puts the value of a reference in its place.
pub fn substitute(prefix: &str, value: &str, suffix: &str) -> (r: String)
    ensures
        r@ == prefix@ + value@ + suffix@,
{
    let mut r = prefix.to_owned();
    r.append(value);
    r.append(suffix);
    r
}

} // verus!
