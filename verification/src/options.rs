//! The options of a configuration: a document of named values, tables within
//! tables, with defaults for what the document leaves out.

use crate::config::{first_import, scan_import, substitute, ImportScan, ImportScanView};
use crate::error::{BuildError, BuildErrorView};
use crate::text::{
    copy_strings, first_index_of, is_first_index_of, join_with, joined, lemma_first_index_of,
    pieces, split_on, split_text, str_eq, text_pieces,
};
use vstd::prelude::*;

verus! {

/// A value of a configuration document.
#[derive(Debug, PartialEq, Eq)]
pub enum ConfigValue {
    String(String),
    Integer(i64),
    /// A number with a fraction, as the document writes it.
    Float(String),
    Boolean(bool),
    /// A date or a time, as the document writes it.
    Datetime(String),
    Array(Vec<ConfigValue>),
    /// Names with their values, in the order in which the table holds them.
    Table(Vec<(String, ConfigValue)>),
}

pub enum ConfigValueView {
    String(Seq<char>),
    Integer(i64),
    Float(Seq<char>),
    Boolean(bool),
    Datetime(Seq<char>),
    Array(Seq<ConfigValueView>),
    Table(Seq<(Seq<char>, ConfigValueView)>),
}

/// A value with its strings as character sequences, all the way down.
pub open spec fn view_of(v: ConfigValue) -> ConfigValueView
    decreases v,
{
    match v {
        ConfigValue::String(s) => ConfigValueView::String(s@),
        ConfigValue::Integer(i) => ConfigValueView::Integer(i),
        ConfigValue::Float(s) => ConfigValueView::Float(s@),
        ConfigValue::Boolean(b) => ConfigValueView::Boolean(b),
        ConfigValue::Datetime(s) => ConfigValueView::Datetime(s@),
        ConfigValue::Array(items) => ConfigValueView::Array(views_of(items@)),
        ConfigValue::Table(entries) => ConfigValueView::Table(entry_views(entries@)),
    }
}

/// The views of a list of values.
pub open spec fn views_of(items: Seq<ConfigValue>) -> Seq<ConfigValueView>
    decreases items,
{
    if items.len() == 0 {
        Seq::empty()
    } else {
        views_of(items.drop_last()).push(view_of(items.last()))
    }
}

/// The views of the entries of a table.
pub open spec fn entry_views(entries: Seq<(String, ConfigValue)>) -> Seq<(Seq<char>, ConfigValueView)>
    decreases entries,
{
    if entries.len() == 0 {
        Seq::empty()
    } else {
        entry_views(entries.drop_last()).push((entries.last().0@, view_of(entries.last().1)))
    }
}

impl DeepView for ConfigValue {
    type V = ConfigValueView;

    open spec fn deep_view(&self) -> ConfigValueView {
        view_of(*self)
    }
}

/// The views of a list of values are the views of its values, one by one.
pub proof fn lemma_views_of(items: Seq<ConfigValue>)
    ensures
        views_of(items).len() == items.len(),
        forall|i: int| 0 <= i < items.len() ==> #[trigger] views_of(items)[i] == view_of(items[i]),
    decreases items.len(),
{
    if items.len() > 0 {
        lemma_views_of(items.drop_last());
        assert forall|i: int| 0 <= i < items.len() implies #[trigger] views_of(items)[i]
            == view_of(items[i]) by {
            if i < items.len() - 1 {
                assert(items.drop_last()[i] == items[i]);
            }
        }
    }
}

/// The views of the entries of a table are the views of its entries, one by
/// one.
pub proof fn lemma_entry_views(entries: Seq<(String, ConfigValue)>)
    ensures
        entry_views(entries).len() == entries.len(),
        forall|i: int|
            0 <= i < entries.len() ==> #[trigger] entry_views(entries)[i] == (
                entries[i].0@,
                view_of(entries[i].1),
            ),
    decreases entries.len(),
{
    if entries.len() > 0 {
        lemma_entry_views(entries.drop_last());
        assert forall|i: int| 0 <= i < entries.len() implies #[trigger] entry_views(entries)[i] == (
            entries[i].0@,
            view_of(entries[i].1),
        ) by {
            if i < entries.len() - 1 {
                assert(entries.drop_last()[i] == entries[i]);
            }
        }
    }
}

/// The value of the first entry called `name`.
pub open spec fn entry_named(entries: Seq<(Seq<char>, ConfigValueView)>, name: Seq<char>) -> Option<ConfigValueView>
    decreases entries.len(),
{
    if entries.len() == 0 {
        None
    } else if entries[0].0 == name {
        Some(entries[0].1)
    } else {
        entry_named(entries.drop_first(), name)
    }
}

/// What a value holds under `name`: the entry of that name where the value is
/// a table, nothing where it is anything else.
pub open spec fn member(v: ConfigValueView, name: Seq<char>) -> Option<ConfigValueView> {
    match v {
        ConfigValueView::Table(entries) => entry_named(entries, name),
        _ => None,
    }
}

/// What lies at the end of a path of names, table by table.
pub open spec fn descend(v: ConfigValueView, path: Seq<Seq<char>>) -> Option<ConfigValueView>
    decreases path.len(),
{
    if path.len() == 0 {
        Some(v)
    } else {
        match member(v, path[0]) {
            Some(inner) => descend(inner, path.drop_first()),
            None => None,
        }
    }
}

/// What a document holds for a key: the names between the key's dots lead
/// from table to table.
pub open spec fn lookup(config: ConfigValueView, key: Seq<char>) -> Option<ConfigValueView> {
    descend(config, pieces(key, '.'))
}

/// The value of an option: what the configuration holds for the key, else
/// what the defaults hold.
pub open spec fn option_value(config: ConfigValueView, defaults: ConfigValueView, key: Seq<char>) -> Option<ConfigValueView> {
    match lookup(config, key) {
        Some(v) => Some(v),
        None => lookup(defaults, key),
    }
}

/// The value of the first variable called `name`.
pub open spec fn env_value(env: Seq<(Seq<char>, Seq<char>)>, name: Seq<char>) -> Option<Seq<char>>
    decreases env.len(),
{
    if env.len() == 0 {
        None
    } else if env[0].0 == name {
        Some(env[0].1)
    } else {
        env_value(env.drop_first(), name)
    }
}

impl ConfigValue {
    /// What the value holds under `name`.
    pub fn get(&self, name: &str) -> (r: Option<&ConfigValue>)
        ensures
            match r {
                Some(v) => member(self.deep_view(), name@) == Some(v.deep_view()),
                None => member(self.deep_view(), name@) is None,
            },
    {
        match self {
            ConfigValue::Table(entries) => {
                let n = entries.len();
                let mut i: usize = 0;
                let ghost ev = entry_views(entries@);
                proof {
                    lemma_entry_views(entries@);
                    assert(ev.skip(0) =~= ev);
                    assert(member(self.deep_view(), name@) == entry_named(ev, name@));
                }
                while i < n
                    invariant
                        n == entries.len(),
                        i <= n,
                        ev == entry_views(entries@),
                        ev.len() == n,
                        forall|k: int|
                            0 <= k < n ==> #[trigger] ev[k] == (entries@[k].0@, view_of(entries@[k].1)),
                        member(self.deep_view(), name@) == entry_named(ev, name@),
                        entry_named(ev, name@) == entry_named(ev.skip(i as int), name@),
                    decreases n - i,
                {
                    let ghost rest = ev.skip(i as int);
                    assert(rest[0] == ev[i as int]);
                    assert(rest.drop_first() =~= ev.skip(i + 1));
                    if str_eq(entries[i].0.as_str(), name) {
                        assert(entry_named(rest, name@) == Some(rest[0].1));
                        return Some(&entries[i].1);
                    }
                    i += 1;
                }
                None
            },
            _ => None,
        }
    }
}

/// Looks a key up in a document.
pub fn find<'a>(config: &'a ConfigValue, key: &str) -> (r: Option<&'a ConfigValue>)
    ensures
        match r {
            Some(v) => lookup(config.deep_view(), key@) == Some(v.deep_view()),
            None => lookup(config.deep_view(), key@) is None,
        },
{
    let path = split_on(key, '.');
    let ghost pv = path.deep_view();
    let mut at = config;
    let n = path.len();
    let mut i: usize = 0;
    assert(pv.skip(0) =~= pv);
    while i < n
        invariant
            n == path.len(),
            i <= n,
            pv == path.deep_view(),
            pv == pieces(key@, '.'),
            lookup(config.deep_view(), key@) == descend(at.deep_view(), pv.skip(i as int)),
        decreases n - i,
    {
        let ghost rest = pv.skip(i as int);
        assert(rest[0] == pv[i as int]);
        assert(rest.drop_first() =~= pv.skip(i + 1));
        match at.get(path[i].as_str()) {
            Some(inner) => {
                at = inner;
            },
            None => {
                return None;
            },
        }
        i += 1;
    }
    Some(at)
}

/// The value of an option: what the configuration holds for the key, else
/// what the defaults hold, else `MissingOption`.
pub fn opt<'a>(config: &'a ConfigValue, defaults: &'a ConfigValue, key: &str) -> (r: Result<&'a ConfigValue, BuildError>)
    ensures
        match r {
            Ok(v) => option_value(config.deep_view(), defaults.deep_view(), key@) == Some(
                v.deep_view(),
            ),
            Err(e) => option_value(config.deep_view(), defaults.deep_view(), key@) is None
                && e.deep_view() == (BuildErrorView::MissingOption { key: key@ }),
        },
{
    match find(config, key) {
        Some(v) => Ok(v),
        None => match find(defaults, key) {
            Some(v) => Ok(v),
            None => Err(BuildError::MissingOption { key: key.to_owned() }),
        },
    }
}

/// What an option gives where a truth value is asked for.
pub open spec fn bool_option(config: ConfigValueView, defaults: ConfigValueView, key: Seq<char>) -> Result<
    bool,
    BuildErrorView,
> {
    match option_value(config, defaults, key) {
        None => Err(BuildErrorView::MissingOption { key }),
        Some(ConfigValueView::Boolean(b)) => Ok(b),
        Some(_) => Err(BuildErrorView::WrongType { key, expected: "a boolean"@ }),
    }
}

/// The truth value of an option. An option of another kind is `WrongType`.
pub fn opt_bool(config: &ConfigValue, defaults: &ConfigValue, key: &str) -> (r: Result<bool, BuildError>)
    ensures
        gives_flag(r, bool_option(config.deep_view(), defaults.deep_view(), key@)),
{
    match opt(config, defaults, key) {
        Err(e) => Err(e),
        Ok(ConfigValue::Boolean(b)) => Ok(*b),
        Ok(_) => Err(BuildError::WrongType { key: key.to_owned(), expected: "a boolean".to_owned() }),
    }
}

/// Looks a variable up in the environment as it was found.
pub fn env_get<'a>(env: &'a Vec<(String, String)>, name: &str) -> (r: Option<&'a String>)
    ensures
        match r {
            Some(v) => env_value(env.deep_view(), name@) == Some(v@),
            None => env_value(env.deep_view(), name@) is None,
        },
{
    let ghost ev = env.deep_view();
    let n = env.len();
    let mut i: usize = 0;
    assert(ev.skip(0) =~= ev);
    while i < n
        invariant
            n == env.len(),
            i <= n,
            ev == env.deep_view(),
            env_value(ev, name@) == env_value(ev.skip(i as int), name@),
        decreases n - i,
    {
        let ghost rest = ev.skip(i as int);
        assert(rest[0] == ev[i as int]);
        assert(rest.drop_first() =~= ev.skip(i + 1));
        assert(env[i as int].deep_view() == ev[i as int]);
        if str_eq(env[i].0.as_str(), name) {
            return Some(&env[i].1);
        }
        i += 1;
    }
    None
}

/// A value with its references filled in. A reference to the environment
/// gives the variable's value; a reference to an option gives that option's
/// text, its own references filled in. `fuel` bounds how many references may
/// be followed.
pub open spec fn expanded(
    config: ConfigValueView,
    defaults: ConfigValueView,
    env: Seq<(Seq<char>, Seq<char>)>,
    text: Seq<char>,
    fuel: nat,
) -> Result<Seq<char>, BuildErrorView>
    decreases fuel, 0nat,
{
    match first_import(text) {
        ImportScanView::Plain => Ok(text),
        ImportScanView::Unclosed => Err(BuildErrorView::InvalidImport { value: text }),
        ImportScanView::Import { prefix, key, from_env, suffix } => if fuel == 0 {
            Err(BuildErrorView::ImportsTooDeep { value: text })
        } else {
            let import = if from_env {
                match env_value(env, key) {
                    Some(v) => Ok(v),
                    None => Err(BuildErrorView::MissingEnvironment { name: key }),
                }
            } else {
                text_option(config, defaults, env, key, (fuel - 1) as nat)
            };
            match import {
                Err(e) => Err(e),
                Ok(v) => expanded(config, defaults, env, prefix + v + suffix, (fuel - 1) as nat),
            }
        },
    }
}

/// What an option gives where text is asked for: its string, with the
/// references filled in.
pub open spec fn text_option(
    config: ConfigValueView,
    defaults: ConfigValueView,
    env: Seq<(Seq<char>, Seq<char>)>,
    key: Seq<char>,
    fuel: nat,
) -> Result<Seq<char>, BuildErrorView>
    decreases fuel, 1nat,
{
    match option_value(config, defaults, key) {
        None => Err(BuildErrorView::MissingOption { key }),
        Some(ConfigValueView::String(s)) => expanded(config, defaults, env, s, fuel),
        Some(_) => Err(BuildErrorView::WrongType { key, expected: "a string"@ }),
    }
}

/// Whether a result is the one that the options call for.
pub open spec fn gives_text(r: Result<String, BuildError>, wanted: Result<Seq<char>, BuildErrorView>) -> bool {
    match r {
        Ok(s) => wanted == Ok::<Seq<char>, BuildErrorView>(s@),
        Err(e) => wanted == Err::<Seq<char>, BuildErrorView>(e.deep_view()),
    }
}

/// Fills in the references of a value. `fuel` bounds how many references are
/// followed before the value is given up as `ImportsTooDeep`.
pub fn resolve_imports(
    config: &ConfigValue,
    defaults: &ConfigValue,
    env: &Vec<(String, String)>,
    text: String,
    fuel: usize,
) -> (r: Result<String, BuildError>)
    ensures
        gives_text(
            r,
            expanded(config.deep_view(), defaults.deep_view(), env.deep_view(), text@, fuel as nat),
        ),
    decreases fuel, 0nat,
{
    match scan_import(text.as_str()) {
        ImportScan::Plain => Ok(text),
        ImportScan::Unclosed => Err(BuildError::InvalidImport { value: text }),
        ImportScan::Import { prefix, key, from_env, suffix } => {
            if fuel == 0 {
                return Err(BuildError::ImportsTooDeep { value: text });
            }
            let import = if from_env {
                match env_get(env, key.as_str()) {
                    Some(v) => v.clone(),
                    None => {
                        return Err(BuildError::MissingEnvironment { name: key });
                    },
                }
            } else {
                match opt_str(config, defaults, env, key.as_str(), fuel - 1) {
                    Ok(v) => v,
                    Err(e) => {
                        return Err(e);
                    },
                }
            };
            resolve_imports(
                config,
                defaults,
                env,
                substitute(prefix.as_str(), import.as_str(), suffix.as_str()),
                fuel - 1,
            )
        },
    }
}

/// The text of an option, with its references filled in. An option of
/// another kind is `WrongType`.
pub fn opt_str(
    config: &ConfigValue,
    defaults: &ConfigValue,
    env: &Vec<(String, String)>,
    key: &str,
    fuel: usize,
) -> (r: Result<String, BuildError>)
    ensures
        gives_text(
            r,
            text_option(
                config.deep_view(),
                defaults.deep_view(),
                env.deep_view(),
                key@,
                fuel as nat,
            ),
        ),
    decreases fuel, 1nat,
{
    match opt(config, defaults, key) {
        Err(e) => Err(e),
        Ok(ConfigValue::String(s)) => resolve_imports(config, defaults, env, s.clone(), fuel),
        Ok(_) => Err(BuildError::WrongType { key: key.to_owned(), expected: "a string".to_owned() }),
    }
}

/// The texts of the items of a list, each with its references filled in.
/// The first item that is no string, or whose references cannot be filled
/// in, fails the list.
pub open spec fn text_items(
    config: ConfigValueView,
    defaults: ConfigValueView,
    env: Seq<(Seq<char>, Seq<char>)>,
    key: Seq<char>,
    items: Seq<ConfigValueView>,
    fuel: nat,
) -> Result<Seq<Seq<char>>, BuildErrorView>
    decreases items.len(),
{
    if items.len() == 0 {
        Ok(Seq::empty())
    } else {
        match text_items(config, defaults, env, key, items.drop_last(), fuel) {
            Err(e) => Err(e),
            Ok(earlier) => match items.last() {
                ConfigValueView::String(s) => match expanded(config, defaults, env, s, fuel) {
                    Ok(t) => Ok(earlier.push(t)),
                    Err(e) => Err(e),
                },
                _ => Err(BuildErrorView::WrongType { key, expected: "an array of strings"@ }),
            },
        }
    }
}

/// What an option gives where a list of texts is asked for: the strings of
/// its array, each with its references filled in; or, for a table that names
/// a variable of the environment and a delimiter, the pieces of the
/// variable's value between the delimiters.
pub open spec fn list_option(
    config: ConfigValueView,
    defaults: ConfigValueView,
    env: Seq<(Seq<char>, Seq<char>)>,
    key: Seq<char>,
    fuel: nat,
) -> Result<Seq<Seq<char>>, BuildErrorView> {
    match option_value(config, defaults, key) {
        None => Err(BuildErrorView::MissingOption { key }),
        Some(ConfigValueView::Array(items)) => text_items(config, defaults, env, key, items, fuel),
        Some(ConfigValueView::Table(entries)) => match (
            entry_named(entries, "from-env"@),
            entry_named(entries, "delimiter"@),
        ) {
            (Some(ConfigValueView::String(name)), Some(ConfigValueView::String(delimiter))) => match env_value(
                env,
                name,
            ) {
                Some(v) => Ok(text_pieces(v, delimiter)),
                None => Err(BuildErrorView::MissingEnvironment { name }),
            },
            _ => Err(BuildErrorView::WrongType { key, expected: "an array of strings"@ }),
        },
        Some(_) => Err(BuildErrorView::WrongType { key, expected: "an array of strings"@ }),
    }
}

/// Whether a result is the list that the options call for.
pub open spec fn gives_list(
    r: Result<Vec<String>, BuildError>,
    wanted: Result<Seq<Seq<char>>, BuildErrorView>,
) -> bool {
    match r {
        Ok(items) => wanted == Ok::<Seq<Seq<char>>, BuildErrorView>(items.deep_view()),
        Err(e) => wanted == Err::<Seq<Seq<char>>, BuildErrorView>(e.deep_view()),
    }
}

/// The failure of a list option of the wrong kind.
fn not_a_list(key: &str) -> (e: BuildError)
    ensures
        e.deep_view() == (BuildErrorView::WrongType { key: key@, expected: "an array of strings"@ }),
{
    BuildError::WrongType { key: key.to_owned(), expected: "an array of strings".to_owned() }
}

/// The texts of an option that is a list: see `list_option`.
pub fn opt_str_vec(
    config: &ConfigValue,
    defaults: &ConfigValue,
    env: &Vec<(String, String)>,
    key: &str,
    fuel: usize,
) -> (r: Result<Vec<String>, BuildError>)
    ensures
        gives_list(
            r,
            list_option(
                config.deep_view(),
                defaults.deep_view(),
                env.deep_view(),
                key@,
                fuel as nat,
            ),
        ),
{
    let ghost cv = config.deep_view();
    let ghost dv = defaults.deep_view();
    let ghost ev = env.deep_view();
    let value = match opt(config, defaults, key) {
        Err(e) => {
            return Err(e);
        },
        Ok(value) => value,
    };
    match value {
        ConfigValue::Array(items) => {
            let ghost iv = views_of(items@);
            proof {
                lemma_views_of(items@);
            }
            let mut out: Vec<String> = Vec::new();
            let n = items.len();
            let mut i: usize = 0;
            assert(iv.take(0) =~= Seq::empty());
            assert(out.deep_view() =~= Seq::empty());
            while i < n
                invariant
                    n == items.len(),
                    i <= n,
                    cv == config.deep_view(),
                    dv == defaults.deep_view(),
                    ev == env.deep_view(),
                    iv == views_of(items@),
                    iv.len() == n,
                    forall|k: int| 0 <= k < n ==> #[trigger] iv[k] == view_of(items@[k]),
                    text_items(cv, dv, ev, key@, iv.take(i as int), fuel as nat) == Ok::<
                        Seq<Seq<char>>,
                        BuildErrorView,
                    >(out.deep_view()),
                    list_option(cv, dv, ev, key@, fuel as nat) == text_items(
                        cv,
                        dv,
                        ev,
                        key@,
                        iv,
                        fuel as nat,
                    ),
                decreases n - i,
            {
                let ghost before = out.deep_view();
                proof {
                    assert(iv.take(i + 1).drop_last() =~= iv.take(i as int));
                    assert(iv.take(i + 1).last() == iv[i as int]);
                    assert(iv[i as int] == view_of(items@[i as int]));
                }
                match &items[i] {
                    ConfigValue::String(s) => {
                        match resolve_imports(config, defaults, env, s.clone(), fuel) {
                            Ok(text) => {
                                let ghost tv = text@;
                                out.push(text);
                                assert(out.deep_view() =~= before.push(tv));
                            },
                            Err(e) => {
                                proof {
                                    lemma_text_items_fail(cv, dv, ev, key@, iv, fuel as nat, i + 1);
                                }
                                return Err(e);
                            },
                        }
                    },
                    _ => {
                        proof {
                            lemma_text_items_fail(cv, dv, ev, key@, iv, fuel as nat, i + 1);
                        }
                        return Err(not_a_list(key));
                    },
                }
                i += 1;
            }
            assert(iv.take(n as int) =~= iv);
            Ok(out)
        },
        ConfigValue::Table(_) => {
            let name = match value.get("from-env") {
                Some(ConfigValue::String(name)) => name,
                _ => {
                    return Err(not_a_list(key));
                },
            };
            let delimiter = match value.get("delimiter") {
                Some(ConfigValue::String(delimiter)) => delimiter,
                _ => {
                    return Err(not_a_list(key));
                },
            };
            match env_get(env, name.as_str()) {
                Some(v) => Ok(split_text(v.as_str(), delimiter.as_str())),
                None => Err(BuildError::MissingEnvironment { name: name.clone() }),
            }
        },
        _ => Err(not_a_list(key)),
    }
}

/// A list whose beginning fails, fails in the same way.
proof fn lemma_text_items_fail(
    config: ConfigValueView,
    defaults: ConfigValueView,
    env: Seq<(Seq<char>, Seq<char>)>,
    key: Seq<char>,
    items: Seq<ConfigValueView>,
    fuel: nat,
    n: int,
)
    requires
        0 <= n <= items.len(),
        text_items(config, defaults, env, key, items.take(n), fuel) is Err,
    ensures
        text_items(config, defaults, env, key, items, fuel) == text_items(
            config,
            defaults,
            env,
            key,
            items.take(n),
            fuel,
        ),
    decreases items.len() - n,
{
    if n < items.len() {
        assert(items.take(n + 1).drop_last() =~= items.take(n));
        lemma_text_items_fail(config, defaults, env, key, items, fuel, n + 1);
    } else {
        assert(items.take(n) =~= items);
    }
}

/// How many references are followed at most while one value is filled in.
pub const IMPORT_LIMIT: usize = 1000;

/// A configuration: the options that were set, the defaults for the others,
/// and the environment as it was found.
#[derive(Debug, PartialEq, Eq)]
pub struct Config {
    pub inner: ConfigValue,
    pub defaults: ConfigValue,
    pub env: Vec<(String, String)>,
}

pub struct ConfigView {
    pub inner: ConfigValueView,
    pub defaults: ConfigValueView,
    pub env: Seq<(Seq<char>, Seq<char>)>,
}

impl DeepView for Config {
    type V = ConfigView;

    open spec fn deep_view(&self) -> ConfigView {
        ConfigView {
            inner: self.inner.deep_view(),
            defaults: self.defaults.deep_view(),
            env: self.env.deep_view(),
        }
    }
}

/// What a configuration gives for an option where text is asked for.
pub open spec fn text_in(c: ConfigView, key: Seq<char>) -> Result<Seq<char>, BuildErrorView> {
    text_option(c.inner, c.defaults, c.env, key, IMPORT_LIMIT as nat)
}

/// What a configuration gives for an option where a truth value is asked
/// for.
pub open spec fn flag_in(c: ConfigView, key: Seq<char>) -> Result<bool, BuildErrorView> {
    bool_option(c.inner, c.defaults, key)
}

/// What a configuration gives for an option where a list of texts is asked
/// for.
pub open spec fn list_in(c: ConfigView, key: Seq<char>) -> Result<Seq<Seq<char>>, BuildErrorView> {
    list_option(c.inner, c.defaults, c.env, key, IMPORT_LIMIT as nat)
}

/// Whether a result is the truth value that the options call for.
pub open spec fn gives_flag(r: Result<bool, BuildError>, wanted: Result<bool, BuildErrorView>) -> bool {
    match r {
        Ok(b) => wanted == Ok::<bool, BuildErrorView>(b),
        Err(e) => wanted == Err::<bool, BuildErrorView>(e.deep_view()),
    }
}

impl Config {
    /// The truth value of an option.
    pub fn bool(&self, key: &str) -> (r: Result<bool, BuildError>)
        ensures
            gives_flag(r, flag_in(self.deep_view(), key@)),
    {
        opt_bool(&self.inner, &self.defaults, key)
    }

    /// The text of an option, with its references filled in.
    pub fn str(&self, key: &str) -> (r: Result<String, BuildError>)
        ensures
            gives_text(r, text_in(self.deep_view(), key@)),
    {
        opt_str(&self.inner, &self.defaults, &self.env, key, IMPORT_LIMIT)
    }

    /// The texts of an option that is a list.
    pub fn vec(&self, key: &str) -> (r: Result<Vec<String>, BuildError>)
        ensures
            gives_list(r, list_in(self.deep_view(), key@)),
    {
        opt_str_vec(&self.inner, &self.defaults, &self.env, key, IMPORT_LIMIT)
    }
}

/// The default of an option, or `MissingOption` where it has none.
pub fn opt_default<'a>(defaults: &'a ConfigValue, key: &str) -> (r: Result<&'a ConfigValue, BuildError>)
    ensures
        match r {
            Ok(v) => lookup(defaults.deep_view(), key@) == Some(v.deep_view()),
            Err(e) => lookup(defaults.deep_view(), key@) is None && e.deep_view() == (
            BuildErrorView::MissingOption { key: key@ }),
        },
{
    match find(defaults, key) {
        Some(v) => Ok(v),
        None => Err(BuildError::MissingOption { key: key.to_owned() }),
    }
}

/// The keys of the options below a value, each with the names on its path
/// joined by dots, table by table in the order of their entries. `path` holds
/// the names that lead to the value.
pub open spec fn leaf_keys(v: ConfigValueView, path: Seq<Seq<char>>) -> Seq<Seq<char>>
    decreases v,
{
    match v {
        ConfigValueView::Table(entries) => entry_keys(entries, path),
        _ => seq![joined(path, "."@)],
    }
}

/// The keys of the options below the entries of a table.
pub open spec fn entry_keys(entries: Seq<(Seq<char>, ConfigValueView)>, path: Seq<Seq<char>>) -> Seq<Seq<char>>
    decreases entries,
{
    if entries.len() == 0 {
        Seq::empty()
    } else {
        entry_keys(entries.drop_last(), path) + leaf_keys(
            entries.last().1,
            path.push(entries.last().0),
        )
    }
}

/// The keys of the options below a value.
fn keys_under(v: &ConfigValue, path: &Vec<String>) -> (keys: Vec<String>)
    ensures
        keys.deep_view() == leaf_keys(v.deep_view(), path.deep_view()),
    decreases v,
{
    match v {
        ConfigValue::Table(entries) => {
            let ghost ev = entry_views(entries@);
            proof {
                lemma_entry_views(entries@);
            }
            let mut keys: Vec<String> = Vec::new();
            let n = entries.len();
            let mut i: usize = 0;
            assert(ev.take(0) =~= Seq::empty());
            assert(keys.deep_view() =~= entry_keys(ev.take(0), path.deep_view()));
            while i < n
                invariant
                    n == entries.len(),
                    i <= n,
                    ev == entry_views(entries@),
                    ev.len() == n,
                    forall|k: int|
                        0 <= k < n ==> #[trigger] ev[k] == (entries@[k].0@, view_of(entries@[k].1)),
                    forall|k: int| 0 <= k < n ==> decreases_to!(v => #[trigger] entries@[k].1),
                    keys.deep_view() == entry_keys(ev.take(i as int), path.deep_view()),
                decreases n - i,
            {
                let ghost before = keys.deep_view();
                proof {
                    assert(ev.take(i + 1).drop_last() =~= ev.take(i as int));
                    assert(ev.take(i + 1).last() == ev[i as int]);
                }
                let mut inner = copy_strings(path);
                inner.push(entries[i].0.clone());
                assert(inner.deep_view() =~= path.deep_view().push(entries@[i as int].0@));
                let mut more = keys_under(&entries[i].1, &inner);
                let ghost mv = more.deep_view();
                keys.append(&mut more);
                assert(keys.deep_view() =~= before + mv);
                i += 1;
            }
            assert(ev.take(n as int) =~= ev);
            keys
        },
        _ => {
            let mut keys: Vec<String> = Vec::new();
            keys.push(join_with(path, "."));
            assert(keys.deep_view() =~= seq![joined(path.deep_view(), "."@)]);
            keys
        },
    }
}

/// The keys of all options of a document, table by table in the order of
/// their entries. A document read from text holds the entries of a table in
/// the order of their names.
pub fn option_keys(document: &ConfigValue) -> (keys: Vec<String>)
    ensures
        keys.deep_view() == leaf_keys(document.deep_view(), Seq::empty()),
{
    let path: Vec<String> = Vec::new();
    assert(path.deep_view() =~= Seq::<Seq<char>>::empty());
    keys_under(document, &path)
}

/// The entries of a table once `name` is set to `value`: the first entry of
/// that name takes the value, or a new entry comes last.
pub open spec fn entries_with(
    entries: Seq<(Seq<char>, ConfigValueView)>,
    name: Seq<char>,
    value: ConfigValueView,
) -> Seq<(Seq<char>, ConfigValueView)>
    decreases entries.len(),
{
    if entries.len() == 0 {
        seq![(name, value)]
    } else if entries[0].0 == name {
        seq![(name, value)] + entries.drop_first()
    } else {
        seq![entries[0]] + entries_with(entries.drop_first(), name, value)
    }
}

/// A value once what lies at the end of `path` below it is set to `value`;
/// with no name left on the path, `value` itself. Tables that the path leads
/// through and that are not there are made. Nothing is given where the path
/// leads through a value that is no table.
pub open spec fn with_option(v: ConfigValueView, path: Seq<Seq<char>>, value: ConfigValueView) -> Option<ConfigValueView>
    decreases path.len(),
{
    if path.len() == 0 {
        Some(value)
    } else {
        match v {
            ConfigValueView::Table(entries) => {
                let inner = match entry_named(entries, path[0]) {
                    Some(x) => x,
                    None => ConfigValueView::Table(Seq::empty()),
                };
                match with_option(inner, path.drop_first(), value) {
                    Some(changed) => Some(ConfigValueView::Table(entries_with(entries, path[0], changed))),
                    None => None,
                }
            },
            _ => None,
        }
    }
}

/// Where the first entry called `name` stands, what it holds and what
/// setting it gives.
proof fn lemma_entry_found(
    entries: Seq<(Seq<char>, ConfigValueView)>,
    name: Seq<char>,
    at: int,
    value: ConfigValueView,
)
    requires
        0 <= at < entries.len(),
        entries[at].0 == name,
        forall|k: int| 0 <= k < at ==> (#[trigger] entries[k]).0 != name,
    ensures
        entry_named(entries, name) == Some(entries[at].1),
        entries_with(entries, name, value) == entries.update(at, (name, value)),
    decreases at,
{
    if at == 0 {
        assert(entries_with(entries, name, value) =~= entries.update(at, (name, value)));
    } else {
        let rest = entries.drop_first();
        assert(entries[0].0 != name);
        assert forall|k: int| 0 <= k < at - 1 implies (#[trigger] rest[k]).0 != name by {
            assert(rest[k] == entries[k + 1]);
        }
        lemma_entry_found(rest, name, at - 1, value);
        assert(entries_with(entries, name, value) =~= entries.update(at, (name, value)));
    }
}

/// A table without an entry called `name` holds nothing under it, and setting
/// it puts a new entry last.
proof fn lemma_entry_absent(entries: Seq<(Seq<char>, ConfigValueView)>, name: Seq<char>, value: ConfigValueView)
    requires
        forall|k: int| 0 <= k < entries.len() ==> (#[trigger] entries[k]).0 != name,
    ensures
        entry_named(entries, name) is None,
        entries_with(entries, name, value) == entries.push((name, value)),
    decreases entries.len(),
{
    if entries.len() == 0 {
        assert(entries_with(entries, name, value) =~= entries.push((name, value)));
    } else {
        let rest = entries.drop_first();
        assert(entries[0].0 != name);
        assert forall|k: int| 0 <= k < rest.len() implies (#[trigger] rest[k]).0 != name by {
            assert(rest[k] == entries[k + 1]);
        }
        lemma_entry_absent(rest, name, value);
        assert(entries_with(entries, name, value) =~= entries.push((name, value)));
    }
}

/// Finds the first entry called `name`; the number of entries where there is
/// none.
fn entry_index(entries: &Vec<(String, ConfigValue)>, name: &str) -> (at: usize)
    ensures
        at <= entries.len(),
        at < entries.len() ==> entries@[at as int].0@ == name@,
        forall|k: int| 0 <= k < at ==> (#[trigger] entries@[k]).0@ != name@,
{
    let n = entries.len();
    let mut i: usize = 0;
    while i < n
        invariant
            n == entries.len(),
            i <= n,
            forall|k: int| 0 <= k < i ==> (#[trigger] entries@[k]).0@ != name@,
        decreases n - i,
    {
        if str_eq(entries[i].0.as_str(), name) {
            return i;
        }
        i += 1;
    }
    n
}

/// Sets the option at the end of the path from `from` on.
fn set_under(v: ConfigValue, path: &Vec<String>, from: usize, value: ConfigValue) -> (r: Option<ConfigValue>)
    requires
        from <= path.len(),
    ensures
        match r {
            Some(changed) => with_option(
                v.deep_view(),
                path.deep_view().skip(from as int),
                value.deep_view(),
            ) == Some(changed.deep_view()),
            None => with_option(v.deep_view(), path.deep_view().skip(from as int), value.deep_view())
                is None,
        },
    decreases path.len() - from,
{
    let ghost rest = path.deep_view().skip(from as int);
    if from == path.len() {
        return Some(value);
    }
    proof {
        assert(rest[0] == path.deep_view()[from as int]);
        assert(rest.drop_first() =~= path.deep_view().skip(from + 1));
    }
    let name = path[from].as_str();
    let ghost vv = value.deep_view();
    match v {
        ConfigValue::Table(mut entries) => {
            let ghost old_entries = entries@;
            let ghost ev = entry_views(old_entries);
            proof {
                lemma_entry_views(old_entries);
            }
            let at = entry_index(&entries, name);
            if at < entries.len() {
                let (key, old) = entries.remove(at);
                assert(old == old_entries[at as int].1);
                assert(key@ == name@);
                match set_under(old, path, from + 1, value) {
                    None => {
                        proof {
                            assert forall|k: int| 0 <= k < at implies (#[trigger] ev[k]).0
                                != name@ by {}
                            lemma_entry_found(ev, name@, at as int, vv);
                        }
                        None
                    },
                    Some(changed) => {
                        let ghost cv = changed.deep_view();
                        entries.insert(at, (key, changed));
                        proof {
                            assert forall|k: int| 0 <= k < at implies (#[trigger] ev[k]).0
                                != name@ by {}
                            lemma_entry_found(ev, name@, at as int, cv);
                            lemma_entry_views(entries@);
                            assert(entry_views(entries@) =~= ev.update(at as int, (name@, cv)));
                        }
                        Some(ConfigValue::Table(entries))
                    },
                }
            } else {
                let fresh: Vec<(String, ConfigValue)> = Vec::new();
                assert(entry_views(fresh@) =~= Seq::empty());
                match set_under(ConfigValue::Table(fresh), path, from + 1, value) {
                    None => {
                        proof {
                            assert forall|k: int| 0 <= k < ev.len() implies (#[trigger] ev[k]).0
                                != name@ by {}
                            lemma_entry_absent(ev, name@, vv);
                        }
                        None
                    },
                    Some(changed) => {
                        let ghost cv = changed.deep_view();
                        entries.push((path[from].clone(), changed));
                        proof {
                            assert forall|k: int| 0 <= k < ev.len() implies (#[trigger] ev[k]).0
                                != name@ by {}
                            lemma_entry_absent(ev, name@, cv);
                            lemma_entry_views(entries@);
                            assert(entry_views(entries@) =~= ev.push((name@, cv)));
                        }
                        Some(ConfigValue::Table(entries))
                    },
                }
            }
        },
        _ => None,
    }
}

/// A document once the option that the names of `path` lead to is set to
/// `value`. A path without a name names no option: `EmptyOptionPath`. A value
/// on the way that is no table is `NotATable`, with the names of the path
/// joined by dots.
pub open spec fn option_set(config: ConfigValueView, path: Seq<Seq<char>>, value: ConfigValueView) -> Result<
    ConfigValueView,
    BuildErrorView,
> {
    if path.len() == 0 {
        Err(BuildErrorView::EmptyOptionPath)
    } else {
        match with_option(config, path, value) {
            Some(changed) => Ok(changed),
            None => Err(BuildErrorView::NotATable { key: joined(path, "."@) }),
        }
    }
}

/// Whether a result is the document that setting options calls for.
pub open spec fn gives_document(
    r: Result<ConfigValue, BuildError>,
    wanted: Result<ConfigValueView, BuildErrorView>,
) -> bool {
    match r {
        Ok(changed) => wanted == Ok::<ConfigValueView, BuildErrorView>(changed.deep_view()),
        Err(e) => wanted == Err::<ConfigValueView, BuildErrorView>(e.deep_view()),
    }
}

/// Sets the option that the names of `path` lead to. Tables on the way that
/// are not there are made; a value on the way that is no table is
/// `NotATable`; a path without a name is `EmptyOptionPath`.
pub fn set_option(config: ConfigValue, path: &Vec<String>, value: ConfigValue) -> (r: Result<
    ConfigValue,
    BuildError,
>)
    ensures
        gives_document(r, option_set(config.deep_view(), path.deep_view(), value.deep_view())),
{
    if path.len() == 0 {
        return Err(BuildError::EmptyOptionPath);
    }
    assert(path.deep_view().skip(0) =~= path.deep_view());
    match set_under(config, path, 0, value) {
        Some(changed) => Ok(changed),
        None => Err(BuildError::NotATable { key: join_with(path, ".") }),
    }
}

/// An option to set: the names that lead to it, and its value.
#[derive(Debug, PartialEq, Eq)]
pub struct Assignment {
    pub path: Vec<String>,
    pub value: ConfigValue,
}

pub struct AssignmentView {
    pub path: Seq<Seq<char>>,
    pub value: ConfigValueView,
}

impl DeepView for Assignment {
    type V = AssignmentView;

    open spec fn deep_view(&self) -> AssignmentView {
        AssignmentView { path: self.path.deep_view(), value: self.value.deep_view() }
    }
}

/// A document once the options are set, one after the other. The first
/// option that cannot be set fails them all.
pub open spec fn with_assignments(config: ConfigValueView, items: Seq<AssignmentView>) -> Result<
    ConfigValueView,
    BuildErrorView,
>
    decreases items.len(),
{
    if items.len() == 0 {
        Ok(config)
    } else {
        match option_set(config, items[0].path, items[0].value) {
            Ok(changed) => with_assignments(changed, items.drop_first()),
            Err(e) => Err(e),
        }
    }
}

/// Sets the options, one after the other.
pub fn apply_overrides(config: ConfigValue, assignments: Vec<Assignment>) -> (r: Result<
    ConfigValue,
    BuildError,
>)
    ensures
        gives_document(r, with_assignments(config.deep_view(), assignments.deep_view())),
{
    let ghost start = config.deep_view();
    let ghost all = assignments.deep_view();
    let mut current = config;
    let mut left = assignments;
    while left.len() > 0
        invariant
            start == config.deep_view(),
            all == assignments.deep_view(),
            with_assignments(start, all) == with_assignments(current.deep_view(), left.deep_view()),
        decreases left.len(),
    {
        let ghost lv = left.deep_view();
        let ghost first = left@[0];
        let item = left.remove(0);
        assert(item == first);
        assert(lv[0] == first.deep_view());
        assert(left.deep_view() =~= lv.drop_first());
        let ghost before = current.deep_view();
        assert(lv.len() > 0);
        assert(lv[0].path == item.path.deep_view() && lv[0].value == item.value.deep_view());
        current = match set_option(current, &item.path, item.value) {
            Ok(changed) => changed,
            Err(e) => {
                assert(option_set(before, lv[0].path, lv[0].value) is Err);
                assert(with_assignments(before, lv) == Err::<ConfigValueView, BuildErrorView>(
                    e.deep_view(),
                ));
                return Err(e);
            },
        };
    }
    Ok(current)
}

/// A table in which `name` was set holds the value under `name`.
proof fn lemma_entries_with_get(
    entries: Seq<(Seq<char>, ConfigValueView)>,
    name: Seq<char>,
    value: ConfigValueView,
)
    ensures
        entry_named(entries_with(entries, name, value), name) == Some(value),
    decreases entries.len(),
{
    let set = entries_with(entries, name, value);
    if entries.len() == 0 || entries[0].0 == name {
        assert(set[0] == (name, value));
    } else {
        lemma_entries_with_get(entries.drop_first(), name, value);
        assert(set[0] == entries[0]);
        assert(set.drop_first() =~= entries_with(entries.drop_first(), name, value));
    }
}

/// A table in which `name` was set holds under every other name what it held
/// before.
proof fn lemma_entries_with_other(
    entries: Seq<(Seq<char>, ConfigValueView)>,
    name: Seq<char>,
    value: ConfigValueView,
    other: Seq<char>,
)
    requires
        other != name,
    ensures
        entry_named(entries_with(entries, name, value), other) == entry_named(entries, other),
    decreases entries.len(),
{
    let set = entries_with(entries, name, value);
    if entries.len() == 0 {
        assert(set[0] == (name, value));
        assert(set.drop_first() =~= entries);
    } else if entries[0].0 == name {
        assert(set[0] == (name, value));
        assert(set.drop_first() =~= entries.drop_first());
    } else {
        lemma_entries_with_other(entries.drop_first(), name, value, other);
        assert(set[0] == entries[0]);
        assert(set.drop_first() =~= entries_with(entries.drop_first(), name, value));
    }
}

/// An option that was set is found, and holds the value that it was set to.
/// So of two values set one after the other for one option, the last is
/// found.
pub proof fn lemma_set_option_is_found(
    config: ConfigValueView,
    path: Seq<Seq<char>>,
    value: ConfigValueView,
)
    requires
        with_option(config, path, value) is Some,
    ensures
        descend(with_option(config, path, value)->Some_0, path) == Some(value),
    decreases path.len(),
{
    if path.len() > 0 {
        let entries = config->Table_0;
        let inner = match entry_named(entries, path[0]) {
            Some(x) => x,
            None => ConfigValueView::Table(Seq::empty()),
        };
        let changed = with_option(inner, path.drop_first(), value)->Some_0;
        lemma_set_option_is_found(inner, path.drop_first(), value);
        lemma_entries_with_get(entries, path[0], changed);
    }
}

/// Whether two paths part at `k`: they hold the same names before `k` and
/// different names at `k`.
pub open spec fn paths_part(path: Seq<Seq<char>>, other: Seq<Seq<char>>, k: int) -> bool {
    &&& 0 <= k < path.len()
    &&& k < other.len()
    &&& path[k] != other[k]
    &&& forall|j: int| 0 <= j < k ==> path[j] == other[j]
}

/// Setting an option leaves alone what lies at every path that parts from
/// the option's path: what was found there before is found there after, and
/// what was not is not.
pub proof fn lemma_other_options_stay(
    config: ConfigValueView,
    path: Seq<Seq<char>>,
    value: ConfigValueView,
    other: Seq<Seq<char>>,
    k: int,
)
    requires
        with_option(config, path, value) is Some,
        paths_part(path, other, k),
    ensures
        descend(with_option(config, path, value)->Some_0, other) == descend(config, other),
    decreases k,
{
    let entries = config->Table_0;
    let inner = match entry_named(entries, path[0]) {
        Some(x) => x,
        None => ConfigValueView::Table(Seq::empty()),
    };
    let changed = with_option(inner, path.drop_first(), value)->Some_0;
    if k == 0 {
        lemma_entries_with_other(entries, path[0], changed, other[0]);
    } else {
        assert(path[0] == other[0]);
        let rest = path.drop_first();
        let other_rest = other.drop_first();
        assert forall|j: int| 0 <= j < k - 1 implies rest[j] == other_rest[j] by {
            assert(path[j + 1] == other[j + 1]);
        }
        assert(rest[k - 1] == path[k] && other_rest[k - 1] == other[k]);
        lemma_other_options_stay(inner, rest, value, other_rest, k - 1);
        lemma_entries_with_get(entries, path[0], changed);
        if entry_named(entries, path[0]) is None {
            assert(descend(inner, other_rest) is None);
        }
    }
}

/// A value that holds no opening brace holds no reference: it is its own
/// text, whatever the options and the environment are and however many
/// references may be followed.
pub proof fn lemma_plain_text_is_kept(
    config: ConfigValueView,
    defaults: ConfigValueView,
    env: Seq<(Seq<char>, Seq<char>)>,
    text: Seq<char>,
    fuel: nat,
)
    requires
        forall|i: int| 0 <= i < text.len() ==> text[i] != '{',
    ensures
        expanded(config, defaults, env, text, fuel) == Ok::<Seq<char>, BuildErrorView>(text),
{
    lemma_first_index_of(text, '{');
    let at = first_index_of(text, '{');
    if at < text.len() {
        assert(text[at] == '{');
    }
}

/// A value that is nothing but a reference to a variable of the environment
/// is the variable's value, where that holds no opening brace and at least
/// one reference may be followed.
pub proof fn lemma_environment_reference(
    config: ConfigValueView,
    defaults: ConfigValueView,
    env: Seq<(Seq<char>, Seq<char>)>,
    name: Seq<char>,
    fuel: nat,
)
    requires
        fuel >= 1,
        forall|i: int| 0 <= i < name.len() ==> name[i] != '}',
        env_value(env, name) is Some,
        forall|i: int|
            0 <= i < env_value(env, name)->Some_0.len() ==> env_value(env, name)->Some_0[i] != '{',
    ensures
        expanded(config, defaults, env, "{env:"@ + name + "}"@, fuel) == Ok::<
            Seq<char>,
            BuildErrorView,
        >(env_value(env, name)->Some_0),
{
    reveal_strlit("{env:");
    reveal_strlit("env:");
    reveal_strlit("}");
    let text = "{env:"@ + name + "}"@;
    let value = env_value(env, name)->Some_0;
    lemma_first_index_of(text, '{');
    assert(text[0] == '{');
    assert(is_first_index_of(text, '{', 0));
    let rest = text.subrange(1, text.len() as int);
    assert(rest =~= "env:"@ + name + "}"@);
    lemma_first_index_of(rest, '}');
    let close: int = 4 + name.len() as int;
    assert forall|j: int| 0 <= j < close implies rest[j] != '}' by {
        if j >= 4 {
            assert(rest[j] == name[j - 4]);
        }
    }
    assert(rest[close] == '}');
    assert(is_first_index_of(rest, '}', close));
    let inside = rest.subrange(0, close);
    assert(inside.subrange(0, 4) =~= "env:"@);
    assert(inside.subrange(4, inside.len() as int) =~= name);
    assert(rest.subrange(close + 1, rest.len() as int) =~= Seq::<char>::empty());
    assert(text.subrange(0, 0) =~= Seq::<char>::empty());
    assert(Seq::<char>::empty() + value + Seq::<char>::empty() =~= value);
    lemma_plain_text_is_kept(config, defaults, env, value, (fuel - 1) as nat);
}

/// Whether a text holds no opening brace.
pub open spec fn is_plain_text(text: Seq<char>) -> bool {
    forall|i: int| 0 <= i < text.len() ==> text[i] != '{'
}

/// The strings of a list as values.
pub open spec fn as_strings(texts: Seq<Seq<char>>) -> Seq<ConfigValueView> {
    Seq::new(texts.len(), |i: int| ConfigValueView::String(texts[i]))
}

/// A list of strings that hold no opening brace gives those very strings, in
/// order.
pub proof fn lemma_list_of_plain_texts(
    config: ConfigValueView,
    defaults: ConfigValueView,
    env: Seq<(Seq<char>, Seq<char>)>,
    key: Seq<char>,
    texts: Seq<Seq<char>>,
    fuel: nat,
)
    requires
        forall|k: int| 0 <= k < texts.len() ==> is_plain_text(#[trigger] texts[k]),
    ensures
        text_items(config, defaults, env, key, as_strings(texts), fuel) == Ok::<
            Seq<Seq<char>>,
            BuildErrorView,
        >(texts),
    decreases texts.len(),
{
    if texts.len() == 0 {
        assert(texts =~= Seq::<Seq<char>>::empty());
    } else {
        let earlier = texts.drop_last();
        assert forall|k: int| 0 <= k < earlier.len() implies is_plain_text(
            #[trigger] earlier[k],
        ) by {
            assert(earlier[k] == texts[k]);
        }
        lemma_list_of_plain_texts(config, defaults, env, key, earlier, fuel);
        assert(as_strings(texts).drop_last() =~= as_strings(earlier));
        let last = texts.last();
        assert(texts[texts.len() - 1] == last);
        assert(is_plain_text(last));
        lemma_plain_text_is_kept(config, defaults, env, last, fuel);
        assert(earlier.push(last) =~= texts);
    }
}

} // verus!
