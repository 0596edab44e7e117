//! Writes the configuration out as variables for make.

use crate::error::{BuildError, BuildErrorView};
use crate::options::{
    flag_in, gives_text, leaf_keys, list_in, lookup, opt_default, option_keys, text_in, Config,
    ConfigView, ConfigValue, ConfigValueView,
};
use crate::plan::{Step, StepView};
use crate::text::{join_with, joined};
use vstd::prelude::*;
use vstd::utf8::encode_utf8;

verus! {

/// A string in upper case, as `str::to_uppercase` of std gives it.
pub uninterp spec fn uppercased(s: Seq<char>) -> Seq<char>;

/// `str::to_uppercase` of std: the string in upper case.
#[verifier::external_body]
fn to_upper(s: &str) -> (r: String)
    ensures
        r@ == uppercased(s@),
{
    s.to_uppercase()
}

/// A character as it stands in a variable's name: an underscore for a hyphen
/// or a dot, any other character itself.
pub open spec fn variable_char(c: char) -> char {
    if c == '-' || c == '.' {
        '_'
    } else {
        c
    }
}

/// A string with an underscore for every hyphen and every dot.
pub open spec fn underscored(s: Seq<char>) -> Seq<char> {
    Seq::new(s.len(), |i: int| variable_char(s[i]))
}

/// The variable that stands for the option `key`: the key in upper case,
/// with underscores for hyphens and dots.
pub open spec fn variable_name(key: Seq<char>) -> Seq<char> {
    underscored(uppercased(key))
}

/// The line that sets a variable: the name, `=`, and the value in quotes.
pub open spec fn variable_line(name: Seq<char>, content: Seq<char>) -> Seq<char> {
    name + "=\""@ + content + "\"\n"@
}

/// The lines for the options, each a key and its value, in order.
pub open spec fn variable_lines(options: Seq<(Seq<char>, Seq<char>)>) -> Seq<char>
    decreases options.len(),
{
    if options.len() == 0 {
        Seq::empty()
    } else {
        variable_lines(options.drop_last()) + variable_line(
            variable_name(options.last().0),
            options.last().1,
        )
    }
}

/// Puts an underscore for every hyphen and every dot.
pub fn underscore(s: &str) -> (r: String)
    ensures
        r@ == underscored(s@),
{
    let n = s.unicode_len();
    let mut r = String::new();
    let mut i: usize = 0;
    proof {
        reveal_strlit("_");
    }
    assert(r@ =~= underscored(s@).take(0));
    while i < n
        invariant
            n == s@.len(),
            i <= n,
            r@ == underscored(s@).take(i as int),
            "_"@.len() == 1,
            "_"@[0] == '_',
        decreases n - i,
    {
        let c = s.get_char(i);
        let ghost before = r@;
        if c == '-' || c == '.' {
            r.append("_");
        } else {
            r.append(s.substring_char(i, i + 1));
        }
        assert(r@ =~= before.push(variable_char(s@[i as int])));
        assert(underscored(s@).take(i + 1) =~= before.push(variable_char(s@[i as int])));
        i += 1;
    }
    assert(underscored(s@).take(n as int) =~= underscored(s@));
    r
}

/// The name of the variable that stands for the option `key`.
pub fn mk_variable(key: &str) -> (r: String)
    ensures
        r@ == variable_name(key@),
{
    underscore(to_upper(key).as_str())
}

/// The text that sets one variable per option.
pub fn generate(options: &Vec<(String, String)>) -> (text: String)
    ensures
        text@ == variable_lines(options.deep_view()),
{
    let ghost ov = options.deep_view();
    let mut text = String::new();
    let n = options.len();
    let mut i: usize = 0;
    assert(ov.take(0) =~= Seq::empty());
    while i < n
        invariant
            n == options.len(),
            i <= n,
            ov == options.deep_view(),
            text@ == variable_lines(ov.take(i as int)),
        decreases n - i,
    {
        let ghost before = text@;
        let option = &options[i];
        assert(option.deep_view() == ov[i as int]);
        proof {
            assert(ov.take(i + 1).drop_last() =~= ov.take(i as int));
            assert(ov.take(i + 1).last() == ov[i as int]);
        }
        let name = mk_variable(option.0.as_str());
        text.append(name.as_str());
        text.append("=\"");
        text.append(option.1.as_str());
        text.append("\"\n");
        assert(text@ =~= before + variable_line(variable_name(ov[i as int].0), ov[i as int].1));
        i += 1;
    }
    assert(ov.take(n as int) =~= ov);
    text
}

/// The step that writes the variables of the options to `output`.
pub open spec fn write_step(output: Seq<char>, options: Seq<(Seq<char>, Seq<char>)>) -> StepView {
    StepView::WriteFile { path: output, contents: encode_utf8(variable_lines(options)) }
}

/// Plans the one file at `output` that sets a variable for every option,
/// each given by its key and its value as text, in order.
pub fn write_config(output: &str, options: &Vec<(String, String)>) -> (steps: Vec<Step>)
    ensures
        steps.deep_view() == seq![write_step(output@, options.deep_view())],
{
    let text = generate(options);
    let mut steps: Vec<Step> = Vec::new();
    steps.push(Step::WriteFile { path: output.to_owned(), contents: text.as_str().as_bytes_vec() });
    assert(steps.deep_view() =~= seq![write_step(output@, options.deep_view())]);
    steps
}

/// A truth value as text.
pub open spec fn bool_text(b: bool) -> Seq<char> {
    if b {
        "true"@
    } else {
        "false"@
    }
}

/// The value of an option as it is written into a variable. The default of
/// the option says how it is read: a string as text, a truth value as `true`
/// or `false`, a list with spaces between its items. An option whose default
/// is of another kind cannot be written.
pub open spec fn content_of(c: ConfigView, key: Seq<char>) -> Result<Seq<char>, BuildErrorView> {
    match lookup(c.defaults, key) {
        None => Err(BuildErrorView::MissingOption { key }),
        Some(ConfigValueView::String(_)) => text_in(c, key),
        Some(ConfigValueView::Boolean(_)) => match flag_in(c, key) {
            Ok(b) => Ok(bool_text(b)),
            Err(e) => Err(e),
        },
        Some(ConfigValueView::Array(_)) => match list_in(c, key) {
            Ok(items) => Ok(joined(items, " "@)),
            Err(e) => Err(e),
        },
        Some(_) => Err(BuildErrorView::InvalidPropertyType { key }),
    }
}

/// The options by key and content, for the keys given. The first option
/// that cannot be written fails them all.
pub open spec fn contents_of(c: ConfigView, keys: Seq<Seq<char>>) -> Result<
    Seq<(Seq<char>, Seq<char>)>,
    BuildErrorView,
>
    decreases keys.len(),
{
    if keys.len() == 0 {
        Ok(Seq::empty())
    } else {
        match contents_of(c, keys.drop_last()) {
            Err(e) => Err(e),
            Ok(earlier) => match content_of(c, keys.last()) {
                Ok(content) => Ok(earlier.push((keys.last(), content))),
                Err(e) => Err(e),
            },
        }
    }
}

/// What the stage plans: the file named by the option `gen-mk-config.output`,
/// with a variable for every option that has a default.
pub open spec fn planned(c: ConfigView) -> Result<Seq<StepView>, BuildErrorView> {
    match text_in(c, "gen-mk-config.output"@) {
        Err(e) => Err(e),
        Ok(output) => match contents_of(c, leaf_keys(c.defaults, Seq::empty())) {
            Err(e) => Err(e),
            Ok(options) => Ok(seq![write_step(output, options)]),
        },
    }
}

/// The value of an option as it is written into a variable.
pub fn option_content(config: &Config, key: &str) -> (r: Result<String, BuildError>)
    ensures
        gives_text(r, content_of(config.deep_view(), key@)),
{
    let default = match opt_default(&config.defaults, key) {
        Ok(default) => default,
        Err(e) => {
            return Err(e);
        },
    };
    match default {
        ConfigValue::String(_) => config.str(key),
        ConfigValue::Boolean(_) => match config.bool(key) {
            Ok(b) => Ok(
                if b {
                    "true".to_owned()
                } else {
                    "false".to_owned()
                },
            ),
            Err(e) => Err(e),
        },
        ConfigValue::Array(_) => match config.vec(key) {
            Ok(items) => Ok(join_with(&items, " ")),
            Err(e) => Err(e),
        },
        _ => Err(BuildError::InvalidPropertyType { key: key.to_owned() }),
    }
}

/// A list of options whose beginning cannot be written cannot be written, for
/// the same reason.
proof fn lemma_contents_fail(c: ConfigView, keys: Seq<Seq<char>>, n: int)
    requires
        0 <= n <= keys.len(),
        contents_of(c, keys.take(n)) is Err,
    ensures
        contents_of(c, keys) == contents_of(c, keys.take(n)),
    decreases keys.len() - n,
{
    if n < keys.len() {
        assert(keys.take(n + 1).drop_last() =~= keys.take(n));
        lemma_contents_fail(c, keys, n + 1);
    } else {
        assert(keys.take(n) =~= keys);
    }
}

/// Whether a result is the plan that the options call for.
pub open spec fn gives_steps(
    r: Result<Vec<Step>, BuildError>,
    wanted: Result<Seq<StepView>, BuildErrorView>,
) -> bool {
    match r {
        Ok(steps) => wanted == Ok::<Seq<StepView>, BuildErrorView>(steps.deep_view()),
        Err(e) => wanted == Err::<Seq<StepView>, BuildErrorView>(e.deep_view()),
    }
}

/// Plans the stage: the file named by the option `gen-mk-config.output`, with
/// a variable for every option that has a default, in the order of the
/// defaults.
pub fn process(config: &Config) -> (r: Result<Vec<Step>, BuildError>)
    ensures
        gives_steps(r, planned(config.deep_view())),
{
    let ghost c = config.deep_view();
    let output = match config.str("gen-mk-config.output") {
        Ok(output) => output,
        Err(e) => {
            return Err(e);
        },
    };
    let keys = option_keys(&config.defaults);
    let ghost kv = keys.deep_view();
    let mut options: Vec<(String, String)> = Vec::new();
    let n = keys.len();
    let mut i: usize = 0;
    assert(kv.take(0) =~= Seq::empty());
    assert(options.deep_view() =~= Seq::empty());
    while i < n
        invariant
            n == keys.len(),
            i <= n,
            kv == keys.deep_view(),
            kv == leaf_keys(c.defaults, Seq::empty()),
            c == config.deep_view(),
            text_in(c, "gen-mk-config.output"@) == Ok::<Seq<char>, BuildErrorView>(output@),
            contents_of(c, kv.take(i as int)) == Ok::<Seq<(Seq<char>, Seq<char>)>, BuildErrorView>(
                options.deep_view(),
            ),
        decreases n - i,
    {
        let ghost before = options.deep_view();
        proof {
            assert(kv.take(i + 1).drop_last() =~= kv.take(i as int));
            assert(kv.take(i + 1).last() == kv[i as int]);
        }
        match option_content(config, keys[i].as_str()) {
            Ok(content) => {
                let ghost content_view = content@;
                options.push((keys[i].clone(), content));
                assert(options.deep_view() =~= before.push((kv[i as int], content_view)));
            },
            Err(e) => {
                proof {
                    assert(contents_of(c, kv.take(i + 1)) == Err::<
                        Seq<(Seq<char>, Seq<char>)>,
                        BuildErrorView,
                    >(e.deep_view()));
                    lemma_contents_fail(c, kv, i + 1);
                }
                return Err(e);
            },
        }
        i += 1;
    }
    assert(kv.take(n as int) =~= kv);
    Ok(write_config(output.as_str(), &options))
}

} // verus!
