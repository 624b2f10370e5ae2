//! Command line arguments, as `clap` builds and matches them.

use crate::engine::Engine;
use vstd::prelude::*;

verus! {

/// An argument, as `clap` builds it.
#[verifier::external_type_specification]
#[verifier::external_body]
pub struct ExArg<'a, 'b>(clap::Arg<'a, 'b>) where 'a: 'b;

/// What an argument is like.
pub ghost struct ArgView {
    pub name: Seq<char>,
    /// The names under which the help shows its values.
    pub value_names: Seq<Seq<char>>,
    /// The flag that introduces it, without the leading hyphens.
    pub long: Option<Seq<char>>,
    pub required: bool,
    pub takes_value: bool,
    pub multiple: bool,
    pub hidden: bool,
    pub default_value: Option<Seq<char>>,
    pub help: Option<Seq<char>>,
    pub long_help: Option<Seq<char>>,
    /// The only values that it takes, where it does not take all.
    pub possible_values: Option<Seq<Seq<char>>>,
    /// Its values must pass [`Engine::valid_engine`], as it judges on Windows or elsewhere.
    pub engine_checked: Option<bool>,
}

/// An argument of which nothing but its name is said.
pub open spec fn bare_arg(name: Seq<char>) -> ArgView {
    ArgView {
        name,
        value_names: seq![],
        long: None,
        required: false,
        takes_value: false,
        multiple: false,
        hidden: false,
        default_value: None,
        help: None,
        long_help: None,
        possible_values: None,
        engine_checked: None,
    }
}

/// The texts of a list.
pub open spec fn texts(list: Seq<&'static str>) -> Seq<Seq<char>> {
    list.map_values(|t: &'static str| t@)
}

/// What an argument of `clap` is like.
pub uninterp spec fn arg_settings(arg: clap::Arg<'static, 'static>) -> ArgView;

/// `clap::Arg::with_name`: an argument with nothing but a name.
#[verifier::external_body]
pub(crate) fn with_name(n: &'static str) -> (arg: clap::Arg<'static, 'static>)
    ensures
        arg_settings(arg) == bare_arg(n@),
{
    clap::Arg::with_name(n)
}

/// `clap::Arg::value_name`: adds a name for a value, and lets the argument take values.
#[verifier::external_body]
pub(crate) fn value_name(arg: clap::Arg<'static, 'static>, name: &'static str) -> (with:
    clap::Arg<'static, 'static>)
    ensures
        arg_settings(with) == (ArgView {
            value_names: arg_settings(arg).value_names.push(name@),
            takes_value: true,
            ..arg_settings(arg)
        }),
{
    arg.value_name(name)
}

/// `clap::Arg::long`: sets the flag. A flag given with leading hyphens, which `clap` takes off,
/// is left out.
#[verifier::external_body]
pub(crate) fn long(arg: clap::Arg<'static, 'static>, l: &'static str) -> (with: clap::Arg<
    'static,
    'static,
>)
    requires
        l@.len() > 0,
        l@[0] != '-',
    ensures
        arg_settings(with) == (ArgView { long: Some(l@), ..arg_settings(arg) }),
{
    arg.long(l)
}

/// `clap::Arg::required`: sets whether the argument must be given.
#[verifier::external_body]
pub(crate) fn required(arg: clap::Arg<'static, 'static>, r: bool) -> (with: clap::Arg<
    'static,
    'static,
>)
    ensures
        arg_settings(with) == (ArgView { required: r, ..arg_settings(arg) }),
{
    arg.required(r)
}

/// `clap::Arg::takes_value`: sets whether the argument takes values.
#[verifier::external_body]
pub(crate) fn takes_value(arg: clap::Arg<'static, 'static>, tv: bool) -> (with: clap::Arg<
    'static,
    'static,
>)
    ensures
        arg_settings(with) == (ArgView { takes_value: tv, ..arg_settings(arg) }),
{
    arg.takes_value(tv)
}

/// `clap::Arg::multiple`: sets whether the argument can be given more than once.
#[verifier::external_body]
pub(crate) fn multiple(arg: clap::Arg<'static, 'static>, multi: bool) -> (with: clap::Arg<
    'static,
    'static,
>)
    ensures
        arg_settings(with) == (ArgView { multiple: multi, ..arg_settings(arg) }),
{
    arg.multiple(multi)
}

/// `clap::Arg::default_value`: sets the value that stands in where none is given, and lets the
/// argument take values.
#[verifier::external_body]
pub(crate) fn default_value(arg: clap::Arg<'static, 'static>, val: &'static str) -> (with:
    clap::Arg<'static, 'static>)
    ensures
        arg_settings(with) == (ArgView {
            default_value: Some(val@),
            takes_value: true,
            ..arg_settings(arg)
        }),
{
    arg.default_value(val)
}

/// `clap::Arg::validator`, with [`Engine::valid_engine`], as it judges on Windows or elsewhere, as
/// the function that values must pass.
#[verifier::external_body]
pub(crate) fn engine_validator(arg: clap::Arg<'static, 'static>, windows: bool) -> (with:
    clap::Arg<'static, 'static>)
    ensures
        arg_settings(with) == (ArgView { engine_checked: Some(windows), ..arg_settings(arg) }),
{
    arg.validator(move |val| Engine::valid_engine(windows, val))
}

/// `clap::Arg::help`: sets the help.
#[verifier::external_body]
pub(crate) fn help(arg: clap::Arg<'static, 'static>, h: &'static str) -> (with: clap::Arg<
    'static,
    'static,
>)
    ensures
        arg_settings(with) == (ArgView { help: Some(h@), ..arg_settings(arg) }),
{
    arg.help(h)
}

/// `clap::Arg::long_help`: sets the long help.
#[verifier::external_body]
pub(crate) fn long_help(arg: clap::Arg<'static, 'static>, h: &'static str) -> (with: clap::Arg<
    'static,
    'static,
>)
    ensures
        arg_settings(with) == (ArgView { long_help: Some(h@), ..arg_settings(arg) }),
{
    arg.long_help(h)
}

/// `clap::Arg::possible_values`: adds to the values that the argument takes.
#[verifier::external_body]
pub(crate) fn possible_values(arg: clap::Arg<'static, 'static>, names: &[&'static str]) -> (with:
    clap::Arg<'static, 'static>)
    ensures
        arg_settings(with) == (ArgView {
            possible_values: Some(
                match arg_settings(arg).possible_values {
                    Some(values) => values + texts(names@),
                    None => texts(names@),
                },
            ),
            ..arg_settings(arg)
        }),
{
    arg.possible_values(names)
}

/// `clap::Arg::hidden`: sets whether the help leaves the argument out.
#[verifier::external_body]
pub(crate) fn hidden(arg: clap::Arg<'static, 'static>, h: bool) -> (with: clap::Arg<
    'static,
    'static,
>)
    ensures
        arg_settings(with) == (ArgView { hidden: h, ..arg_settings(arg) }),
{
    arg.hidden(h)
}

/// A matched command line, as `clap` hands it out.
#[verifier::external_type_specification]
#[verifier::external_body]
pub struct ExArgMatches<'a>(clap::ArgMatches<'a>);

/// The first value of each argument that has one, by the argument's name. Where a value is not
/// valid Unicode, replacement characters stand for what is not.
pub uninterp spec fn matched_values(matches: clap::ArgMatches<'_>) -> Map<Seq<char>, Seq<char>>;

/// `clap::ArgMatches::value_of_lossy`: the first value of the argument of that name, if the
/// command line or a default gave it any.
#[verifier::external_body]
pub(crate) fn value_of(matches: &clap::ArgMatches<'_>, name: &str) -> (value: Option<String>)
    ensures
        value is Some == matched_values(*matches).contains_key(name@),
        value is Some ==> value->0@ == matched_values(*matches)[name@],
{
    matches.value_of_lossy(name).map(|value| value.into_owned())
}

} // verus!
