//! The engines that build container images.

use crate::arg::{
    arg_settings, default_value, engine_validator, help, hidden, long, long_help, matched_values,
    multiple, possible_values, required, takes_value, texts, value_name, value_of, with_name,
    ArgView,
};
use crate::text::same_text;
use vstd::prelude::*;

verus! {

/// Things that can build containers!
#[derive(Clone, Copy, Debug, PartialEq, Eq, Structural)]
pub enum Engine {
    Docker,
    Buildah,
}

/// The name under which an engine is chosen, which is also its command.
pub open spec fn engine_name(engine: Engine) -> Seq<char> {
    match engine {
        Engine::Docker => "docker"@,
        Engine::Buildah => "buildah"@,
    }
}

/// The engine of that name. On Windows there is but one engine.
pub open spec fn engine_named(windows: bool, name: Seq<char>) -> Option<Engine> {
    if name == engine_name(Engine::Docker) {
        Some(Engine::Docker)
    } else if !windows && name == engine_name(Engine::Buildah) {
        Some(Engine::Buildah)
    } else {
        None
    }
}

/// The name of the command line argument that chooses the engine.
pub const ENGINE_ARG: &'static str = "ENGINE";

/// The long help on the choice of an engine.
pub const ENGINE_LONG_HELP: &'static str =
"Using the `docker` engine allows you to use Docker to create
your container images. You must ensure that a Docker daemon
is running on the host where this command is executed, and
that the user executing the command has permission to access
the Docker socket.

Using the `buildah` engine allows you to create container images
as an unprivileged user, and without having to use a Docker
daemon. This is the recommended engine for use in CI systems and
other environments where security is of particular concern.
Please see https://buildah.io for more details.

Both engines create equivalent OCI-compliant container images.
";

/// The names that the argument offers.
pub open spec fn offered_names(windows: bool) -> Seq<Seq<char>> {
    if windows {
        seq!["docker"@]
    } else {
        seq!["docker"@, "buildah"@]
    }
}

/// The argument that chooses the engine. On Windows, where there is effectively no choice, it is
/// hidden and not documented any further.
pub open spec fn engine_arg(windows: bool) -> ArgView {
    ArgView {
        name: "ENGINE"@,
        value_names: seq!["ENGINE"@],
        long: Some("engine"@),
        required: true,
        takes_value: true,
        multiple: false,
        hidden: windows,
        default_value: Some("docker"@),
        help: Some("The name of the container creation engine to use."@),
        long_help: if windows {
            None
        } else {
            Some(ENGINE_LONG_HELP@)
        },
        possible_values: Some(offered_names(windows)),
        engine_checked: Some(windows),
    }
}

/// The engine that the values of a matched command line choose, if there is one of the engine's
/// argument and it names an engine.
pub open spec fn chosen_engine(windows: bool, values: Map<Seq<char>, Seq<char>>) -> Option<Engine> {
    if values.contains_key(ENGINE_ARG@) {
        engine_named(windows, values[ENGINE_ARG@])
    } else {
        None
    }
}

impl Engine {
    /// The name of the engine.
    pub fn to_string(&self) -> (name: String)
        ensures
            name@ == engine_name(*self),
    {
        match self {
            Engine::Docker => "docker".to_owned(),
            Engine::Buildah => "buildah".to_owned(),
        }
    }

    /// The engine of that name, on Windows or elsewhere.
    pub fn from_str(windows: bool, s: &str) -> (engine: Result<Engine, String>)
        ensures
            engine matches Ok(e) ==> engine_named(windows, s@) == Some(e),
            engine matches Err(e) ==> engine_named(windows, s@) is None && e@ == "LOLWUT"@,
    {
        if same_text(s, "docker") {
            Ok(Engine::Docker)
        } else if !windows && same_text(s, "buildah") {
            Ok(Engine::Buildah)
        } else {
            Err("LOLWUT".to_owned())
        }
    }

    /// Return the engine-specific subcommand for building a container
    /// image.
    pub fn build_subcommand(self) -> (subcommand: &'static str)
        ensures
            subcommand@ == (match self {
                Engine::Docker => "build"@,
                Engine::Buildah => "build-using-dockerfile"@,
            }),
    {
        match self {
            Engine::Docker => "build",
            Engine::Buildah => "build-using-dockerfile",
        }
    }

    /// Define the CLAP CLI argument for specifying a container build
    /// engine to use.
    pub fn cli_arg(windows: bool) -> (arg: clap::Arg<'static, 'static>)
        ensures
            arg_settings(arg) == engine_arg(windows),
    {
        proof {
            reveal_strlit("engine");
        }
        let arg = with_name(ENGINE_ARG);
        let arg = value_name(arg, "ENGINE");
        let arg = long(arg, "engine");
        let arg = required(arg, true);
        let arg = takes_value(arg, true);
        let arg = multiple(arg, false);
        let arg = default_value(arg, "docker");
        let arg = engine_validator(arg, windows);
        let arg = help(arg, "The name of the container creation engine to use.");
        assert(arg_settings(arg).value_names =~= seq!["ENGINE"@]);
        let mut names: Vec<&'static str> = Vec::new();
        names.push("docker");
        if windows {
            assert(texts(names@) =~= offered_names(windows));
            let arg = possible_values(arg, names.as_slice());
            hidden(arg, true)
        } else {
            let arg = long_help(arg, ENGINE_LONG_HELP);
            names.push("buildah");
            assert(texts(names@) =~= offered_names(windows));
            possible_values(arg, names.as_slice())
        }
    }

    /// Whether a value given for the argument names an engine.
    pub fn valid_engine(windows: bool, val: String) -> (checked: Result<(), String>)
        ensures
            checked is Ok == engine_named(windows, val@) is Some,
            checked matches Err(e) ==> e@ == "LOLWUT"@,
    {
        match Engine::from_str(windows, val.as_str()) {
            Ok(_) => Ok(()),
            Err(e) => Err(e),
        }
    }

    /// The engine that a matched command line chooses, if its argument has a value and the value
    /// names an engine.
    pub fn find_in_cli_matches(windows: bool, m: &clap::ArgMatches<'_>) -> (engine: Option<Engine>)
        ensures
            engine == (if matched_values(*m).contains_key("ENGINE"@) {
                engine_named(windows, matched_values(*m)["ENGINE"@])
            } else {
                None
            }),
            engine == chosen_engine(windows, matched_values(*m)),
    {
        match value_of(m, ENGINE_ARG) {
            Some(value) => match Engine::from_str(windows, value.as_str()) {
                Ok(engine) => Some(engine),
                Err(_) => None,
            },
            None => None,
        }
    }

    /// Constructs a valid `Engine` from CLI arguments.
    pub fn new_from_cli_matches(windows: bool, m: &clap::ArgMatches<'_>) -> (engine: Engine)
        requires
            matched_values(*m).contains_key("ENGINE"@),
            engine_named(windows, matched_values(*m)["ENGINE"@]) is Some,
        ensures
            Some(engine) == engine_named(windows, matched_values(*m)["ENGINE"@]),
            Some(engine) == chosen_engine(windows, matched_values(*m)),
    {
        Engine::find_in_cli_matches(windows, m).unwrap()
    }
}

/// An engine's name names that engine and no other, but that Windows has no Buildah.
pub proof fn law_name_names_the_engine(windows: bool, engine: Engine)
    ensures
        engine_named(windows, engine_name(engine)) == (if windows && engine == Engine::Buildah {
            None
        } else {
            Some(engine)
        }),
{
    reveal_strlit("docker");
    reveal_strlit("buildah");
    assert("docker"@.len() != "buildah"@.len());
}

/// What names an engine is that engine's own name.
pub proof fn law_named_engine_has_the_name(windows: bool, name: Seq<char>)
    ensures
        engine_named(windows, name) matches Some(engine) ==> engine_name(engine) == name,
{
}

/// The argument offers exactly the names that name an engine and so pass the check of its values,
/// and the default is among them.
pub proof fn law_offered_names_are_engines(windows: bool, name: Seq<char>)
    ensures
        offered_names(windows).contains(name) == engine_named(windows, name) is Some,
        engine_arg(windows).possible_values == Some(offered_names(windows)),
        engine_arg(windows).engine_checked == Some(windows),
        engine_arg(windows).default_value matches Some(default) && offered_names(windows).contains(
            default,
        ),
{
    let offered = offered_names(windows);
    assert(offered[0] == "docker"@);
    if !windows {
        assert(offered[1] == "buildah"@);
    }
}

/// The engines go by their names, letter for letter, and Buildah only away from Windows.
pub proof fn law_engines_go_by_their_names(windows: bool, name: Seq<char>)
    ensures
        (engine_named(windows, name) == Some(Engine::Docker)) == (name == seq![
            'd',
            'o',
            'c',
            'k',
            'e',
            'r',
        ]),
        (engine_named(windows, name) == Some(Engine::Buildah)) == (!windows && name == seq![
            'b',
            'u',
            'i',
            'l',
            'd',
            'a',
            'h',
        ]),
{
    reveal_strlit("docker");
    reveal_strlit("buildah");
    assert("docker"@ =~= seq!['d', 'o', 'c', 'k', 'e', 'r']);
    assert("buildah"@ =~= seq!['b', 'u', 'i', 'l', 'd', 'a', 'h']);
    assert("docker"@.len() != "buildah"@.len());
}

/// On every platform the argument is a required `--engine` that takes one value under the very name
/// by which the engine is looked up, is checked by the platform's own engines, and is hidden and
/// without long help on Windows alone.
pub proof fn law_argument_is_defined_under_the_name_that_is_looked_up(windows: bool)
    ensures
        engine_arg(windows).name == ENGINE_ARG@,
        ENGINE_ARG@ == seq!['E', 'N', 'G', 'I', 'N', 'E'],
        engine_arg(windows).value_names == seq![ENGINE_ARG@],
        engine_arg(windows).long == Some(seq!['e', 'n', 'g', 'i', 'n', 'e']),
        engine_arg(windows).required,
        engine_arg(windows).takes_value,
        !engine_arg(windows).multiple,
        engine_arg(windows).engine_checked == Some(windows),
        engine_arg(windows).hidden == windows,
        engine_arg(windows).help == Some("The name of the container creation engine to use."@),
        engine_arg(windows).long_help is None == windows,
        !windows ==> engine_arg(windows).long_help->0 == ENGINE_LONG_HELP@,
{
    reveal_strlit("ENGINE");
    reveal_strlit("engine");
    assert("ENGINE"@ =~= seq!['E', 'N', 'G', 'I', 'N', 'E']);
    assert("engine"@ =~= seq!['e', 'n', 'g', 'i', 'n', 'e']);
}

/// A command line that is matched with the argument gives an engine: where the argument has a value
/// that it takes, given or by default, that is the engine of this name; and where it has none, no
/// value of another argument counts.
pub proof fn law_matched_argument_gives_its_engine(
    windows: bool,
    values: Map<Seq<char>, Seq<char>>,
)
    ensures
        ({
            let arg = engine_arg(windows);
            &&& values.contains_key(arg.name) && arg.possible_values->0.contains(values[arg.name])
                ==> {
                &&& chosen_engine(windows, values) is Some
                &&& engine_name(chosen_engine(windows, values)->0) == values[arg.name]
            }
            &&& values.contains_key(arg.name) && !arg.possible_values->0.contains(
                values[arg.name],
            ) ==> chosen_engine(windows, values) is None
            &&& !values.contains_key(arg.name) ==> chosen_engine(windows, values) is None
            &&& arg.default_value is Some
            &&& arg.possible_values is Some
            &&& values.contains_key(arg.name) && Some(values[arg.name]) == arg.default_value
                ==> chosen_engine(windows, values) == Some(Engine::Docker)
        }),
{
    let arg = engine_arg(windows);
    if values.contains_key(arg.name) {
        law_offered_names_are_engines(windows, values[arg.name]);
        law_named_engine_has_the_name(windows, values[arg.name]);
    }
    law_offered_names_are_engines(windows, "docker"@);
    law_name_names_the_engine(windows, Engine::Docker);
}

/// The words of the long help.
pub proof fn law_words_of_the_long_help()
    ensures
        ENGINE_LONG_HELP@ == "Using the `docker` engine allows you to use Docker to create
your container images. You must ensure that a Docker daemon
is running on the host where this command is executed, and
that the user executing the command has permission to access
the Docker socket.

Using the `buildah` engine allows you to create container images
as an unprivileged user, and without having to use a Docker
daemon. This is the recommended engine for use in CI systems and
other environments where security is of particular concern.
Please see https://buildah.io for more details.

Both engines create equivalent OCI-compliant container images.
"@,
{
}

} // verus!
