//! What any call of the operations of the setup dialogue and of the engines gives, over its
//! arguments and its result.

use crate::arg::{arg_settings, matched_values};
use crate::binlink::{binlink_is_on_path, set_binlink_path};
use crate::engine::{
    chosen_engine, engine_arg, engine_name, engine_named, law_engines_go_by_their_names,
    law_name_names_the_engine, Engine,
};
use crate::path::DirPath;
use crate::prompt::{
    ask_create_origin, ask_default_auth_token, ask_default_builder_instance,
    ask_default_ctl_secret, ask_default_origin, auth_token_prompt, ctl_secret_prompt,
    is_origin_in_cache, judge_url, origin_prompt, prompt_auth_token, prompt_ctl_secret,
    prompt_origin, prompt_url, url_parses, url_prompt, valid_url, write_cli_config_auth_token,
    write_cli_config_bldr_url, write_cli_config_ctl_secret, write_cli_config_origin, CliConfig,
    Environment, LatestPair, Prompting, Say, YesNo,
};
use crate::setup::{
    opening, request, respond, start, write_cli_config, ConfigEntry, Event, Request, Setup,
    StageView,
};
use vstd::prelude::*;

verus! {

/// Each question for yes or no has its own words and default.
pub proof fn law_questions_for_yes_or_no(origin: &str, asked: YesNo)
    ensures
        call_ensures(ask_default_origin, (), asked) ==> asked.question@
            == "Set up a default origin?"@ && asked.default == Some(true),
        call_ensures(ask_default_builder_instance, (), asked) ==> asked.question@
            == "Connect to an on-premises Builder instance?"@ && asked.default == Some(false),
        call_ensures(ask_create_origin, (origin,), asked) ==> asked.question@
            == "Create an origin key for `"@ + origin@ + "'?"@ && asked.default == Some(true),
        call_ensures(ask_default_auth_token, (), asked) ==> asked.question@
            == "Set up a default Builder personal access token?"@ && asked.default == Some(false),
        call_ensures(ask_default_ctl_secret, (), asked) ==> asked.question@
            == "Set up a default Habitat Supervisor control gateway secret?"@ && asked.default
            == Some(false),
{
}

/// Each question for a text goes by its own entry of the configuration and of the environment.
pub proof fn law_questions_for_texts(config: CliConfig, env: Environment, prompting: Prompting)
    ensures
        call_ensures(prompt_origin, (config, env), prompting) ==> prompting@ == origin_prompt(
            config@,
            env@,
        ),
        call_ensures(prompt_url, (config, env), prompting) ==> prompting@ == url_prompt(
            config@,
            env@,
        ),
        call_ensures(prompt_auth_token, (config, env), prompting) ==> prompting@
            == auth_token_prompt(config@, env@),
        call_ensures(prompt_ctl_secret, (config, env), prompting) ==> prompting@
            == ctl_secret_prompt(config@, env@),
{
}

/// Each value is written to its own entry, and the other entries stay.
pub proof fn law_values_are_written_to_their_entries()
    ensures
        forall|config: &mut CliConfig, value: &str, nothing: ()| #[trigger]
            call_ensures(write_cli_config_origin, (config, value), nothing) ==> {
                &&& final(config)@.origin == Some(value@)
                &&& final(config)@.bldr_url == config@.bldr_url
                &&& final(config)@.auth_token == config@.auth_token
                &&& final(config)@.ctl_secret == config@.ctl_secret
            },
        forall|config: &mut CliConfig, value: &str, nothing: ()| #[trigger]
            call_ensures(write_cli_config_bldr_url, (config, value), nothing) ==> {
                &&& final(config)@.origin == config@.origin
                &&& final(config)@.bldr_url == Some(value@)
                &&& final(config)@.auth_token == config@.auth_token
                &&& final(config)@.ctl_secret == config@.ctl_secret
            },
        forall|config: &mut CliConfig, value: &str, nothing: ()| #[trigger]
            call_ensures(write_cli_config_auth_token, (config, value), nothing) ==> {
                &&& final(config)@.origin == config@.origin
                &&& final(config)@.bldr_url == config@.bldr_url
                &&& final(config)@.auth_token == Some(value@)
                &&& final(config)@.ctl_secret == config@.ctl_secret
            },
        forall|config: &mut CliConfig, value: &str, nothing: ()| #[trigger]
            call_ensures(write_cli_config_ctl_secret, (config, value), nothing) ==> {
                &&& final(config)@.origin == config@.origin
                &&& final(config)@.bldr_url == config@.bldr_url
                &&& final(config)@.auth_token == config@.auth_token
                &&& final(config)@.ctl_secret == Some(value@)
            },
        forall|config: &mut CliConfig, entry: ConfigEntry, value: &str, nothing: ()| #[trigger]
            call_ensures(write_cli_config, (config, entry, value), nothing) ==> {
                &&& final(config)@.origin == if entry == ConfigEntry::Origin {
                    Some(value@)
                } else {
                    config@.origin
                }
                &&& final(config)@.bldr_url == if entry == ConfigEntry::BldrUrl {
                    Some(value@)
                } else {
                    config@.bldr_url
                }
                &&& final(config)@.auth_token == if entry == ConfigEntry::AuthToken {
                    Some(value@)
                } else {
                    config@.auth_token
                }
                &&& final(config)@.ctl_secret == if entry == ConfigEntry::CtlSecret {
                    Some(value@)
                } else {
                    config@.ctl_secret
                }
            },
{
}

/// A text is judged to be a URL exactly where it parses as one, and otherwise quoted in a complaint.
pub proof fn law_urls_are_judged_by_parsing(
    val: &str,
    parses: bool,
    judged: Result<(), String>,
)
    ensures
        call_ensures(valid_url, (val,), judged) ==> judged is Ok == url_parses(val@),
        call_ensures(judge_url, (val, parses), judged) ==> judged is Ok == parses,
        call_ensures(valid_url, (val,), judged) || call_ensures(judge_url, (val, parses), judged)
            ==> (judged matches Err(e) ==> e@ == "URL: '"@ + val@ + "' is not valid"@),
{
}

/// Keys are told to be there exactly where the latest pair has a secret key.
pub proof fn law_keys_are_there_with_their_secret(pair: LatestPair, found: bool)
    requires
        call_ensures(is_origin_in_cache, (pair,), found),
    ensures
        found == match pair {
            LatestPair::Missing => false,
            LatestPair::Found { secret } => secret,
        },
{
}

/// A dialogue begins at the question for the builder, with the directory of binlinks that it is
/// given, and with its opening words.
pub proof fn law_dialogue_starts_at_the_builder(
    binlink: Option<String>,
    started: (Setup, Vec<Say>),
)
    requires
        call_ensures(start, (binlink,), started),
    ensures
        started.0@.stage == StageView::BuilderQuestion,
        started.0@.binlink is Some == binlink is Some,
        binlink is Some ==> started.0@.binlink->0 == binlink->0@,
        started.1@.len() == opening().len(),
        forall|i: int| 0 <= i < started.1@.len() ==> (#[trigger] started.1@[i])@ == opening()[i],
{
    assert forall|i: int| 0 <= i < started.1@.len() implies (#[trigger] started.1@[i])@
        == opening()[i] by {
        assert(crate::prompt::said(started.1@)[i] == started.1@[i]@);
    }
}

/// A dialogue tells the request of its stage, keeps its directory of binlinks, and goes on by the
/// response, where a text that is to be a URL is one exactly where it parses.
pub proof fn law_dialogue_steps_by_the_response(setup: Setup, asked: Request)
    ensures
        call_ensures(Setup::request, (&setup,), asked) ==> asked@ == request(setup@.stage),
        forall|setup: &mut Setup, event: Event, list: Vec<Say>| #[trigger]
            call_ensures(Setup::step, (setup, event), list) ==> {
                let parses = event@ is Text && url_parses(event@->Text_0);
                &&& final(setup)@.binlink == setup@.binlink
                &&& final(setup)@.stage == respond(
                    setup@.binlink,
                    setup@.stage,
                    event@,
                    parses,
                ).0
                &&& crate::prompt::said(list@) == respond(
                    setup@.binlink,
                    setup@.stage,
                    event@,
                    parses,
                ).1
            },
        forall|setup: &mut Setup, event: Event, parses: bool, list: Vec<Say>| #[trigger]
            call_ensures(Setup::step_judged, (setup, event, parses), list) ==> {
                &&& final(setup)@.binlink == setup@.binlink
                &&& final(setup)@.stage == respond(
                    setup@.binlink,
                    setup@.stage,
                    event@,
                    parses,
                ).0
                &&& crate::prompt::said(list@) == respond(
                    setup@.binlink,
                    setup@.stage,
                    event@,
                    parses,
                ).1
            },
{
}

/// A text is taken for an engine exactly where it is the name of one that the platform has, letter
/// for letter, and is refused with the same words otherwise; the name that an engine tells is the one
/// that it is taken for.
pub proof fn law_engines_are_told_by_their_names(
    windows: bool,
    s: &str,
    val: String,
    engine: Engine,
    named: Result<Engine, String>,
    checked: Result<(), String>,
    name: String,
)
    ensures
        call_ensures(Engine::from_str, (windows, s), named) ==> {
            &&& (named == Ok::<Engine, String>(Engine::Docker)) == (s@ == seq![
                'd',
                'o',
                'c',
                'k',
                'e',
                'r',
            ])
            &&& (named == Ok::<Engine, String>(Engine::Buildah)) == (!windows && s@ == seq![
                'b',
                'u',
                'i',
                'l',
                'd',
                'a',
                'h',
            ])
            &&& named matches Err(e) ==> e@ == "LOLWUT"@
        },
        call_ensures(Engine::valid_engine, (windows, val), checked) ==> {
            &&& checked is Ok == engine_named(windows, val@) is Some
            &&& checked matches Err(e) ==> e@ == "LOLWUT"@
        },
        call_ensures(Engine::to_string, (&engine,), name) ==> {
            &&& name@ == engine_name(engine)
            &&& engine_named(false, name@) == Some(engine)
        },
{
    law_engines_go_by_their_names(windows, s@);
    law_name_names_the_engine(false, engine);
}

/// Each engine builds with its own subcommand.
pub proof fn law_engines_build_with_their_subcommands(engine: Engine, subcommand: &'static str)
    requires
        call_ensures(Engine::build_subcommand, (engine,), subcommand),
    ensures
        engine == Engine::Docker ==> subcommand@ == "build"@,
        engine == Engine::Buildah ==> subcommand@ == "build-using-dockerfile"@,
{
}

/// The argument that is defined is the engine's, on either platform, and a matched command line
/// gives the engine that the value under the argument's name chooses.
pub proof fn law_engine_is_found_under_the_name_that_is_defined(
    windows: bool,
    arg: clap::Arg<'static, 'static>,
    m: &clap::ArgMatches<'_>,
    found: Option<Engine>,
    engine: Engine,
)
    ensures
        call_ensures(Engine::cli_arg, (windows,), arg) ==> arg_settings(arg) == engine_arg(windows),
        call_ensures(Engine::find_in_cli_matches, (windows, m), found) ==> {
            let values = matched_values(*m);
            let name = engine_arg(windows).name;
            &&& found == chosen_engine(windows, values)
            &&& found is Some ==> values.contains_key(name) && engine_name(found->0)
                == values[name]
            &&& found is None ==> !values.contains_key(name) || engine_named(
                windows,
                values[name],
            ) is None
        },
        call_ensures(Engine::new_from_cli_matches, (windows, m), engine) ==> chosen_engine(
            windows,
            matched_values(*m),
        ) == Some(engine),
{
}

/// The directory of binlinks is told to be on the search path exactly where it is one of the
/// entries of a search path that can be read.
pub proof fn law_binlink_is_looked_for_among_the_entries(
    machine_path: &Option<Vec<DirPath>>,
    binlink: &DirPath,
    found: bool,
)
    requires
        call_ensures(binlink_is_on_path, (machine_path, binlink), found),
    ensures
        found == (machine_path is Some && exists|i: int|
            0 <= i < machine_path->0@.len() && (#[trigger] machine_path->0@[i])@ == binlink@),
{
    if machine_path is Some {
        let entries = machine_path->0@;
        let all = crate::binlink::dirs(entries);
        if found {
            let i = choose|i: int| 0 <= i < all.len() && all[i] == binlink@;
            assert(entries[i]@ == binlink@);
        }
        if exists|i: int| 0 <= i < entries.len() && (#[trigger] entries[i])@ == binlink@ {
            let i = choose|i: int| 0 <= i < entries.len() && (#[trigger] entries[i])@ == binlink@;
            assert(all[i] == binlink@);
        }
    }
}

/// A search path is set exactly where the directory of binlinks is none of the entries of one that
/// can be read, and then is that directory before all the paths that were there.
pub proof fn law_search_path_is_set_where_binlink_is_missing<P>(
    machine_path: &Option<Vec<DirPath>>,
    binlink: &DirPath,
    binlink_path: P,
    paths: Vec<P>,
    new_path: Option<Vec<P>>,
)
    requires
        call_ensures(
            set_binlink_path::<P>,
            (machine_path, binlink, binlink_path, paths),
            new_path,
        ),
    ensures
        new_path is None == (machine_path is Some && exists|i: int|
            0 <= i < machine_path->0@.len() && (#[trigger] machine_path->0@[i])@ == binlink@),
        new_path is Some ==> {
            &&& new_path->0@.len() == paths@.len() + 1
            &&& new_path->0@[0] == binlink_path
            &&& forall|i: int|
                0 <= i < paths@.len() ==> new_path->0@[i + 1] == #[trigger] paths@[i]
        },
{
    if machine_path is Some {
        let entries = machine_path->0@;
        let all = crate::binlink::dirs(entries);
        if new_path is None {
            let i = choose|i: int| 0 <= i < all.len() && all[i] == binlink@;
            assert(entries[i]@ == binlink@);
        }
        if exists|i: int| 0 <= i < entries.len() && (#[trigger] entries[i])@ == binlink@ {
            let i = choose|i: int| 0 <= i < entries.len() && (#[trigger] entries[i])@ == binlink@;
            assert(all[i] == binlink@);
        }
    }
}

} // verus!
