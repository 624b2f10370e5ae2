//! Laws of the questions of the setup dialogue, over the configuration and the environment.

use crate::prompt::{
    auth_token_prompt, ctl_secret_prompt, origin_prompt, said, url_complaint, url_prompt, CliConfig,
    ConfigView, Environment, EnvironmentView, Prompt, Prompting, Say, SayView, YesNo,
};
use crate::setup::{written, ConfigEntry};
use vstd::prelude::*;

verus! {

/// What is shown says what it holds.
pub proof fn law_shown_says_what_it_holds(s: Say)
    ensures
        s is Br ==> s@ == SayView::Br,
        s matches Say::Title(text) ==> s@ == SayView::Title(text@),
        s matches Say::Heading(text) ==> s@ == SayView::Heading(text@),
        s matches Say::Para(text) ==> s@ == SayView::Para(text@),
        s matches Say::Fatal(text) ==> s@ == SayView::Fatal(text@),
        s matches Say::InvalidOrigin(origin) ==> s@ == SayView::InvalidOrigin(origin@),
{
}

/// A list of things to show says each of them, in their order.
pub proof fn law_list_says_each_thing(list: Seq<Say>)
    ensures
        said(list).len() == list.len(),
        forall|i: int| 0 <= i < list.len() ==> #[trigger] said(list)[i] == list[i]@,
{
}

/// A question says its words and its default, and what is shown before it.
pub proof fn law_question_says_words_and_default(yes_no: YesNo, prompt: Prompt, prompting: Prompting)
    ensures
        yes_no@.question == yes_no.question@,
        yes_no@.default == yes_no.default,
        prompt@.question == prompt.question@,
        prompt@.default is Some == prompt.default is Some,
        prompt.default is Some ==> prompt@.default->0 == prompt.default->0@,
        prompting@.0 == said(prompting.says@),
        prompting@.1 == prompting.prompt@,
{
}

/// The configuration says each entry under its own name.
pub proof fn law_configuration_says_each_entry(config: CliConfig)
    ensures
        config@.auth_token is Some == config.auth_token is Some,
        config.auth_token is Some ==> config@.auth_token->0 == config.auth_token->0@,
        config@.origin is Some == config.origin is Some,
        config.origin is Some ==> config@.origin->0 == config.origin->0@,
        config@.ctl_secret is Some == config.ctl_secret is Some,
        config.ctl_secret is Some ==> config@.ctl_secret->0 == config.ctl_secret->0@,
        config@.bldr_url is Some == config.bldr_url is Some,
        config.bldr_url is Some ==> config@.bldr_url->0 == config.bldr_url->0@,
{
}

/// The environment says each variable under its own name.
pub proof fn law_environment_says_each_variable(env: Environment)
    ensures
        env@.auth_token is Some == env.auth_token is Some,
        env.auth_token is Some ==> env@.auth_token->0 == env.auth_token->0@,
        env@.origin is Some == env.origin is Some,
        env.origin is Some ==> env@.origin->0 == env.origin->0@,
        env@.user is Some == env.user is Some,
        env.user is Some ==> env@.user->0 == env.user->0@,
        env@.ctl_secret is Some == env.ctl_secret is Some,
        env.ctl_secret is Some ==> env@.ctl_secret->0 == env.ctl_secret->0@,
        env@.bldr_url is Some == env.bldr_url is Some,
        env.bldr_url is Some ==> env@.bldr_url->0 == env.bldr_url->0@,
{
}

/// The question for the origin: an origin that is configured is its default and is remarked upon by
/// name; otherwise the default is the origin of the environment, and without one the user.
pub proof fn law_origin_prompt_goes_by_what_is_configured(config: ConfigView, env: EnvironmentView)
    ensures
        origin_prompt(config, env).1.question == "Default origin name"@,
        config.origin matches Some(value) ==> {
            &&& origin_prompt(config, env).0 == seq![SayView::Para("You already have a default origin set up as `"@ + value
                        + "', but feel free to change it if you wish."@,
                )]
            &&& origin_prompt(config, env).1.default == Some(value)
        },
        config.origin is None ==> {
            &&& origin_prompt(config, env).0.len() == 0
            &&& origin_prompt(config, env).1.default == (if env.origin is Some {
                env.origin
            } else {
                env.user
            })
        },
{
}

/// The question for the builder, with what is configured or else the environment as its default.
pub proof fn law_url_prompt_goes_by_what_is_configured(config: ConfigView, env: EnvironmentView)
    ensures
        url_prompt(config, env).1.question == "Private builder url"@,
        config.bldr_url matches Some(value) ==> {
            &&& url_prompt(config, env).0 == seq![SayView::Para("You already have a default builder url set up, but feel free to change it if you wish."@,
                )]
            &&& url_prompt(config, env).1.default == Some(value)
        },
        config.bldr_url is None ==> {
            &&& url_prompt(config, env).0.len() == 0
            &&& url_prompt(config, env).1.default == env.bldr_url
        },
{
}

/// The question for the access token, with what is configured or else the environment as its default.
pub proof fn law_auth_token_prompt_goes_by_what_is_configured(config: ConfigView, env: EnvironmentView)
    ensures
        auth_token_prompt(config, env).1.question == "Habitat personal access token"@,
        config.auth_token matches Some(value) ==> {
            &&& auth_token_prompt(config, env).0 == seq![SayView::Para("You already have a default auth token set up, but feel free to change it if you wish."@,
                )]
            &&& auth_token_prompt(config, env).1.default == Some(value)
        },
        config.auth_token is None ==> {
            &&& auth_token_prompt(config, env).0.len() == 0
            &&& auth_token_prompt(config, env).1.default == env.auth_token
        },
{
}

/// The question for the secret, with what is configured or else the environment as its default.
pub proof fn law_ctl_secret_prompt_goes_by_what_is_configured(config: ConfigView, env: EnvironmentView)
    ensures
        ctl_secret_prompt(config, env).1.question == "Habitat Supervisor control gateway secret"@,
        config.ctl_secret matches Some(value) ==> {
            &&& ctl_secret_prompt(config, env).0 == seq![SayView::Para("You already have a default control gateway secret set up, but feel free to change it
                if you wish."@,
                )]
            &&& ctl_secret_prompt(config, env).1.default == Some(value)
        },
        config.ctl_secret is None ==> {
            &&& ctl_secret_prompt(config, env).0.len() == 0
            &&& ctl_secret_prompt(config, env).1.default == env.ctl_secret
        },
{
}

/// Writing an entry gives it the value and leaves the other entries alone, so that of two values
/// written to one entry the later stays.
pub proof fn law_writing_changes_its_entry_alone(
    config: ConfigView,
    value: Seq<char>,
    later: Seq<char>,
    entry: ConfigEntry,
)
    ensures
        ({
            let after = written(config, entry, value);
            &&& after.origin == if entry == ConfigEntry::Origin {
                Some(value)
            } else {
                config.origin
            }
            &&& after.bldr_url == if entry == ConfigEntry::BldrUrl {
                Some(value)
            } else {
                config.bldr_url
            }
            &&& after.auth_token == if entry == ConfigEntry::AuthToken {
                Some(value)
            } else {
                config.auth_token
            }
            &&& after.ctl_secret == if entry == ConfigEntry::CtlSecret {
                Some(value)
            } else {
                config.ctl_secret
            }
            &&& written(after, entry, later) == written(config, entry, later)
        }),
{
}

/// The complaint about a text that is no URL quotes the text, whatever it is.
pub proof fn law_complaint_quotes_the_text(val: Seq<char>)
    ensures
        url_complaint(val) == "URL: '"@ + val + "' is not valid"@,
        url_complaint(val).len() == val.len() + 20,
        url_complaint(val).subrange(6, 6 + val.len() as int) == val,
{
    reveal_strlit("URL: '");
    reveal_strlit("' is not valid");
    assert(url_complaint(val).subrange(6, 6 + val.len() as int) =~= val);
}

} // verus!
