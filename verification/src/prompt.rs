//! The questions of the setup dialogue, and the configuration that their answers go to.

use crate::text::opt_text;
use vstd::prelude::*;

verus! {

/// Something that the dialogue shows.
#[derive(Debug, PartialEq, Eq)]
pub enum Say {
    /// An empty line.
    Br,
    /// The title of the dialogue.
    Title(String),
    /// The heading of a section.
    Heading(String),
    /// A paragraph.
    Para(String),
    /// A complaint.
    Fatal(String),
    /// The complaint that this is no origin name.
    InvalidOrigin(String),
}

/// Something that the dialogue shows, as mathematical values.
pub ghost enum SayView {
    Br,
    Title(Seq<char>),
    Heading(Seq<char>),
    Para(Seq<char>),
    Fatal(Seq<char>),
    InvalidOrigin(Seq<char>),
}

impl View for Say {
    type V = SayView;

    open spec fn view(&self) -> SayView {
        match *self {
            Say::Br => SayView::Br,
            Say::Title(text) => SayView::Title(text@),
            Say::Heading(text) => SayView::Heading(text@),
            Say::Para(text) => SayView::Para(text@),
            Say::Fatal(text) => SayView::Fatal(text@),
            Say::InvalidOrigin(origin) => SayView::InvalidOrigin(origin@),
        }
    }
}

/// What a list of things to show says.
pub open spec fn said(list: Seq<Say>) -> Seq<SayView> {
    list.map_values(|s: Say| s@)
}

/// A question to be answered with yes or no.
#[derive(Debug, PartialEq, Eq)]
pub struct YesNo {
    pub question: String,
    pub default: Option<bool>,
}

/// A question to be answered with yes or no, as mathematical values.
pub ghost struct YesNoView {
    pub question: Seq<char>,
    pub default: Option<bool>,
}

impl View for YesNo {
    type V = YesNoView;

    open spec fn view(&self) -> YesNoView {
        YesNoView { question: self.question@, default: self.default }
    }
}

impl Clone for YesNo {
    fn clone(&self) -> (copy: Self)
        ensures
            copy == *self,
    {
        YesNo { question: self.question.clone(), default: self.default }
    }
}

/// A question to be answered with a text.
#[derive(Debug, PartialEq, Eq)]
pub struct Prompt {
    pub question: String,
    pub default: Option<String>,
}

/// A question to be answered with a text, as mathematical values.
pub ghost struct PromptView {
    pub question: Seq<char>,
    pub default: Option<Seq<char>>,
}

impl View for Prompt {
    type V = PromptView;

    open spec fn view(&self) -> PromptView {
        PromptView { question: self.question@, default: opt_text(self.default) }
    }
}

impl Clone for Prompt {
    fn clone(&self) -> (copy: Self)
        ensures
            copy == *self,
    {
        Prompt { question: self.question.clone(), default: self.default.clone() }
    }
}

/// The configuration of the command line interface.
#[derive(Debug, PartialEq, Eq)]
pub struct CliConfig {
    pub auth_token: Option<String>,
    pub origin: Option<String>,
    pub ctl_secret: Option<String>,
    pub bldr_url: Option<String>,
}

/// The configuration, as mathematical values.
pub ghost struct ConfigView {
    pub auth_token: Option<Seq<char>>,
    pub origin: Option<Seq<char>>,
    pub ctl_secret: Option<Seq<char>>,
    pub bldr_url: Option<Seq<char>>,
}

impl View for CliConfig {
    type V = ConfigView;

    open spec fn view(&self) -> ConfigView {
        ConfigView {
            auth_token: opt_text(self.auth_token),
            origin: opt_text(self.origin),
            ctl_secret: opt_text(self.ctl_secret),
            bldr_url: opt_text(self.bldr_url),
        }
    }
}

/// The environment variables that stand in for what is not configured, where they are set.
#[derive(Debug, PartialEq, Eq)]
pub struct Environment {
    /// `HAB_AUTH_TOKEN`
    pub auth_token: Option<String>,
    /// `HAB_ORIGIN`
    pub origin: Option<String>,
    /// `USER`
    pub user: Option<String>,
    /// `HAB_CTL_SECRET`
    pub ctl_secret: Option<String>,
    /// `HAB_BLDR_URL`
    pub bldr_url: Option<String>,
}

/// The environment variables, as mathematical values.
pub ghost struct EnvironmentView {
    pub auth_token: Option<Seq<char>>,
    pub origin: Option<Seq<char>>,
    pub user: Option<Seq<char>>,
    pub ctl_secret: Option<Seq<char>>,
    pub bldr_url: Option<Seq<char>>,
}

impl View for Environment {
    type V = EnvironmentView;

    open spec fn view(&self) -> EnvironmentView {
        EnvironmentView {
            auth_token: opt_text(self.auth_token),
            origin: opt_text(self.origin),
            user: opt_text(self.user),
            ctl_secret: opt_text(self.ctl_secret),
            bldr_url: opt_text(self.bldr_url),
        }
    }
}

/// Asks whether to set up a default origin.
pub fn ask_default_origin() -> (asked: YesNo)
    ensures
        asked@ == (YesNoView { question: "Set up a default origin?"@, default: Some(true) }),
{
    YesNo { question: "Set up a default origin?".to_owned(), default: Some(true) }
}

/// Asks whether to connect to a builder other than the public one.
pub fn ask_default_builder_instance() -> (asked: YesNo)
    ensures
        asked@ == (YesNoView {
            question: "Connect to an on-premises Builder instance?"@,
            default: Some(false),
        }),
{
    YesNo {
        question: "Connect to an on-premises Builder instance?".to_owned(),
        default: Some(false),
    }
}

/// Asks whether to create a key for the origin.
pub fn ask_create_origin(origin: &str) -> (asked: YesNo)
    ensures
        asked@ == (YesNoView {
            question: "Create an origin key for `"@ + origin@ + "'?"@,
            default: Some(true),
        }),
{
    YesNo {
        question: "Create an origin key for `".to_owned().concat(origin).concat("'?"),
        default: Some(true),
    }
}

/// Asks whether to set up a default access token.
pub fn ask_default_auth_token() -> (asked: YesNo)
    ensures
        asked@ == (YesNoView {
            question: "Set up a default Builder personal access token?"@,
            default: Some(false),
        }),
{
    YesNo {
        question: "Set up a default Builder personal access token?".to_owned(),
        default: Some(false),
    }
}

/// Asks whether to set up a default control gateway secret.
pub fn ask_default_ctl_secret() -> (asked: YesNo)
    ensures
        asked@ == (YesNoView {
            question: "Set up a default Habitat Supervisor control gateway secret?"@,
            default: Some(false),
        }),
{
    YesNo {
        question: "Set up a default Habitat Supervisor control gateway secret?".to_owned(),
        default: Some(false),
    }
}

/// Makes `origin` the default origin.
pub fn write_cli_config_origin(config: &mut CliConfig, origin: &str)
    ensures
        final(config)@ == (ConfigView { origin: Some(origin@), ..old(config)@ }),
{
    config.origin = Some(origin.to_owned());
}

/// Makes `url` the builder to connect to.
pub fn write_cli_config_bldr_url(config: &mut CliConfig, url: &str)
    ensures
        final(config)@ == (ConfigView { bldr_url: Some(url@), ..old(config)@ }),
{
    config.bldr_url = Some(url.to_owned());
}

/// Makes `auth_token` the default access token.
pub fn write_cli_config_auth_token(config: &mut CliConfig, auth_token: &str)
    ensures
        final(config)@ == (ConfigView { auth_token: Some(auth_token@), ..old(config)@ }),
{
    config.auth_token = Some(auth_token.to_owned());
}

/// Makes `value` the default control gateway secret.
pub fn write_cli_config_ctl_secret(config: &mut CliConfig, value: &str)
    ensures
        final(config)@ == (ConfigView { ctl_secret: Some(value@), ..old(config)@ }),
{
    config.ctl_secret = Some(value.to_owned());
}

/// A question for a text that may be configured already: what is configured is its default and
/// is remarked upon; otherwise the default comes from the environment.
pub open spec fn prompting(
    question: Seq<char>,
    configured: Option<Seq<char>>,
    remark: Seq<char>,
    environment: Option<Seq<char>>,
) -> (Seq<SayView>, PromptView) {
    match configured {
        Some(_) => (
            seq![SayView::Para(remark)],
            PromptView { question, default: configured },
        ),
        None => (seq![], PromptView { question, default: environment }),
    }
}

/// A question for a text, and what is shown before it.
#[derive(Debug, PartialEq, Eq)]
pub struct Prompting {
    pub says: Vec<Say>,
    pub prompt: Prompt,
}

impl View for Prompting {
    type V = (Seq<SayView>, PromptView);

    open spec fn view(&self) -> (Seq<SayView>, PromptView) {
        (said(self.says@), self.prompt@)
    }
}

fn prompt_for(
    question: &str,
    configured: Option<String>,
    remark: String,
    environment: Option<String>,
) -> (prompting: Prompting)
    ensures
        prompting@ == crate::prompt::prompting(
            question@,
            opt_text(configured),
            remark@,
            opt_text(environment),
        ),
{
    let mut says: Vec<Say> = Vec::new();
    let default = if configured.is_some() {
        says.push(Say::Para(remark));
        configured
    } else {
        environment
    };
    let prompting = Prompting { says, prompt: Prompt { question: question.to_owned(), default } };
    assert(prompting@.0 =~= crate::prompt::prompting(
        question@,
        opt_text(configured),
        remark@,
        opt_text(environment),
    ).0);
    prompting
}

/// The question for the default origin. The name of the user is the last resort for a default.
pub open spec fn origin_prompt(config: ConfigView, env: EnvironmentView) -> (
    Seq<SayView>,
    PromptView,
) {
    prompting(
        "Default origin name"@,
        config.origin,
        "You already have a default origin set up as `"@ + config.origin->0
            + "', but feel free to change it if you wish."@,
        if env.origin is Some {
            env.origin
        } else {
            env.user
        },
    )
}

/// Asks for the default origin.
pub fn prompt_origin(config: CliConfig, env: Environment) -> (prompting: Prompting)
    ensures
        prompting@ == origin_prompt(config@, env@),
{
    let remark = match &config.origin {
        Some(origin) => "You already have a default origin set up as `".to_owned().concat(
            origin.as_str(),
        ).concat("', but feel free to change it if you wish."),
        None => String::new(),
    };
    let environment = if env.origin.is_some() {
        env.origin
    } else {
        env.user
    };
    prompt_for("Default origin name", config.origin, remark, environment)
}

/// The question for the builder to connect to.
pub open spec fn url_prompt(config: ConfigView, env: EnvironmentView) -> (
    Seq<SayView>,
    PromptView,
) {
    prompting(
        "Private builder url"@,
        config.bldr_url,
        "You already have a default builder url set up, but feel free to change it if you wish."@,
        env.bldr_url,
    )
}

/// Asks for the builder to connect to.
pub fn prompt_url(config: CliConfig, env: Environment) -> (prompting: Prompting)
    ensures
        prompting@ == url_prompt(config@, env@),
{
    prompt_for(
        "Private builder url",
        config.bldr_url,
        "You already have a default builder url set up, but feel free to change it if you wish.".to_owned(),
        env.bldr_url,
    )
}

/// The question for the default access token.
pub open spec fn auth_token_prompt(config: ConfigView, env: EnvironmentView) -> (
    Seq<SayView>,
    PromptView,
) {
    prompting(
        "Habitat personal access token"@,
        config.auth_token,
        "You already have a default auth token set up, but feel free to change it if you wish."@,
        env.auth_token,
    )
}

/// Asks for the default access token.
pub fn prompt_auth_token(config: CliConfig, env: Environment) -> (prompting: Prompting)
    ensures
        prompting@ == auth_token_prompt(config@, env@),
{
    prompt_for(
        "Habitat personal access token",
        config.auth_token,
        "You already have a default auth token set up, but feel free to change it if you wish.".to_owned(),
        env.auth_token,
    )
}

/// The remark on a control gateway secret that is set up already.
pub const CTL_SECRET_REMARK: &'static str =
    "You already have a default control gateway secret set up, but feel free to change it
                if you wish.";

/// The question for the default control gateway secret.
pub open spec fn ctl_secret_prompt(config: ConfigView, env: EnvironmentView) -> (
    Seq<SayView>,
    PromptView,
) {
    prompting(
        "Habitat Supervisor control gateway secret"@,
        config.ctl_secret,
        CTL_SECRET_REMARK@,
        env.ctl_secret,
    )
}

/// Asks for the default control gateway secret.
pub fn prompt_ctl_secret(config: CliConfig, env: Environment) -> (prompting: Prompting)
    ensures
        prompting@ == ctl_secret_prompt(config@, env@),
{
    prompt_for(
        "Habitat Supervisor control gateway secret",
        config.ctl_secret,
        CTL_SECRET_REMARK.to_owned(),
        env.ctl_secret,
    )
}

/// A parsed URL.
#[verifier::external_type_specification]
#[verifier::external_body]
pub struct ExUrl(url::Url);

/// Why a text is no URL.
#[verifier::external_type_specification]
#[verifier::external_body]
pub struct ExParseError(url::ParseError);

/// The text is an absolute URL, as `url::Url::parse` judges it.
pub uninterp spec fn url_parses(text: Seq<char>) -> bool;

/// `url::Url::parse` goes by the text alone in judging whether it is an absolute URL.
pub assume_specification[ url::Url::parse ](input: &str) -> (url: Result<
    url::Url,
    url::ParseError,
>)
    ensures
        url is Ok == url_parses(input@),
;

/// The complaint about a text that is no URL.
pub open spec fn url_complaint(val: Seq<char>) -> Seq<char> {
    "URL: '"@ + val + "' is not valid"@
}

/// The judgement on a text that does or does not parse as a URL.
pub fn judge_url(val: &str, parses: bool) -> (judged: Result<(), String>)
    ensures
        judged is Ok == parses,
        judged matches Err(e) ==> e@ == "URL: '"@ + val@ + "' is not valid"@,
        judged matches Err(e) ==> e@ == url_complaint(val@),
{
    if parses {
        Ok(())
    } else {
        Err("URL: '".to_owned().concat(val).concat("' is not valid"))
    }
}

/// Whether a text is a URL, and if not a complaint about it.
pub fn valid_url(val: &str) -> (judged: Result<(), String>)
    ensures
        judged is Ok == url_parses(val@),
        judged matches Err(e) ==> e@ == "URL: '"@ + val@ + "' is not valid"@,
        judged matches Err(e) ==> e@ == url_complaint(val@),
{
    match url::Url::parse(val) {
        Ok(_) => judge_url(val, true),
        Err(_) => judge_url(val, false),
    }
}

/// The latest pair of keys for an origin, if there is one.
#[derive(Clone, Copy, Debug, PartialEq, Eq, Structural)]
pub enum LatestPair {
    /// There is none, or it could not be read.
    Missing,
    /// There is one, with or without a secret key that can be read.
    Found { secret: bool },
}

/// Whether there is a key to sign packages of an origin with: its latest pair has a secret key.
pub fn is_origin_in_cache(pair: LatestPair) -> (found: bool)
    ensures
        found == (pair == LatestPair::Found { secret: true }),
{
    match pair {
        LatestPair::Found { secret } => secret,
        LatestPair::Missing => false,
    }
}

/// What was written to the configuration is the default when it is asked for again, whatever the
/// environment says, and the other questions stay as they were.
pub proof fn law_written_value_is_the_next_default(
    config: ConfigView,
    env: EnvironmentView,
    value: Seq<char>,
)
    ensures
        ({
            let after = ConfigView { origin: Some(value), ..config };
            &&& origin_prompt(after, env).1.default == Some(value)
            &&& url_prompt(after, env) == url_prompt(config, env)
            &&& auth_token_prompt(after, env) == auth_token_prompt(config, env)
            &&& ctl_secret_prompt(after, env) == ctl_secret_prompt(config, env)
        }),
        ({
            let after = ConfigView { bldr_url: Some(value), ..config };
            &&& url_prompt(after, env).1.default == Some(value)
            &&& origin_prompt(after, env) == origin_prompt(config, env)
            &&& auth_token_prompt(after, env) == auth_token_prompt(config, env)
            &&& ctl_secret_prompt(after, env) == ctl_secret_prompt(config, env)
        }),
        ({
            let after = ConfigView { auth_token: Some(value), ..config };
            &&& auth_token_prompt(after, env).1.default == Some(value)
            &&& origin_prompt(after, env) == origin_prompt(config, env)
            &&& url_prompt(after, env) == url_prompt(config, env)
            &&& ctl_secret_prompt(after, env) == ctl_secret_prompt(config, env)
        }),
        ({
            let after = ConfigView { ctl_secret: Some(value), ..config };
            &&& ctl_secret_prompt(after, env).1.default == Some(value)
            &&& origin_prompt(after, env) == origin_prompt(config, env)
            &&& url_prompt(after, env) == url_prompt(config, env)
            &&& auth_token_prompt(after, env) == auth_token_prompt(config, env)
        }),
{
}

/// The environment counts only where nothing is configured, and then without a remark; for the
/// origin its own variable goes before the name of the user.
pub proof fn law_environment_fills_in(config: ConfigView, env: EnvironmentView)
    ensures
        config.origin is None ==> {
            &&& origin_prompt(config, env).0.len() == 0
            &&& env.origin is Some ==> origin_prompt(config, env).1.default == env.origin
            &&& env.origin is None ==> origin_prompt(config, env).1.default == env.user
        },
        config.bldr_url is None ==> url_prompt(config, env).0.len() == 0 && url_prompt(
            config,
            env,
        ).1.default == env.bldr_url,
        config.auth_token is None ==> auth_token_prompt(config, env).0.len() == 0
            && auth_token_prompt(config, env).1.default == env.auth_token,
        config.ctl_secret is None ==> ctl_secret_prompt(config, env).0.len() == 0
            && ctl_secret_prompt(config, env).1.default == env.ctl_secret,
{
}

} // verus!
