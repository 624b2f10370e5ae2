//! The dialogue that sets up the command line interface.
//!
//! A dialogue asks for what it needs with a [`Request`]; the answer is an [`Event`], to which it
//! responds with things to [`Say`]. What is said is shown in order before the next request is
//! met, and the first thing that cannot be shown ends the dialogue with an error, as does a
//! request that cannot be met.

use crate::ident::{is_valid_origin_name, valid_origin_name};
use crate::prompt::{
    ask_create_origin, ask_default_auth_token, ask_default_builder_instance,
    ask_default_ctl_secret, ask_default_origin, auth_token_prompt, ctl_secret_prompt,
    is_origin_in_cache, origin_prompt, prompt_auth_token, prompt_ctl_secret, prompt_origin,
    prompt_url, said, url_parses, url_prompt, valid_url, write_cli_config_auth_token,
    write_cli_config_bldr_url, write_cli_config_ctl_secret, write_cli_config_origin, CliConfig,
    ConfigView, Environment, EnvironmentView, LatestPair, Prompt, PromptView, Say, SayView, YesNo,
    YesNoView,
};
use crate::setup_text::{
    BINLINK_ABOUT, BINLINK_HEADING, BINLINK_NOT_ROOT, BUILDER_ABOUT, BUILDER_ENTER,
    BUILDER_HEADING, BUILDER_LATER, END, END_HEADING, KEY_HEADING, KEY_HOW, KEY_MORE,
    ORIGIN_ABOUT, ORIGIN_ENTER, ORIGIN_HEADING, ORIGIN_LATER, ORIGIN_MORE, ORIGIN_RULES,
    ORIGIN_WHY, SECRET_ABOUT, SECRET_ENTER, SECRET_HEADING, SECRET_LATER, TITLE, TOKEN_ENTER,
    TOKEN_HEADING, TOKEN_HOW, TOKEN_LATER, TOKEN_MORE, TOKEN_SAVE, TOKEN_WHY, WELCOME,
};
use crate::text::opt_text;
use vstd::prelude::*;

verus! {

/// An entry of the configuration.
#[derive(Clone, Copy, Debug, PartialEq, Eq, Structural)]
pub enum ConfigEntry {
    AuthToken,
    BldrUrl,
    CtlSecret,
    Origin,
}

/// The configuration with an entry written.
pub open spec fn written(config: ConfigView, entry: ConfigEntry, value: Seq<char>) -> ConfigView {
    match entry {
        ConfigEntry::AuthToken => ConfigView { auth_token: Some(value), ..config },
        ConfigEntry::BldrUrl => ConfigView { bldr_url: Some(value), ..config },
        ConfigEntry::CtlSecret => ConfigView { ctl_secret: Some(value), ..config },
        ConfigEntry::Origin => ConfigView { origin: Some(value), ..config },
    }
}

/// Writes an entry of the configuration.
pub fn write_cli_config(config: &mut CliConfig, entry: ConfigEntry, value: &str)
    ensures
        final(config)@ == written(old(config)@, entry, value@),
{
    match entry {
        ConfigEntry::AuthToken => write_cli_config_auth_token(config, value),
        ConfigEntry::BldrUrl => write_cli_config_bldr_url(config, value),
        ConfigEntry::CtlSecret => write_cli_config_ctl_secret(config, value),
        ConfigEntry::Origin => write_cli_config_origin(config, value),
    }
}

/// How far a dialogue has come.
#[derive(Debug)]
enum Stage {
    BuilderQuestion,
    UrlConfig,
    UrlPrompt(Prompt),
    UrlWrite(String),
    OriginQuestion,
    OriginConfig,
    OriginPrompt(Prompt),
    OriginWrite(String),
    KeyLookUp(String),
    KeyQuestion(String),
    KeyGeneration(String),
    TokenQuestion,
    TokenConfig,
    TokenPrompt(Prompt),
    TokenWrite(String),
    SecretQuestion,
    SecretConfig,
    SecretPrompt(Prompt),
    SecretWrite(String),
    BinlinkQuestion(String),
    BinlinkRoot(String),
    BinlinkPath(String),
    KeyFailed,
    Done,
}

/// How far a dialogue has come, as mathematical values.
pub ghost enum StageView {
    /// Waits for whether to connect to another builder.
    BuilderQuestion,
    /// Waits for the configuration, to ask for the builder.
    UrlConfig,
    /// Waits for the builder.
    UrlPrompt(PromptView),
    /// Waits until the builder is written.
    UrlWrite(Seq<char>),
    /// Waits for whether to set up a default origin.
    OriginQuestion,
    /// Waits for the configuration, to ask for the origin.
    OriginConfig,
    /// Waits for the origin.
    OriginPrompt(PromptView),
    /// Waits until the origin is written.
    OriginWrite(Seq<char>),
    /// Waits for the latest keys of the origin.
    KeyLookUp(Seq<char>),
    /// Waits for whether to create keys for the origin.
    KeyQuestion(Seq<char>),
    /// Waits until the keys are created.
    KeyGeneration(Seq<char>),
    /// Waits for whether to set up an access token.
    TokenQuestion,
    /// Waits for the configuration, to ask for the access token.
    TokenConfig,
    /// Waits for the access token.
    TokenPrompt(PromptView),
    /// Waits until the access token is written.
    TokenWrite(Seq<char>),
    /// Waits for whether to set up a control gateway secret.
    SecretQuestion,
    /// Waits for the configuration, to ask for the secret.
    SecretConfig,
    /// Waits for the secret.
    SecretPrompt(PromptView),
    /// Waits until the secret is written.
    SecretWrite(Seq<char>),
    /// Waits for whether to put the directory of binlinks on the search path.
    BinlinkQuestion(Seq<char>),
    /// Waits for whether the search path may be changed.
    BinlinkRoot(Seq<char>),
    /// Waits until the search path is changed.
    BinlinkPath(Seq<char>),
    /// The keys could not be created.
    KeyFailed,
    /// The dialogue is over.
    Done,
}

impl View for Stage {
    type V = StageView;

    closed spec fn view(&self) -> StageView {
        match *self {
            Stage::BuilderQuestion => StageView::BuilderQuestion,
            Stage::UrlConfig => StageView::UrlConfig,
            Stage::UrlPrompt(prompt) => StageView::UrlPrompt(prompt@),
            Stage::UrlWrite(url) => StageView::UrlWrite(url@),
            Stage::OriginQuestion => StageView::OriginQuestion,
            Stage::OriginConfig => StageView::OriginConfig,
            Stage::OriginPrompt(prompt) => StageView::OriginPrompt(prompt@),
            Stage::OriginWrite(origin) => StageView::OriginWrite(origin@),
            Stage::KeyLookUp(origin) => StageView::KeyLookUp(origin@),
            Stage::KeyQuestion(origin) => StageView::KeyQuestion(origin@),
            Stage::KeyGeneration(origin) => StageView::KeyGeneration(origin@),
            Stage::TokenQuestion => StageView::TokenQuestion,
            Stage::TokenConfig => StageView::TokenConfig,
            Stage::TokenPrompt(prompt) => StageView::TokenPrompt(prompt@),
            Stage::TokenWrite(token) => StageView::TokenWrite(token@),
            Stage::SecretQuestion => StageView::SecretQuestion,
            Stage::SecretConfig => StageView::SecretConfig,
            Stage::SecretPrompt(prompt) => StageView::SecretPrompt(prompt@),
            Stage::SecretWrite(secret) => StageView::SecretWrite(secret@),
            Stage::BinlinkQuestion(dir) => StageView::BinlinkQuestion(dir@),
            Stage::BinlinkRoot(dir) => StageView::BinlinkRoot(dir@),
            Stage::BinlinkPath(dir) => StageView::BinlinkPath(dir@),
            Stage::KeyFailed => StageView::KeyFailed,
            Stage::Done => StageView::Done,
        }
    }
}

/// What a dialogue waits for.
#[derive(Debug, PartialEq, Eq)]
pub enum Request {
    /// Ask the question. Answered by [`Event::Answer`].
    YesNo(YesNo),
    /// Load the configuration and the environment. Answered by [`Event::Config`].
    LoadConfig,
    /// Ask the question. Answered by [`Event::Text`].
    Ask(Prompt),
    /// Load the configuration, write the entry and save it. Answered by [`Event::Written`].
    Write(ConfigEntry, String),
    /// Look up the latest keys of the origin. Answered by [`Event::Key`].
    LookUpKey(String),
    /// Create keys for the origin. Answered by [`Event::Generated`].
    GenerateKey(String),
    /// Find out whether the search path may be changed. Answered by [`Event::Root`].
    AmIRoot,
    /// Put the binlinks on the search path. Answered by [`Event::BinlinkSet`].
    SetBinlinkPath,
    /// Nothing: the keys could not be created.
    KeyFailed,
    /// Nothing: the dialogue is over.
    Done,
}

/// What a dialogue waits for, as mathematical values.
pub ghost enum RequestView {
    YesNo(YesNoView),
    LoadConfig,
    Ask(PromptView),
    Write(ConfigEntry, Seq<char>),
    LookUpKey(Seq<char>),
    GenerateKey(Seq<char>),
    AmIRoot,
    SetBinlinkPath,
    KeyFailed,
    Done,
}

impl View for Request {
    type V = RequestView;

    open spec fn view(&self) -> RequestView {
        match *self {
            Request::YesNo(asked) => RequestView::YesNo(asked@),
            Request::LoadConfig => RequestView::LoadConfig,
            Request::Ask(prompt) => RequestView::Ask(prompt@),
            Request::Write(entry, value) => RequestView::Write(entry, value@),
            Request::LookUpKey(origin) => RequestView::LookUpKey(origin@),
            Request::GenerateKey(origin) => RequestView::GenerateKey(origin@),
            Request::AmIRoot => RequestView::AmIRoot,
            Request::SetBinlinkPath => RequestView::SetBinlinkPath,
            Request::KeyFailed => RequestView::KeyFailed,
            Request::Done => RequestView::Done,
        }
    }
}

/// The answer to a request.
#[derive(Debug, PartialEq, Eq)]
pub enum Event {
    /// Yes or no.
    Answer(bool),
    /// The configuration and the environment.
    Config(CliConfig, Environment),
    /// A text.
    Text(String),
    /// The entry is written.
    Written,
    /// The latest keys of the origin.
    Key(LatestPair),
    /// Whether keys could be created.
    Generated(bool),
    /// Whether the search path may be changed.
    Root(bool),
    /// The binlinks are on the search path.
    BinlinkSet,
}

/// The answer to a request, as mathematical values.
pub ghost enum EventView {
    Answer(bool),
    Config(ConfigView, EnvironmentView),
    Text(Seq<char>),
    Written,
    Key(LatestPair),
    Generated(bool),
    Root(bool),
    BinlinkSet,
}

impl View for Event {
    type V = EventView;

    open spec fn view(&self) -> EventView {
        match *self {
            Event::Answer(yes) => EventView::Answer(yes),
            Event::Config(config, env) => EventView::Config(config@, env@),
            Event::Text(text) => EventView::Text(text@),
            Event::Written => EventView::Written,
            Event::Key(pair) => EventView::Key(pair),
            Event::Generated(created) => EventView::Generated(created),
            Event::Root(root) => EventView::Root(root),
            Event::BinlinkSet => EventView::BinlinkSet,
        }
    }
}

/// The request of a stage.
pub open spec fn request(stage: StageView) -> RequestView {
    match stage {
        StageView::BuilderQuestion => RequestView::YesNo(
            YesNoView {
                question: "Connect to an on-premises Builder instance?"@,
                default: Some(false),
            },
        ),
        StageView::UrlConfig => RequestView::LoadConfig,
        StageView::UrlPrompt(prompt) => RequestView::Ask(prompt),
        StageView::UrlWrite(url) => RequestView::Write(ConfigEntry::BldrUrl, url),
        StageView::OriginQuestion => RequestView::YesNo(
            YesNoView { question: "Set up a default origin?"@, default: Some(true) },
        ),
        StageView::OriginConfig => RequestView::LoadConfig,
        StageView::OriginPrompt(prompt) => RequestView::Ask(prompt),
        StageView::OriginWrite(origin) => RequestView::Write(ConfigEntry::Origin, origin),
        StageView::KeyLookUp(origin) => RequestView::LookUpKey(origin),
        StageView::KeyQuestion(origin) => RequestView::YesNo(
            YesNoView {
                question: "Create an origin key for `"@ + origin + "'?"@,
                default: Some(true),
            },
        ),
        StageView::KeyGeneration(origin) => RequestView::GenerateKey(origin),
        StageView::TokenQuestion => RequestView::YesNo(
            YesNoView {
                question: "Set up a default Builder personal access token?"@,
                default: Some(false),
            },
        ),
        StageView::TokenConfig => RequestView::LoadConfig,
        StageView::TokenPrompt(prompt) => RequestView::Ask(prompt),
        StageView::TokenWrite(token) => RequestView::Write(ConfigEntry::AuthToken, token),
        StageView::SecretQuestion => RequestView::YesNo(
            YesNoView {
                question: "Set up a default Habitat Supervisor control gateway secret?"@,
                default: Some(false),
            },
        ),
        StageView::SecretConfig => RequestView::LoadConfig,
        StageView::SecretPrompt(prompt) => RequestView::Ask(prompt),
        StageView::SecretWrite(secret) => RequestView::Write(ConfigEntry::CtlSecret, secret),
        StageView::BinlinkQuestion(_) => RequestView::YesNo(
            YesNoView { question: "Add binlink directory to PATH?"@, default: Some(true) },
        ),
        StageView::BinlinkRoot(_) => RequestView::AmIRoot,
        StageView::BinlinkPath(_) => RequestView::SetBinlinkPath,
        StageView::KeyFailed => RequestView::KeyFailed,
        StageView::Done => RequestView::Done,
    }
}

/// How the dialogue opens, with the section on the builder.
pub open spec fn opening() -> Seq<SayView> {
    seq![
        SayView::Br,
        SayView::Title(TITLE@),
        SayView::Para(WELCOME@),
        SayView::Heading(BUILDER_HEADING@),
        SayView::Para(BUILDER_ABOUT@),
    ]
}

/// The beginning of the section on the origin, after what was said before.
pub open spec fn to_origin(before: Seq<SayView>) -> (StageView, Seq<SayView>) {
    (
        StageView::OriginQuestion,
        before + seq![
            SayView::Heading(ORIGIN_HEADING@),
            SayView::Para(ORIGIN_ABOUT@),
            SayView::Para(ORIGIN_WHY@),
            SayView::Para(ORIGIN_MORE@),
        ],
    )
}

/// The beginning of the section on the access token, after what was said before.
pub open spec fn to_token(before: Seq<SayView>) -> (StageView, Seq<SayView>) {
    (
        StageView::TokenQuestion,
        before + seq![
            SayView::Heading(TOKEN_HEADING@),
            SayView::Para(TOKEN_WHY@),
            SayView::Para(TOKEN_HOW@),
            SayView::Para(TOKEN_SAVE@),
            SayView::Para(TOKEN_MORE@),
        ],
    )
}

/// The beginning of the section on the control gateway secret, after what was said before.
pub open spec fn to_secret(before: Seq<SayView>) -> (StageView, Seq<SayView>) {
    (
        StageView::SecretQuestion,
        before + seq![SayView::Heading(SECRET_HEADING@), SayView::Para(SECRET_ABOUT@)],
    )
}

/// The beginning of the section on binlinks, after what was said before, or the end where there
/// is no directory of binlinks to be put on the search path.
pub open spec fn to_binlink(binlink: Option<Seq<char>>, before: Seq<SayView>) -> (
    StageView,
    Seq<SayView>,
) {
    match binlink {
        Some(dir) => (
            StageView::BinlinkQuestion(dir),
            before + seq![SayView::Heading(BINLINK_HEADING@), SayView::Para(BINLINK_ABOUT@)],
        ),
        None => to_end(before),
    }
}

/// The end of the dialogue, after what was said before.
pub open spec fn to_end(before: Seq<SayView>) -> (StageView, Seq<SayView>) {
    (StageView::Done, before + seq![SayView::Heading(END_HEADING@), SayView::Para(END@)])
}

/// What a dialogue does when an answer comes: its next stage, and what it says. `url_parses` tells
/// whether an answer that is to be a URL is one. An answer that is not the one that the stage
/// waits for changes nothing.
pub open spec fn respond(
    binlink: Option<Seq<char>>,
    stage: StageView,
    event: EventView,
    url_parses: bool,
) -> (StageView, Seq<SayView>) {
    match (stage, event) {
        (StageView::BuilderQuestion, EventView::Answer(yes)) => if yes {
            (StageView::UrlConfig, seq![SayView::Br, SayView::Para(BUILDER_ENTER@)])
        } else {
            to_origin(seq![SayView::Br, SayView::Para(BUILDER_LATER@)])
        },
        (StageView::UrlConfig, EventView::Config(config, env)) => {
            let (says, prompt) = url_prompt(config, env);
            (StageView::UrlPrompt(prompt), says)
        },
        (StageView::UrlPrompt(_), EventView::Text(url)) => if url_parses {
            (StageView::UrlWrite(url), seq![])
        } else {
            (
                StageView::UrlConfig,
                seq![
                    SayView::Br,
                    SayView::Fatal(url + ": is invalid, please provide a valid url"@),
                    SayView::Br,
                ],
            )
        },
        (StageView::UrlWrite(_), EventView::Written) => to_origin(seq![]),
        (StageView::OriginQuestion, EventView::Answer(yes)) => if yes {
            (
                StageView::OriginConfig,
                seq![SayView::Br, SayView::Para(ORIGIN_ENTER@), SayView::Para(ORIGIN_RULES@)],
            )
        } else {
            to_token(seq![SayView::Para(ORIGIN_LATER@)])
        },
        (StageView::OriginConfig, EventView::Config(config, env)) => {
            let (says, prompt) = origin_prompt(config, env);
            (StageView::OriginPrompt(prompt), says)
        },
        (StageView::OriginPrompt(_), EventView::Text(origin)) => if valid_origin_name(origin) {
            (StageView::OriginWrite(origin), seq![])
        } else {
            (
                StageView::OriginConfig,
                seq![SayView::Br, SayView::InvalidOrigin(origin), SayView::Br],
            )
        },
        (StageView::OriginWrite(origin), EventView::Written) => (
            StageView::KeyLookUp(origin),
            seq![SayView::Br],
        ),
        (StageView::KeyLookUp(origin), EventView::Key(pair)) => {
            if pair == (LatestPair::Found { secret: true }) {
                to_token(
                    seq![
                        SayView::Para(
                            "You already have an origin key for "@ + origin
                                + " created and installed. Great work!"@,
                        ),
                    ],
                )
            } else {
                (
                    StageView::KeyQuestion(origin),
                    seq![
                        SayView::Heading(KEY_HEADING@),
                        SayView::Para(
                            "It doesn't look like you have a signing key for the origin `"@ + origin
                                + "'. Without it, you won't be able to build new packages successfully."@,
                        ),
                        SayView::Para(KEY_HOW@),
                        SayView::Para(KEY_MORE@),
                    ],
                )
            }
        },
        (StageView::KeyQuestion(origin), EventView::Answer(yes)) => if yes {
            (StageView::KeyGeneration(origin), seq![])
        } else {
            to_token(
                seq![
                    SayView::Para(
                        "You might want to create an origin key later with: `hab origin key generate "@
                            + origin + "'"@,
                    ),
                ],
            )
        },
        (StageView::KeyGeneration(_), EventView::Generated(created)) => if created {
            to_token(seq![SayView::Br])
        } else {
            (StageView::KeyFailed, seq![SayView::Br])
        },
        (StageView::TokenQuestion, EventView::Answer(yes)) => if yes {
            (StageView::TokenConfig, seq![SayView::Br, SayView::Para(TOKEN_ENTER@)])
        } else {
            to_secret(seq![SayView::Para(TOKEN_LATER@)])
        },
        (StageView::TokenConfig, EventView::Config(config, env)) => {
            let (says, prompt) = auth_token_prompt(config, env);
            (StageView::TokenPrompt(prompt), says)
        },
        (StageView::TokenPrompt(_), EventView::Text(token)) => (
            StageView::TokenWrite(token),
            seq![],
        ),
        (StageView::TokenWrite(_), EventView::Written) => to_secret(seq![]),
        (StageView::SecretQuestion, EventView::Answer(yes)) => if yes {
            (StageView::SecretConfig, seq![SayView::Br, SayView::Para(SECRET_ENTER@)])
        } else {
            to_binlink(binlink, seq![SayView::Para(SECRET_LATER@)])
        },
        (StageView::SecretConfig, EventView::Config(config, env)) => {
            let (says, prompt) = ctl_secret_prompt(config, env);
            (StageView::SecretPrompt(prompt), says)
        },
        (StageView::SecretPrompt(_), EventView::Text(secret)) => (
            StageView::SecretWrite(secret),
            seq![],
        ),
        (StageView::SecretWrite(_), EventView::Written) => to_binlink(binlink, seq![]),
        (StageView::BinlinkQuestion(dir), EventView::Answer(yes)) => if yes {
            (StageView::BinlinkRoot(dir), seq![])
        } else {
            to_end(seq![SayView::Para("Alright, maybe another time."@)])
        },
        (StageView::BinlinkRoot(dir), EventView::Root(root)) => if root {
            (StageView::BinlinkPath(dir), seq![])
        } else {
            to_end(seq![SayView::Fatal(BINLINK_NOT_ROOT@)])
        },
        (StageView::BinlinkPath(dir), EventView::BinlinkSet) => to_end(
            seq![
                SayView::Para(
                    dir
                        + " has been added to your path. You will need to open a new console window for this added entry to take effect."@,
                ),
            ],
        ),
        _ => (stage, seq![]),
    }
}

/// The setup dialogue.
#[derive(Debug)]
pub struct Setup {
    binlink: Option<String>,
    stage: Stage,
}

/// A dialogue, as mathematical values.
pub ghost struct SetupView {
    /// The directory of binlinks that may be put on the search path, where there is one.
    pub binlink: Option<Seq<char>>,
    pub stage: StageView,
}

impl View for Setup {
    type V = SetupView;

    closed spec fn view(&self) -> SetupView {
        SetupView { binlink: opt_text(self.binlink), stage: self.stage@ }
    }
}

fn say_heading(list: &mut Vec<Say>, text: &str)
    ensures
        said(final(list)@) == said(old(list)@).push(SayView::Heading(text@)),
{
    list.push(Say::Heading(text.to_owned()));
    assert(said(list@) =~= said(old(list)@).push(SayView::Heading(text@)));
}

fn say_para(list: &mut Vec<Say>, text: &str)
    ensures
        said(final(list)@) == said(old(list)@).push(SayView::Para(text@)),
{
    list.push(Say::Para(text.to_owned()));
    assert(said(list@) =~= said(old(list)@).push(SayView::Para(text@)));
}

fn begin_origin(list: &mut Vec<Say>) -> (stage: Stage)
    ensures
        (stage@, said(final(list)@)) == to_origin(said(old(list)@)),
{
    say_heading(list, ORIGIN_HEADING);
    say_para(list, ORIGIN_ABOUT);
    say_para(list, ORIGIN_WHY);
    say_para(list, ORIGIN_MORE);
    assert(said(list@) =~= to_origin(said(old(list)@)).1);
    Stage::OriginQuestion
}

fn begin_token(list: &mut Vec<Say>) -> (stage: Stage)
    ensures
        (stage@, said(final(list)@)) == to_token(said(old(list)@)),
{
    say_heading(list, TOKEN_HEADING);
    say_para(list, TOKEN_WHY);
    say_para(list, TOKEN_HOW);
    say_para(list, TOKEN_SAVE);
    say_para(list, TOKEN_MORE);
    assert(said(list@) =~= to_token(said(old(list)@)).1);
    Stage::TokenQuestion
}

fn begin_secret(list: &mut Vec<Say>) -> (stage: Stage)
    ensures
        (stage@, said(final(list)@)) == to_secret(said(old(list)@)),
{
    say_heading(list, SECRET_HEADING);
    say_para(list, SECRET_ABOUT);
    assert(said(list@) =~= to_secret(said(old(list)@)).1);
    Stage::SecretQuestion
}

fn end(list: &mut Vec<Say>) -> (stage: Stage)
    ensures
        (stage@, said(final(list)@)) == to_end(said(old(list)@)),
{
    say_heading(list, END_HEADING);
    say_para(list, END);
    assert(said(list@) =~= to_end(said(old(list)@)).1);
    Stage::Done
}

fn begin_binlink(binlink: &Option<String>, list: &mut Vec<Say>) -> (stage: Stage)
    ensures
        (stage@, said(final(list)@)) == to_binlink(opt_text(*binlink), said(old(list)@)),
{
    match binlink {
        Some(dir) => {
            say_heading(list, BINLINK_HEADING);
            say_para(list, BINLINK_ABOUT);
            assert(said(list@) =~= to_binlink(opt_text(*binlink), said(old(list)@)).1);
            Stage::BinlinkQuestion(dir.clone())
        },
        None => end(list),
    }
}

/// Begins the setup dialogue. `binlink_path` is the directory of binlinks that may be put on the
/// machine's search path; only Windows has one.
pub fn start(binlink_path: Option<String>) -> (started: (Setup, Vec<Say>))
    ensures
        started.0@ == (SetupView {
            binlink: opt_text(binlink_path),
            stage: StageView::BuilderQuestion,
        }),
        said(started.1@) == opening(),
{
    let mut list: Vec<Say> = Vec::new();
    list.push(Say::Br);
    list.push(Say::Title(TITLE.to_owned()));
    list.push(Say::Para(WELCOME.to_owned()));
    list.push(Say::Heading(BUILDER_HEADING.to_owned()));
    list.push(Say::Para(BUILDER_ABOUT.to_owned()));
    assert(said(list@) =~= opening());
    (Setup { binlink: binlink_path, stage: Stage::BuilderQuestion }, list)
}

impl Setup {
    /// What the dialogue waits for.
    pub fn request(&self) -> (asked: Request)
        ensures
            asked@ == request(self@.stage),
    {
        match &self.stage {
            Stage::BuilderQuestion => Request::YesNo(ask_default_builder_instance()),
            Stage::UrlConfig => Request::LoadConfig,
            Stage::UrlPrompt(prompt) => Request::Ask(prompt.clone()),
            Stage::UrlWrite(url) => Request::Write(ConfigEntry::BldrUrl, url.clone()),
            Stage::OriginQuestion => Request::YesNo(ask_default_origin()),
            Stage::OriginConfig => Request::LoadConfig,
            Stage::OriginPrompt(prompt) => Request::Ask(prompt.clone()),
            Stage::OriginWrite(origin) => Request::Write(ConfigEntry::Origin, origin.clone()),
            Stage::KeyLookUp(origin) => Request::LookUpKey(origin.clone()),
            Stage::KeyQuestion(origin) => Request::YesNo(ask_create_origin(origin.as_str())),
            Stage::KeyGeneration(origin) => Request::GenerateKey(origin.clone()),
            Stage::TokenQuestion => Request::YesNo(ask_default_auth_token()),
            Stage::TokenConfig => Request::LoadConfig,
            Stage::TokenPrompt(prompt) => Request::Ask(prompt.clone()),
            Stage::TokenWrite(token) => Request::Write(ConfigEntry::AuthToken, token.clone()),
            Stage::SecretQuestion => Request::YesNo(ask_default_ctl_secret()),
            Stage::SecretConfig => Request::LoadConfig,
            Stage::SecretPrompt(prompt) => Request::Ask(prompt.clone()),
            Stage::SecretWrite(secret) => Request::Write(ConfigEntry::CtlSecret, secret.clone()),
            Stage::BinlinkQuestion(_) => Request::YesNo(
                YesNo {
                    question: "Add binlink directory to PATH?".to_owned(),
                    default: Some(true),
                },
            ),
            Stage::BinlinkRoot(_) => Request::AmIRoot,
            Stage::BinlinkPath(_) => Request::SetBinlinkPath,
            Stage::KeyFailed => Request::KeyFailed,
            Stage::Done => Request::Done,
        }
    }

    /// Takes the answer to the request. A text that is to be a URL is judged by `valid_url`.
    pub fn step(&mut self, event: Event) -> (list: Vec<Say>)
        ensures
            final(self)@.binlink == old(self)@.binlink,
            (final(self)@.stage, said(list@)) == respond(
                old(self)@.binlink,
                old(self)@.stage,
                event@,
                event@ is Text && url_parses(event@->Text_0),
            ),
    {
        let parses = match (&self.stage, &event) {
            (Stage::UrlPrompt(_), Event::Text(text)) => valid_url(text.as_str()).is_ok(),
            _ => false,
        };
        self.step_judged(event, parses)
    }

    /// Takes the answer to the request, where `url_parses` tells whether a text is a URL.
    pub fn step_judged(&mut self, event: Event, url_parses: bool) -> (list: Vec<Say>)
        ensures
            final(self)@.binlink == old(self)@.binlink,
            (final(self)@.stage, said(list@)) == respond(
                old(self)@.binlink,
                old(self)@.stage,
                event@,
                url_parses,
            ),
    {
        let mut stage = Stage::Done;
        std::mem::swap(&mut stage, &mut self.stage);
        let mut list: Vec<Say> = Vec::new();
        let ghost expected = respond(old(self)@.binlink, old(self)@.stage, event@, url_parses);
        assert(said(list@) =~= seq![]);
        let next = match (stage, event) {
            (Stage::BuilderQuestion, Event::Answer(yes)) => {
                list.push(Say::Br);
                if yes {
                    list.push(Say::Para(BUILDER_ENTER.to_owned()));
                    Stage::UrlConfig
                } else {
                    list.push(Say::Para(BUILDER_LATER.to_owned()));
                    assert(said(list@) =~= seq![SayView::Br, SayView::Para(BUILDER_LATER@)]);
                    begin_origin(&mut list)
                }
            },
            (Stage::UrlConfig, Event::Config(config, env)) => {
                let prompting = prompt_url(config, env);
                list = prompting.says;
                Stage::UrlPrompt(prompting.prompt)
            },
            (Stage::UrlPrompt(_), Event::Text(url)) => {
                if url_parses {
                    Stage::UrlWrite(url)
                } else {
                    list.push(Say::Br);
                    list.push(
                        Say::Fatal(url.concat(": is invalid, please provide a valid url")),
                    );
                    list.push(Say::Br);
                    Stage::UrlConfig
                }
            },
            (Stage::UrlWrite(_), Event::Written) => begin_origin(&mut list),
            (Stage::OriginQuestion, Event::Answer(yes)) => {
                if yes {
                    list.push(Say::Br);
                    list.push(Say::Para(ORIGIN_ENTER.to_owned()));
                    list.push(Say::Para(ORIGIN_RULES.to_owned()));
                    Stage::OriginConfig
                } else {
                    list.push(Say::Para(ORIGIN_LATER.to_owned()));
                    assert(said(list@) =~= seq![SayView::Para(ORIGIN_LATER@)]);
                    begin_token(&mut list)
                }
            },
            (Stage::OriginConfig, Event::Config(config, env)) => {
                let prompting = prompt_origin(config, env);
                list = prompting.says;
                Stage::OriginPrompt(prompting.prompt)
            },
            (Stage::OriginPrompt(_), Event::Text(origin)) => {
                if is_valid_origin_name(origin.as_str()) {
                    Stage::OriginWrite(origin)
                } else {
                    list.push(Say::Br);
                    list.push(Say::InvalidOrigin(origin));
                    list.push(Say::Br);
                    Stage::OriginConfig
                }
            },
            (Stage::OriginWrite(origin), Event::Written) => {
                list.push(Say::Br);
                Stage::KeyLookUp(origin)
            },
            (Stage::KeyLookUp(origin), Event::Key(pair)) => {
                if is_origin_in_cache(pair) {
                    list.push(
                        Say::Para(
                            "You already have an origin key for ".to_owned().concat(
                                origin.as_str(),
                            ).concat(" created and installed. Great work!"),
                        ),
                    );
                    assert(said(list@) =~= seq![
                        SayView::Para(
                            "You already have an origin key for "@ + origin@
                                + " created and installed. Great work!"@,
                        ),
                    ]);
                    begin_token(&mut list)
                } else {
                    list.push(Say::Heading(KEY_HEADING.to_owned()));
                    list.push(
                        Say::Para(
                            "It doesn't look like you have a signing key for the origin `".to_owned().concat(
                            origin.as_str()).concat(
                                "'. Without it, you won't be able to build new packages successfully.",
                            ),
                        ),
                    );
                    list.push(Say::Para(KEY_HOW.to_owned()));
                    list.push(Say::Para(KEY_MORE.to_owned()));
                    Stage::KeyQuestion(origin)
                }
            },
            (Stage::KeyQuestion(origin), Event::Answer(yes)) => {
                if yes {
                    Stage::KeyGeneration(origin)
                } else {
                    list.push(
                        Say::Para(
                            "You might want to create an origin key later with: `hab origin key generate ".to_owned().concat(
                            origin.as_str()).concat("'"),
                        ),
                    );
                    assert(said(list@) =~= seq![
                        SayView::Para(
                            "You might want to create an origin key later with: `hab origin key generate "@
                                + origin@ + "'"@,
                        ),
                    ]);
                    begin_token(&mut list)
                }
            },
            (Stage::KeyGeneration(_), Event::Generated(created)) => {
                list.push(Say::Br);
                if created {
                    assert(said(list@) =~= seq![SayView::Br]);
                    begin_token(&mut list)
                } else {
                    Stage::KeyFailed
                }
            },
            (Stage::TokenQuestion, Event::Answer(yes)) => {
                if yes {
                    list.push(Say::Br);
                    list.push(Say::Para(TOKEN_ENTER.to_owned()));
                    Stage::TokenConfig
                } else {
                    list.push(Say::Para(TOKEN_LATER.to_owned()));
                    assert(said(list@) =~= seq![SayView::Para(TOKEN_LATER@)]);
                    begin_secret(&mut list)
                }
            },
            (Stage::TokenConfig, Event::Config(config, env)) => {
                let prompting = prompt_auth_token(config, env);
                list = prompting.says;
                Stage::TokenPrompt(prompting.prompt)
            },
            (Stage::TokenPrompt(_), Event::Text(token)) => Stage::TokenWrite(token),
            (Stage::TokenWrite(_), Event::Written) => begin_secret(&mut list),
            (Stage::SecretQuestion, Event::Answer(yes)) => {
                if yes {
                    list.push(Say::Br);
                    list.push(Say::Para(SECRET_ENTER.to_owned()));
                    Stage::SecretConfig
                } else {
                    list.push(Say::Para(SECRET_LATER.to_owned()));
                    assert(said(list@) =~= seq![SayView::Para(SECRET_LATER@)]);
                    begin_binlink(&self.binlink, &mut list)
                }
            },
            (Stage::SecretConfig, Event::Config(config, env)) => {
                let prompting = prompt_ctl_secret(config, env);
                list = prompting.says;
                Stage::SecretPrompt(prompting.prompt)
            },
            (Stage::SecretPrompt(_), Event::Text(secret)) => Stage::SecretWrite(secret),
            (Stage::SecretWrite(_), Event::Written) => begin_binlink(&self.binlink, &mut list),
            (Stage::BinlinkQuestion(dir), Event::Answer(yes)) => {
                if yes {
                    Stage::BinlinkRoot(dir)
                } else {
                    list.push(Say::Para("Alright, maybe another time.".to_owned()));
                    assert(said(list@) =~= seq![SayView::Para("Alright, maybe another time."@)]);
                    end(&mut list)
                }
            },
            (Stage::BinlinkRoot(dir), Event::Root(root)) => {
                if root {
                    Stage::BinlinkPath(dir)
                } else {
                    list.push(Say::Fatal(BINLINK_NOT_ROOT.to_owned()));
                    assert(said(list@) =~= seq![SayView::Fatal(BINLINK_NOT_ROOT@)]);
                    end(&mut list)
                }
            },
            (Stage::BinlinkPath(dir), Event::BinlinkSet) => {
                list.push(
                    Say::Para(
                        dir.concat(
                            " has been added to your path. You will need to open a new console window for this added entry to take effect.",
                        ),
                    ),
                );
                assert(said(list@) =~= seq![
                    SayView::Para(
                        dir@
                            + " has been added to your path. You will need to open a new console window for this added entry to take effect."@,
                    ),
                ]);
                end(&mut list)
            },
            (stage, _) => stage,
        };
        self.stage = next;
        assert(said(list@) =~= expected.1);
        list
    }
}

} // verus!
