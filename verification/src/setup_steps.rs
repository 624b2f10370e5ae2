//! Laws of the single steps of the setup dialogue, over the answers and what is asked and said.

use crate::prompt::{
    auth_token_prompt, ctl_secret_prompt, origin_prompt, url_prompt, ConfigView, EnvironmentView,
    LatestPair, PromptView, SayView, YesNoView,
};
use crate::setup::{
    opening, request, respond, ConfigEntry, Event, EventView, Request, RequestView, StageView,
};
use crate::setup_laws::{law_only_valid_values_are_written, stage_after};
use crate::setup_text::{
    BINLINK_ABOUT, BINLINK_HEADING, BINLINK_NOT_ROOT, BUILDER_ABOUT, BUILDER_ENTER, BUILDER_HEADING, BUILDER_LATER, END, END_HEADING, KEY_HEADING, KEY_HOW, KEY_MORE, ORIGIN_ABOUT, ORIGIN_ENTER, ORIGIN_HEADING, ORIGIN_LATER, ORIGIN_MORE, ORIGIN_RULES, ORIGIN_WHY, SECRET_ABOUT, SECRET_ENTER, SECRET_HEADING, SECRET_LATER, TITLE, TOKEN_ENTER, TOKEN_HEADING, TOKEN_HOW, TOKEN_LATER, TOKEN_MORE, TOKEN_SAVE, TOKEN_WHY, WELCOME,
};
use vstd::prelude::*;

verus! {

/// A request says what it holds.
pub proof fn law_request_says_what_it_holds(r: Request)
    ensures
        r matches Request::YesNo(asked) ==> r@ == RequestView::YesNo(asked@),
        r is LoadConfig ==> r@ == RequestView::LoadConfig,
        r matches Request::Ask(prompt) ==> r@ == RequestView::Ask(prompt@),
        r matches Request::Write(entry, value) ==> r@ == RequestView::Write(entry, value@),
        r matches Request::LookUpKey(origin) ==> r@ == RequestView::LookUpKey(origin@),
        r matches Request::GenerateKey(origin) ==> r@ == RequestView::GenerateKey(origin@),
        r is AmIRoot ==> r@ == RequestView::AmIRoot,
        r is SetBinlinkPath ==> r@ == RequestView::SetBinlinkPath,
        r is KeyFailed ==> r@ == RequestView::KeyFailed,
        r is Done ==> r@ == RequestView::Done,
{
}

/// An answer says what it holds.
pub proof fn law_answer_says_what_it_holds(e: Event)
    ensures
        e matches Event::Answer(yes) ==> e@ == EventView::Answer(yes),
        e matches Event::Config(config, env) ==> e@ == EventView::Config(config@, env@),
        e matches Event::Text(text) ==> e@ == EventView::Text(text@),
        e is Written ==> e@ == EventView::Written,
        e matches Event::Key(pair) ==> e@ == EventView::Key(pair),
        e matches Event::Generated(created) ==> e@ == EventView::Generated(created),
        e matches Event::Root(root) ==> e@ == EventView::Root(root),
        e is BinlinkSet ==> e@ == EventView::BinlinkSet,
{
}

/// What each stage of the dialogue asks for: its own question with its own default, its own entry
/// with the value to be written, or the origin whose keys it is about.
pub proof fn law_each_stage_asks_its_own(prompt: PromptView, text: Seq<char>)
    ensures
        request(StageView::BuilderQuestion) == RequestView::YesNo(
            YesNoView {
                question: "Connect to an on-premises Builder instance?"@,
                default: Some(false),
            },
        ),
        request(StageView::OriginQuestion) == RequestView::YesNo(
            YesNoView { question: "Set up a default origin?"@, default: Some(true) },
        ),
        request(StageView::KeyQuestion(text)) == RequestView::YesNo(
            YesNoView {
                question: "Create an origin key for `"@ + text + "'?"@,
                default: Some(true),
            },
        ),
        request(StageView::TokenQuestion) == RequestView::YesNo(
            YesNoView {
                question: "Set up a default Builder personal access token?"@,
                default: Some(false),
            },
        ),
        request(StageView::SecretQuestion) == RequestView::YesNo(
            YesNoView {
                question: "Set up a default Habitat Supervisor control gateway secret?"@,
                default: Some(false),
            },
        ),
        request(StageView::BinlinkQuestion(text)) == RequestView::YesNo(
            YesNoView { question: "Add binlink directory to PATH?"@, default: Some(true) },
        ),
        request(StageView::UrlConfig) == RequestView::LoadConfig,
        request(StageView::OriginConfig) == RequestView::LoadConfig,
        request(StageView::TokenConfig) == RequestView::LoadConfig,
        request(StageView::SecretConfig) == RequestView::LoadConfig,
        request(StageView::UrlPrompt(prompt)) == RequestView::Ask(prompt),
        request(StageView::OriginPrompt(prompt)) == RequestView::Ask(prompt),
        request(StageView::TokenPrompt(prompt)) == RequestView::Ask(prompt),
        request(StageView::SecretPrompt(prompt)) == RequestView::Ask(prompt),
        request(StageView::UrlWrite(text)) == RequestView::Write(ConfigEntry::BldrUrl, text),
        request(StageView::OriginWrite(text)) == RequestView::Write(ConfigEntry::Origin, text),
        request(StageView::TokenWrite(text)) == RequestView::Write(ConfigEntry::AuthToken, text),
        request(StageView::SecretWrite(text)) == RequestView::Write(ConfigEntry::CtlSecret, text),
        request(StageView::KeyLookUp(text)) == RequestView::LookUpKey(text),
        request(StageView::KeyGeneration(text)) == RequestView::GenerateKey(text),
        request(StageView::BinlinkRoot(text)) == RequestView::AmIRoot,
        request(StageView::BinlinkPath(text)) == RequestView::SetBinlinkPath,
        request(StageView::KeyFailed) == RequestView::KeyFailed,
        request(StageView::Done) == RequestView::Done,
{
}

/// The dialogue opens with its title, a welcome and the section on the builder.
pub proof fn law_dialogue_opens_with_the_builder()
    ensures
        opening() == seq![
            SayView::Br,
            SayView::Title(TITLE@),
            SayView::Para(WELCOME@),
            SayView::Heading(BUILDER_HEADING@),
            SayView::Para(BUILDER_ABOUT@),
        ],
{
}

/// A configuration that is loaded leads to the question for the entry that the section is about,
/// with the remark and the default that go with it.
pub proof fn law_loaded_configuration_leads_to_the_question(
    binlink: Option<Seq<char>>,
    parses: bool,
    config: ConfigView,
    env: EnvironmentView,
)
    ensures
        ({
            let loaded = EventView::Config(config, env);
            &&& respond(binlink, StageView::UrlConfig, loaded, parses) == (
                StageView::UrlPrompt(url_prompt(config, env).1),
                url_prompt(config, env).0,
            )
            &&& respond(binlink, StageView::OriginConfig, loaded, parses) == (
                StageView::OriginPrompt(origin_prompt(config, env).1),
                origin_prompt(config, env).0,
            )
            &&& respond(binlink, StageView::TokenConfig, loaded, parses) == (
                StageView::TokenPrompt(auth_token_prompt(config, env).1),
                auth_token_prompt(config, env).0,
            )
            &&& respond(binlink, StageView::SecretConfig, loaded, parses) == (
                StageView::SecretPrompt(ctl_secret_prompt(config, env).1),
                ctl_secret_prompt(config, env).0,
            )
        }),
{
}

/// A text that is given for the origin is written exactly where it has 1 to 255 characters, all of
/// them lowercase letters, digits, `_` and `-` and the first neither `_` nor `-`; otherwise it is
/// complained of by name and asked for again.
pub proof fn law_origin_is_accepted_by_its_characters(
    binlink: Option<Seq<char>>,
    parses: bool,
    prompt: PromptView,
    text: Seq<char>,
)
    ensures
        ({
            let accepted = {
                &&& 1 <= text.len() <= 255
                &&& text[0] != '_' && text[0] != '-'
                &&& forall|i: int|
                    0 <= i < text.len() ==> {
                        ||| 'a' <= #[trigger] text[i] <= 'z'
                        ||| '0' <= text[i] <= '9'
                        ||| text[i] == '_'
                        ||| text[i] == '-'
                    }
            };
            let (next, says) = respond(
                binlink,
                StageView::OriginPrompt(prompt),
                EventView::Text(text),
                parses,
            );
            if accepted {
                next == StageView::OriginWrite(text) && says.len() == 0
            } else {
                &&& next == StageView::OriginConfig
                &&& says == seq![SayView::Br, SayView::InvalidOrigin(text), SayView::Br]
            }
        }),
{
    crate::ident_laws::law_origin_names_by_their_characters(text);
}

/// Whatever the answers, an origin that the dialogue wants written, or keys for, has 1 to 255
/// characters, all of them lowercase letters, digits, `_` and `-` and the first neither `_` nor `-`.
pub proof fn law_origin_that_is_written_has_only_its_characters(
    binlink: Option<Seq<char>>,
    events: Seq<EventView>,
    origin: Seq<char>,
)
    requires
        ({
            let asked = request(stage_after(binlink, events));
            ||| asked == RequestView::Write(ConfigEntry::Origin, origin)
            ||| asked == RequestView::LookUpKey(origin)
            ||| asked == RequestView::GenerateKey(origin)
        }),
    ensures
        1 <= origin.len() <= 255,
        origin[0] != '_' && origin[0] != '-',
        forall|i: int|
            0 <= i < origin.len() ==> {
                ||| 'a' <= #[trigger] origin[i] <= 'z'
                ||| '0' <= origin[i] <= '9'
                ||| origin[i] == '_'
                ||| origin[i] == '-'
            },
{
    law_only_valid_values_are_written(binlink, events);
    crate::ident_laws::law_origin_names_by_their_characters(origin);
}

/// The section on the builder, answer by answer: it is asked for only where that is wanted, again and
/// with a complaint until it is a URL, and once it is written, or where it is declined, the section on
/// the origin opens.
pub proof fn law_section_on_the_builder(
    binlink: Option<Seq<char>>,
    parses: bool,
    prompt: PromptView,
    text: Seq<char>,
)
    ensures
        respond(binlink, StageView::BuilderQuestion, EventView::Answer(true), parses).0 == StageView::UrlConfig,
        respond(binlink, StageView::BuilderQuestion, EventView::Answer(true), parses).1 == seq![
                SayView::Br,
                SayView::Para(BUILDER_ENTER@),
            ],
        respond(binlink, StageView::BuilderQuestion, EventView::Answer(false), parses).0 == StageView::OriginQuestion,
        respond(binlink, StageView::BuilderQuestion, EventView::Answer(false), parses).1 == seq![
                SayView::Br,
                SayView::Para(BUILDER_LATER@),
                SayView::Heading(ORIGIN_HEADING@),
                SayView::Para(ORIGIN_ABOUT@),
                SayView::Para(ORIGIN_WHY@),
                SayView::Para(ORIGIN_MORE@),
            ],
        respond(binlink, StageView::UrlPrompt(prompt), EventView::Text(text), true).0 == StageView::UrlWrite(text),
        respond(binlink, StageView::UrlPrompt(prompt), EventView::Text(text), true).1 == Seq::<SayView>::empty(),
        respond(binlink, StageView::UrlPrompt(prompt), EventView::Text(text), false).0 == StageView::UrlConfig,
        respond(binlink, StageView::UrlPrompt(prompt), EventView::Text(text), false).1 == seq![
                SayView::Br,
                SayView::Fatal(text + ": is invalid, please provide a valid url"@),
                SayView::Br,
            ],
        respond(binlink, StageView::UrlWrite(text), EventView::Written, parses).0 == StageView::OriginQuestion,
        respond(binlink, StageView::UrlWrite(text), EventView::Written, parses).1 == seq![
                SayView::Heading(ORIGIN_HEADING@),
                SayView::Para(ORIGIN_ABOUT@),
                SayView::Para(ORIGIN_WHY@),
                SayView::Para(ORIGIN_MORE@),
            ],
{
    assert(respond(binlink, StageView::BuilderQuestion, EventView::Answer(true), parses).1 =~= seq![
                SayView::Br,
                SayView::Para(BUILDER_ENTER@),
            ]);
    assert(respond(binlink, StageView::BuilderQuestion, EventView::Answer(false), parses).1 =~= seq![
                SayView::Br,
                SayView::Para(BUILDER_LATER@),
                SayView::Heading(ORIGIN_HEADING@),
                SayView::Para(ORIGIN_ABOUT@),
                SayView::Para(ORIGIN_WHY@),
                SayView::Para(ORIGIN_MORE@),
            ]);
    assert(respond(binlink, StageView::UrlPrompt(prompt), EventView::Text(text), true).1 =~= Seq::<SayView>::empty());
    assert(respond(binlink, StageView::UrlPrompt(prompt), EventView::Text(text), false).1 =~= seq![
                SayView::Br,
                SayView::Fatal(text + ": is invalid, please provide a valid url"@),
                SayView::Br,
            ]);
    assert(respond(binlink, StageView::UrlWrite(text), EventView::Written, parses).1 =~= seq![
                SayView::Heading(ORIGIN_HEADING@),
                SayView::Para(ORIGIN_ABOUT@),
                SayView::Para(ORIGIN_WHY@),
                SayView::Para(ORIGIN_MORE@),
            ]);
}

/// The section on the origin, answer by answer: where a default is declined, the section on the access
/// token opens; otherwise an origin that is written has its keys looked up, and where they lack a
/// secret key their creation is offered, carried out if wanted, and ends the dialogue if it fails.
pub proof fn law_section_on_the_origin(
    binlink: Option<Seq<char>>,
    parses: bool,
    text: Seq<char>,
)
    ensures
        respond(binlink, StageView::OriginQuestion, EventView::Answer(true), parses).0 == StageView::OriginConfig,
        respond(binlink, StageView::OriginQuestion, EventView::Answer(true), parses).1 == seq![
                SayView::Br,
                SayView::Para(ORIGIN_ENTER@),
                SayView::Para(ORIGIN_RULES@),
            ],
        respond(binlink, StageView::OriginQuestion, EventView::Answer(false), parses).0 == StageView::TokenQuestion,
        respond(binlink, StageView::OriginQuestion, EventView::Answer(false), parses).1 == seq![
                SayView::Para(ORIGIN_LATER@),
                SayView::Heading(TOKEN_HEADING@),
                SayView::Para(TOKEN_WHY@),
                SayView::Para(TOKEN_HOW@),
                SayView::Para(TOKEN_SAVE@),
                SayView::Para(TOKEN_MORE@),
            ],
        respond(binlink, StageView::OriginWrite(text), EventView::Written, parses).0 == StageView::KeyLookUp(text),
        respond(binlink, StageView::OriginWrite(text), EventView::Written, parses).1 == seq![
                SayView::Br,
            ],
        respond(binlink, StageView::KeyLookUp(text), EventView::Key(LatestPair::Found { secret: true }), parses).0 == StageView::TokenQuestion,
        respond(binlink, StageView::KeyLookUp(text), EventView::Key(LatestPair::Found { secret: true }), parses).1 == seq![
                SayView::Para("You already have an origin key for "@ + text
                        + " created and installed. Great work!"@),
                SayView::Heading(TOKEN_HEADING@),
                SayView::Para(TOKEN_WHY@),
                SayView::Para(TOKEN_HOW@),
                SayView::Para(TOKEN_SAVE@),
                SayView::Para(TOKEN_MORE@),
            ],
        respond(binlink, StageView::KeyLookUp(text), EventView::Key(LatestPair::Found { secret: false }), parses).0 == StageView::KeyQuestion(text),
        respond(binlink, StageView::KeyLookUp(text), EventView::Key(LatestPair::Found { secret: false }), parses).1 == seq![
                SayView::Heading(KEY_HEADING@),
                SayView::Para("It doesn't look like you have a signing key for the origin `"@ + text
                        + "'. Without it, you won't be able to build new packages successfully."@),
                SayView::Para(KEY_HOW@),
                SayView::Para(KEY_MORE@),
            ],
        respond(binlink, StageView::KeyLookUp(text), EventView::Key(LatestPair::Missing), parses).0 == StageView::KeyQuestion(text),
        respond(binlink, StageView::KeyLookUp(text), EventView::Key(LatestPair::Missing), parses).1 == seq![
                SayView::Heading(KEY_HEADING@),
                SayView::Para("It doesn't look like you have a signing key for the origin `"@ + text
                        + "'. Without it, you won't be able to build new packages successfully."@),
                SayView::Para(KEY_HOW@),
                SayView::Para(KEY_MORE@),
            ],
        respond(binlink, StageView::KeyQuestion(text), EventView::Answer(true), parses).0 == StageView::KeyGeneration(text),
        respond(binlink, StageView::KeyQuestion(text), EventView::Answer(true), parses).1 == Seq::<SayView>::empty(),
        respond(binlink, StageView::KeyQuestion(text), EventView::Answer(false), parses).0 == StageView::TokenQuestion,
        respond(binlink, StageView::KeyQuestion(text), EventView::Answer(false), parses).1 == seq![
                SayView::Para("You might want to create an origin key later with: `hab origin key generate "@
                        + text + "'"@),
                SayView::Heading(TOKEN_HEADING@),
                SayView::Para(TOKEN_WHY@),
                SayView::Para(TOKEN_HOW@),
                SayView::Para(TOKEN_SAVE@),
                SayView::Para(TOKEN_MORE@),
            ],
        respond(binlink, StageView::KeyGeneration(text), EventView::Generated(true), parses).0 == StageView::TokenQuestion,
        respond(binlink, StageView::KeyGeneration(text), EventView::Generated(true), parses).1 == seq![
                SayView::Br,
                SayView::Heading(TOKEN_HEADING@),
                SayView::Para(TOKEN_WHY@),
                SayView::Para(TOKEN_HOW@),
                SayView::Para(TOKEN_SAVE@),
                SayView::Para(TOKEN_MORE@),
            ],
        respond(binlink, StageView::KeyGeneration(text), EventView::Generated(false), parses).0 == StageView::KeyFailed,
        respond(binlink, StageView::KeyGeneration(text), EventView::Generated(false), parses).1 == seq![
                SayView::Br,
            ],
{
    assert(respond(binlink, StageView::OriginQuestion, EventView::Answer(true), parses).1 =~= seq![
                SayView::Br,
                SayView::Para(ORIGIN_ENTER@),
                SayView::Para(ORIGIN_RULES@),
            ]);
    assert(respond(binlink, StageView::OriginQuestion, EventView::Answer(false), parses).1 =~= seq![
                SayView::Para(ORIGIN_LATER@),
                SayView::Heading(TOKEN_HEADING@),
                SayView::Para(TOKEN_WHY@),
                SayView::Para(TOKEN_HOW@),
                SayView::Para(TOKEN_SAVE@),
                SayView::Para(TOKEN_MORE@),
            ]);
    assert(respond(binlink, StageView::OriginWrite(text), EventView::Written, parses).1 =~= seq![
                SayView::Br,
            ]);
    assert(respond(binlink, StageView::KeyLookUp(text), EventView::Key(LatestPair::Found { secret: true }), parses).1 =~= seq![
                SayView::Para("You already have an origin key for "@ + text
                        + " created and installed. Great work!"@),
                SayView::Heading(TOKEN_HEADING@),
                SayView::Para(TOKEN_WHY@),
                SayView::Para(TOKEN_HOW@),
                SayView::Para(TOKEN_SAVE@),
                SayView::Para(TOKEN_MORE@),
            ]);
    assert(respond(binlink, StageView::KeyLookUp(text), EventView::Key(LatestPair::Found { secret: false }), parses).1 =~= seq![
                SayView::Heading(KEY_HEADING@),
                SayView::Para("It doesn't look like you have a signing key for the origin `"@ + text
                        + "'. Without it, you won't be able to build new packages successfully."@),
                SayView::Para(KEY_HOW@),
                SayView::Para(KEY_MORE@),
            ]);
    assert(respond(binlink, StageView::KeyLookUp(text), EventView::Key(LatestPair::Missing), parses).1 =~= seq![
                SayView::Heading(KEY_HEADING@),
                SayView::Para("It doesn't look like you have a signing key for the origin `"@ + text
                        + "'. Without it, you won't be able to build new packages successfully."@),
                SayView::Para(KEY_HOW@),
                SayView::Para(KEY_MORE@),
            ]);
    assert(respond(binlink, StageView::KeyQuestion(text), EventView::Answer(true), parses).1 =~= Seq::<SayView>::empty());
    assert(respond(binlink, StageView::KeyQuestion(text), EventView::Answer(false), parses).1 =~= seq![
                SayView::Para("You might want to create an origin key later with: `hab origin key generate "@
                        + text + "'"@),
                SayView::Heading(TOKEN_HEADING@),
                SayView::Para(TOKEN_WHY@),
                SayView::Para(TOKEN_HOW@),
                SayView::Para(TOKEN_SAVE@),
                SayView::Para(TOKEN_MORE@),
            ]);
    assert(respond(binlink, StageView::KeyGeneration(text), EventView::Generated(true), parses).1 =~= seq![
                SayView::Br,
                SayView::Heading(TOKEN_HEADING@),
                SayView::Para(TOKEN_WHY@),
                SayView::Para(TOKEN_HOW@),
                SayView::Para(TOKEN_SAVE@),
                SayView::Para(TOKEN_MORE@),
            ]);
    assert(respond(binlink, StageView::KeyGeneration(text), EventView::Generated(false), parses).1 =~= seq![
                SayView::Br,
            ]);
}

/// The sections on the access token and the secret, answer by answer: each is asked for only where
/// that is wanted, and written as it is given.
pub proof fn law_sections_on_token_and_secret(
    binlink: Option<Seq<char>>,
    parses: bool,
    prompt: PromptView,
    text: Seq<char>,
)
    ensures
        respond(binlink, StageView::TokenQuestion, EventView::Answer(true), parses).0 == StageView::TokenConfig,
        respond(binlink, StageView::TokenQuestion, EventView::Answer(true), parses).1 == seq![
                SayView::Br,
                SayView::Para(TOKEN_ENTER@),
            ],
        respond(binlink, StageView::TokenQuestion, EventView::Answer(false), parses).0 == StageView::SecretQuestion,
        respond(binlink, StageView::TokenQuestion, EventView::Answer(false), parses).1 == seq![
                SayView::Para(TOKEN_LATER@),
                SayView::Heading(SECRET_HEADING@),
                SayView::Para(SECRET_ABOUT@),
            ],
        respond(binlink, StageView::TokenPrompt(prompt), EventView::Text(text), parses).0 == StageView::TokenWrite(text),
        respond(binlink, StageView::TokenPrompt(prompt), EventView::Text(text), parses).1 == Seq::<SayView>::empty(),
        respond(binlink, StageView::TokenWrite(text), EventView::Written, parses).0 == StageView::SecretQuestion,
        respond(binlink, StageView::TokenWrite(text), EventView::Written, parses).1 == seq![
                SayView::Heading(SECRET_HEADING@),
                SayView::Para(SECRET_ABOUT@),
            ],
        respond(binlink, StageView::SecretQuestion, EventView::Answer(true), parses).0 == StageView::SecretConfig,
        respond(binlink, StageView::SecretQuestion, EventView::Answer(true), parses).1 == seq![
                SayView::Br,
                SayView::Para(SECRET_ENTER@),
            ],
        respond(binlink, StageView::SecretPrompt(prompt), EventView::Text(text), parses).0 == StageView::SecretWrite(text),
        respond(binlink, StageView::SecretPrompt(prompt), EventView::Text(text), parses).1 == Seq::<SayView>::empty(),
{
    assert(respond(binlink, StageView::TokenQuestion, EventView::Answer(true), parses).1 =~= seq![
                SayView::Br,
                SayView::Para(TOKEN_ENTER@),
            ]);
    assert(respond(binlink, StageView::TokenQuestion, EventView::Answer(false), parses).1 =~= seq![
                SayView::Para(TOKEN_LATER@),
                SayView::Heading(SECRET_HEADING@),
                SayView::Para(SECRET_ABOUT@),
            ]);
    assert(respond(binlink, StageView::TokenPrompt(prompt), EventView::Text(text), parses).1 =~= Seq::<SayView>::empty());
    assert(respond(binlink, StageView::TokenWrite(text), EventView::Written, parses).1 =~= seq![
                SayView::Heading(SECRET_HEADING@),
                SayView::Para(SECRET_ABOUT@),
            ]);
    assert(respond(binlink, StageView::SecretQuestion, EventView::Answer(true), parses).1 =~= seq![
                SayView::Br,
                SayView::Para(SECRET_ENTER@),
            ]);
    assert(respond(binlink, StageView::SecretPrompt(prompt), EventView::Text(text), parses).1 =~= Seq::<SayView>::empty());
}

/// The section on binlinks, answer by answer: the search path is set exactly where that is wanted and
/// may be done, and the dialogue ends in any case.
pub proof fn law_section_on_binlinks(
    binlink: Option<Seq<char>>,
    parses: bool,
    text: Seq<char>,
)
    ensures
        respond(binlink, StageView::BinlinkQuestion(text), EventView::Answer(true), parses).0 == StageView::BinlinkRoot(text),
        respond(binlink, StageView::BinlinkQuestion(text), EventView::Answer(true), parses).1 == Seq::<SayView>::empty(),
        respond(binlink, StageView::BinlinkQuestion(text), EventView::Answer(false), parses).0 == StageView::Done,
        respond(binlink, StageView::BinlinkQuestion(text), EventView::Answer(false), parses).1 == seq![
                SayView::Para("Alright, maybe another time."@),
                SayView::Heading(END_HEADING@),
                SayView::Para(END@),
            ],
        respond(binlink, StageView::BinlinkRoot(text), EventView::Root(true), parses).0 == StageView::BinlinkPath(text),
        respond(binlink, StageView::BinlinkRoot(text), EventView::Root(true), parses).1 == Seq::<SayView>::empty(),
        respond(binlink, StageView::BinlinkRoot(text), EventView::Root(false), parses).0 == StageView::Done,
        respond(binlink, StageView::BinlinkRoot(text), EventView::Root(false), parses).1 == seq![
                SayView::Fatal(BINLINK_NOT_ROOT@),
                SayView::Heading(END_HEADING@),
                SayView::Para(END@),
            ],
        respond(binlink, StageView::BinlinkPath(text), EventView::BinlinkSet, parses).0 == StageView::Done,
        respond(binlink, StageView::BinlinkPath(text), EventView::BinlinkSet, parses).1 == seq![
                SayView::Para(text
                        + " has been added to your path. You will need to open a new console window for this added entry to take effect."@),
                SayView::Heading(END_HEADING@),
                SayView::Para(END@),
            ],
{
    assert(respond(binlink, StageView::BinlinkQuestion(text), EventView::Answer(true), parses).1 =~= Seq::<SayView>::empty());
    assert(respond(binlink, StageView::BinlinkQuestion(text), EventView::Answer(false), parses).1 =~= seq![
                SayView::Para("Alright, maybe another time."@),
                SayView::Heading(END_HEADING@),
                SayView::Para(END@),
            ]);
    assert(respond(binlink, StageView::BinlinkRoot(text), EventView::Root(true), parses).1 =~= Seq::<SayView>::empty());
    assert(respond(binlink, StageView::BinlinkRoot(text), EventView::Root(false), parses).1 =~= seq![
                SayView::Fatal(BINLINK_NOT_ROOT@),
                SayView::Heading(END_HEADING@),
                SayView::Para(END@),
            ]);
    assert(respond(binlink, StageView::BinlinkPath(text), EventView::BinlinkSet, parses).1 =~= seq![
                SayView::Para(text
                        + " has been added to your path. You will need to open a new console window for this added entry to take effect."@),
                SayView::Heading(END_HEADING@),
                SayView::Para(END@),
            ]);
}

/// The section on the secret ends with the section on binlinks where there is a directory for them,
/// and with the end of the dialogue where there is none.
pub proof fn law_binlinks_follow_where_there_is_a_directory(
    parses: bool,
    text: Seq<char>,
    dir: Seq<char>,
)
    ensures
        respond(Some(dir), StageView::SecretQuestion, EventView::Answer(false), parses) == (
            StageView::BinlinkQuestion(dir),
            seq![
                SayView::Para(SECRET_LATER@),
                SayView::Heading(BINLINK_HEADING@),
                SayView::Para(BINLINK_ABOUT@),
            ],
        ),
        respond(Some(dir), StageView::SecretWrite(text), EventView::Written, parses) == (
            StageView::BinlinkQuestion(dir),
            seq![
                SayView::Heading(BINLINK_HEADING@),
                SayView::Para(BINLINK_ABOUT@),
            ],
        ),
        respond(None, StageView::SecretQuestion, EventView::Answer(false), parses) == (
            StageView::Done,
            seq![
                SayView::Para(SECRET_LATER@),
                SayView::Heading(END_HEADING@),
                SayView::Para(END@),
            ],
        ),
        respond(None, StageView::SecretWrite(text), EventView::Written, parses) == (
            StageView::Done,
            seq![
                SayView::Heading(END_HEADING@),
                SayView::Para(END@),
            ],
        ),
{
    let declined = EventView::Answer(false);
    let secret = StageView::SecretWrite(text);
    assert(respond(Some(dir), StageView::SecretQuestion, declined, parses).1 =~= seq![
                SayView::Para(SECRET_LATER@),
                SayView::Heading(BINLINK_HEADING@),
                SayView::Para(BINLINK_ABOUT@),
            ]);
    assert(respond(Some(dir), secret, EventView::Written, parses).1 =~= seq![
                SayView::Heading(BINLINK_HEADING@),
                SayView::Para(BINLINK_ABOUT@),
            ]);
    assert(respond(None, StageView::SecretQuestion, declined, parses).1 =~= seq![
                SayView::Para(SECRET_LATER@),
                SayView::Heading(END_HEADING@),
                SayView::Para(END@),
            ]);
    assert(respond(None, secret, EventView::Written, parses).1 =~= seq![
                SayView::Heading(END_HEADING@),
                SayView::Para(END@),
            ]);
}

/// The words of the dialogue.
pub proof fn law_words_of_the_dialogue()
    ensures
        TITLE@ == "Habitat CLI Setup"@,
        WELCOME@ == "Welcome to hab setup. Let's get started."@,
        BUILDER_HEADING@ == "Habitat Builder Instance"@,
        BUILDER_ABOUT@ == "Habitat packages can be stored in either the public builder instance \
             https://bldr.habitat.sh or in an on-premises builder depot instance. If you do not set a \
             builder URL now, the `hab` CLI will default to using the public builder instance. This \
             can be overridden at any time after setup."@,
        BUILDER_ENTER@ == "Enter the url of your builder instance. The default is https://bldr.habitat.sh. The \
             configured endpoint can be overridden any time with a `HAB_BLDR_URL` environment \
             variable or a --url flag on the cli."@,
        BUILDER_LATER@ == "Alright, maybe another time. You can also set a `HAB_BLDR_URL` environment variable or \
             pass the `--url` flag to the cli."@,
        ORIGIN_HEADING@ == "Set up a default origin"@,
        ORIGIN_ABOUT@ == "Every package in Habitat belongs to an origin, which indicates the person or \
             organization responsible for maintaining that package. Each origin also has a key used \
             to cryptographically sign packages in that origin."@,
        ORIGIN_WHY@ == "Selecting a default origin tells package building operations such as 'hab pkg build' \
             what key should be used to sign the packages produced. If you do not set a default \
             origin now, you will have to tell package building commands each time what origin to use."@,
        ORIGIN_MORE@ == "For more information on origins and how they are used in building packages, please \
             consult the docs at https://www.habitat.sh/docs/create-packages-build/"@,
        ORIGIN_ENTER@ == "Enter the name of your origin. If you plan to publish your packages publicly, we \
             recommend that you select one that is not already in use on the Habitat build service \
             found at https://bldr.habitat.sh/."@,
        ORIGIN_RULES@ == "Origins must begin with a lowercase letter or number. Allowed characters include \
             lowercase letters, numbers, _, -. No more than 255 characters."@,
        ORIGIN_LATER@ == "Alright, maybe another time. You can also set a `HAB_ORIGIN` environment variable when \
             using the cli."@,
        KEY_HEADING@ == "Create origin key pair"@,
        KEY_HOW@ == "You can either create a new signing key now, or, if you are building packages for an \
             origin that already exists, ask the owner to give you the signing key."@,
        KEY_MORE@ == "For more information on the use of origin keys, please consult the documentation at \
             https://www.habitat.sh/docs/concepts-keys/#origin-keys"@,
        TOKEN_HEADING@ == "Habitat Personal Access Token"@,
        TOKEN_WHY@ == "While you can perform tasks like building and running Habitat packages without needing \
             to authenticate with Builder, some operations like uploading your packages to Builder, \
             or checking the status of your build jobs from the Habitat client will require you to \
             use an access token."@,
        TOKEN_HOW@ == "The Habitat Personal Access Token can be generated via the Builder  Profile page \
             (https://bldr.habitat.sh/#/profile). Once you have generated your token, you can enter \
             it here."@,
        TOKEN_SAVE@ == "If you would like to save your token for use by the Habitat client, please enter your \
             access token. Otherwise, just enter No."@,
        TOKEN_MORE@ == "For more information on using Builder, please read the documentation at \
             https://www.habitat.sh/docs/using-builder/"@,
        TOKEN_ENTER@ == "Enter your Habitat Personal Access Token."@,
        TOKEN_LATER@ == "Alright, maybe another time. You can also set a `HAB_AUTH_TOKEN` environment variable or \
             pass the `--auth` flag to the cli."@,
        SECRET_HEADING@ == "Supervisor Control Gateway Secret"@,
        SECRET_ABOUT@ == "The Supervisor control gateway secret is used to authenticate hab client commands to a \
             Supervisor. When a new Supervisor is created, a unique secret is generated automatically \
             and stored locally in a file: `/hab/sup/default/CTL_SECRET`. When issuing commands to a \
             local Supervisor, the control gateway secret is retrieved from this file. Typically, a \
             default Supervisor control gateway secret would only be needed if you wish to send \
             commands to a remote supervisor, in which case, a default control gateway secret would \
             need to match the one already in use by the remote supervisor."@,
        SECRET_ENTER@ == "Enter your Habitat Supervisor control gateway secret."@,
        SECRET_LATER@ == "Alright, maybe another time. You can also set a `HAB_CTL_SECRET` environment variable \
             when issuing commands to a remote Supervisor."@,
        BINLINK_HEADING@ == "Habitat Binlink Path"@,
        BINLINK_ABOUT@ == "The `hab` command-line tool can create binlinks for package binaries in the 'PATH' when \
             using the 'pkg binlink' or 'pkg install --binlink' commands. By default, Habitat will \
             create these binlinks in the '/hab/bin' directory. This directory will always be \
             included in your 'PATH' when inside a Studio environment. However, you will want this \
             directory on your machine's persistent 'PATH' in order to access binlinks outside of a \
             Studio."@,
        BINLINK_NOT_ROOT@ == "You must be in an elevated console running as an administrator in order to set the \
             machine's PATH. Please open a new console running as administrator and run setup again \
             to add the Habitat binlink directory to your path."@,
        END_HEADING@ == "CLI Setup Complete"@,
        END@ == "That's all for now. Thanks for using Habitat!"@,
{
}

/// Only the answer that a stage waits for does anything, and nothing does once the keys could not be
/// created or the dialogue is over.
pub proof fn law_only_the_awaited_answer_counts(
    binlink: Option<Seq<char>>,
    stage: StageView,
    event: EventView,
    parses: bool,
)
    requires
        match stage {
            StageView::BuilderQuestion | StageView::OriginQuestion | StageView::KeyQuestion(_)
            | StageView::TokenQuestion | StageView::SecretQuestion
            | StageView::BinlinkQuestion(_) => !(event is Answer),
            StageView::UrlConfig | StageView::OriginConfig | StageView::TokenConfig
            | StageView::SecretConfig => !(event is Config),
            StageView::UrlPrompt(_) | StageView::OriginPrompt(_) | StageView::TokenPrompt(_)
            | StageView::SecretPrompt(_) => !(event is Text),
            StageView::UrlWrite(_) | StageView::OriginWrite(_) | StageView::TokenWrite(_)
            | StageView::SecretWrite(_) => !(event is Written),
            StageView::KeyLookUp(_) => !(event is Key),
            StageView::KeyGeneration(_) => !(event is Generated),
            StageView::BinlinkRoot(_) => !(event is Root),
            StageView::BinlinkPath(_) => !(event is BinlinkSet),
            StageView::KeyFailed | StageView::Done => true,
        },
    ensures
        respond(binlink, stage, event, parses).0 == stage,
        respond(binlink, stage, event, parses).1.len() == 0,
{
}

} // verus!
