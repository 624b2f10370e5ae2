//! Laws of the setup dialogue as a whole.

use crate::ident::valid_origin_name;
use crate::prompt::{url_parses, url_prompt, origin_prompt, ConfigView, EnvironmentView, LatestPair};
use crate::setup::{request, respond, ConfigEntry, EventView, RequestView, StageView};
use vstd::prelude::*;

verus! {

/// The stage after an answer.
pub open spec fn next(binlink: Option<Seq<char>>, stage: StageView, event: EventView) -> StageView {
    respond(binlink, stage, event, event is Text && url_parses(event->Text_0)).0
}

/// The stage after some answers, from the beginning of the dialogue.
pub open spec fn stage_after(binlink: Option<Seq<char>>, events: Seq<EventView>) -> StageView
    decreases events.len(),
{
    if events.len() == 0 {
        StageView::BuilderQuestion
    } else {
        next(binlink, stage_after(binlink, events.drop_last()), events.last())
    }
}

/// The event is of the kind that the request waits for.
pub open spec fn answers(request: RequestView, event: EventView) -> bool {
    match request {
        RequestView::YesNo(_) => event is Answer,
        RequestView::LoadConfig => event is Config,
        RequestView::Ask(_) => event is Text,
        RequestView::Write(_, _) => event is Written,
        RequestView::LookUpKey(_) => event is Key,
        RequestView::GenerateKey(_) => event is Generated,
        RequestView::AmIRoot => event is Root,
        RequestView::SetBinlinkPath => event is BinlinkSet,
        RequestView::KeyFailed => false,
        RequestView::Done => false,
    }
}

/// The text is not what the stage can take.
pub open spec fn rejected(stage: StageView, event: EventView) -> bool {
    match (stage, event) {
        (StageView::UrlPrompt(_), EventView::Text(url)) => !url_parses(url),
        (StageView::OriginPrompt(_), EventView::Text(origin)) => !valid_origin_name(origin),
        _ => false,
    }
}

/// The section of the dialogue that a stage belongs to: the builder, the origin, the access token,
/// the control gateway secret, the binlinks, the end.
pub open spec fn section(stage: StageView) -> int {
    match stage {
        StageView::BuilderQuestion
        | StageView::UrlConfig
        | StageView::UrlPrompt(_)
        | StageView::UrlWrite(_) => 0,
        StageView::OriginQuestion
        | StageView::OriginConfig
        | StageView::OriginPrompt(_)
        | StageView::OriginWrite(_)
        | StageView::KeyLookUp(_)
        | StageView::KeyQuestion(_)
        | StageView::KeyGeneration(_)
        | StageView::KeyFailed => 1,
        StageView::TokenQuestion
        | StageView::TokenConfig
        | StageView::TokenPrompt(_)
        | StageView::TokenWrite(_) => 2,
        StageView::SecretQuestion
        | StageView::SecretConfig
        | StageView::SecretPrompt(_)
        | StageView::SecretWrite(_) => 3,
        StageView::BinlinkQuestion(_) | StageView::BinlinkRoot(_) | StageView::BinlinkPath(_) => 4,
        StageView::Done => 5,
    }
}

/// How many answers a stage can still take, where none is rejected.
pub open spec fn answers_left(stage: StageView) -> nat {
    match stage {
        StageView::BuilderQuestion => 22,
        StageView::UrlConfig => 21,
        StageView::UrlPrompt(_) => 20,
        StageView::UrlWrite(_) => 19,
        StageView::OriginQuestion => 18,
        StageView::OriginConfig => 17,
        StageView::OriginPrompt(_) => 16,
        StageView::OriginWrite(_) => 15,
        StageView::KeyLookUp(_) => 14,
        StageView::KeyQuestion(_) => 13,
        StageView::KeyGeneration(_) => 12,
        StageView::TokenQuestion => 11,
        StageView::TokenConfig => 10,
        StageView::TokenPrompt(_) => 9,
        StageView::TokenWrite(_) => 8,
        StageView::SecretQuestion => 7,
        StageView::SecretConfig => 6,
        StageView::SecretPrompt(_) => 5,
        StageView::SecretWrite(_) => 4,
        StageView::BinlinkQuestion(_) => 3,
        StageView::BinlinkRoot(_) => 2,
        StageView::BinlinkPath(_) => 1,
        StageView::KeyFailed => 0,
        StageView::Done => 0,
    }
}

/// Each of the answers is of the kind that the dialogue waited for.
pub open spec fn in_turn(binlink: Option<Seq<char>>, events: Seq<EventView>) -> bool {
    forall|i: int|
        0 <= i < events.len() ==> answers(
            request(stage_after(binlink, events.take(i))),
            #[trigger] events[i],
        )
}

/// How many of the answers were rejected.
pub open spec fn rejections(binlink: Option<Seq<char>>, events: Seq<EventView>) -> nat
    decreases events.len(),
{
    if events.len() == 0 {
        0
    } else {
        rejections(binlink, events.drop_last()) + if rejected(
            stage_after(binlink, events.drop_last()),
            events.last(),
        ) {
            1nat
        } else {
            0
        }
    }
}

/// At some point the dialogue was at a stage and took an answer.
pub open spec fn happened(
    binlink: Option<Seq<char>>,
    events: Seq<EventView>,
    stage: StageView,
    event: EventView,
) -> bool {
    exists|i: int|
        0 <= i < events.len() && #[trigger] events[i] == event && stage_after(
            binlink,
            events.take(i),
        ) == stage
}

pub(crate) proof fn lemma_happened_grows(
    binlink: Option<Seq<char>>,
    events: Seq<EventView>,
    stage: StageView,
    event: EventView,
)
    requires
        events.len() > 0,
        happened(binlink, events.drop_last(), stage, event),
    ensures
        happened(binlink, events, stage, event),
{
    let before = events.drop_last();
    let i = choose|i: int|
        0 <= i < before.len() && #[trigger] before[i] == event && stage_after(
            binlink,
            before.take(i),
        ) == stage;
    assert(before.take(i) =~= events.take(i));
    assert(events[i] == event);
}

pub(crate) proof fn lemma_happened_last(binlink: Option<Seq<char>>, events: Seq<EventView>)
    requires
        events.len() > 0,
    ensures
        happened(
            binlink,
            events,
            stage_after(binlink, events.drop_last()),
            events.last(),
        ),
{
    assert(events.take(events.len() - 1) =~= events.drop_last());
    assert(events[events.len() - 1] == events.last());
}

/// An answer that is not of the kind that the dialogue waits for changes nothing and goes without
/// comment; so does any answer when the dialogue is over, for good or for want of keys.
pub proof fn law_other_answers_change_nothing(
    binlink: Option<Seq<char>>,
    stage: StageView,
    event: EventView,
    parses: bool,
)
    requires
        !answers(request(stage), event),
    ensures
        respond(binlink, stage, event, parses) == (stage, Seq::<crate::prompt::SayView>::empty()),
{
}

/// No section is taken up again once it is left, and none is passed over, but the one on binlinks
/// where there is no directory for them.
pub proof fn law_sections_come_in_order(
    binlink: Option<Seq<char>>,
    stage: StageView,
    event: EventView,
)
    ensures
        section(stage) <= section(next(binlink, stage, event)),
        section(next(binlink, stage, event)) <= section(stage) + 1 || (binlink is None && section(
            stage,
        ) == 3 && next(binlink, stage, event) is Done),
{
}

proof fn lemma_answer_is_used_up(binlink: Option<Seq<char>>, stage: StageView, event: EventView)
    requires
        answers(request(stage), event),
    ensures
        answers_left(next(binlink, stage, event)) + 1 <= answers_left(stage) + if rejected(
            stage,
            event,
        ) {
            2int
        } else {
            0
        },
{
}

/// The dialogue ends: beside two answers for each rejected text there are no more than
/// `answers_left` allows for.
pub proof fn law_answers_bring_the_end(binlink: Option<Seq<char>>, events: Seq<EventView>)
    requires
        in_turn(binlink, events),
    ensures
        events.len() + answers_left(stage_after(binlink, events)) <= answers_left(
            StageView::BuilderQuestion,
        ) + 2 * rejections(binlink, events),
    decreases events.len(),
{
    if events.len() > 0 {
        let before = events.drop_last();
        assert forall|i: int| 0 <= i < before.len() implies answers(
            request(stage_after(binlink, before.take(i))),
            #[trigger] before[i],
        ) by {
            assert(before.take(i) =~= events.take(i));
            assert(events[i] == before[i]);
        }
        law_answers_bring_the_end(binlink, before);
        assert(events.take(events.len() - 1) =~= before);
        let last = events[events.len() - 1];
        assert(answers(request(stage_after(binlink, before)), last));
        lemma_answer_is_used_up(binlink, stage_after(binlink, before), last);
    }
}

/// A text that is no URL, or no origin name, is asked for again, with the defaults as they are
/// then.
pub proof fn law_rejected_text_is_asked_for_again(
    binlink: Option<Seq<char>>,
    stage: StageView,
    event: EventView,
    config: ConfigView,
    env: EnvironmentView,
)
    requires
        rejected(stage, event),
    ensures
        ({
            let again = next(
                binlink,
                next(binlink, stage, event),
                EventView::Config(config, env),
            );
            if stage is UrlPrompt {
                again == StageView::UrlPrompt(url_prompt(config, env).1)
            } else {
                again == StageView::OriginPrompt(origin_prompt(config, env).1)
            }
        }),
{
}

/// Whatever the answers, a builder that the dialogue wants written is a URL, and an origin that it
/// wants written or keys for is an origin name.
pub proof fn law_only_valid_values_are_written(binlink: Option<Seq<char>>, events: Seq<EventView>)
    ensures
        match request(stage_after(binlink, events)) {
            RequestView::Write(ConfigEntry::BldrUrl, url) => url_parses(url),
            RequestView::Write(ConfigEntry::Origin, origin) => valid_origin_name(origin),
            RequestView::LookUpKey(origin) => valid_origin_name(origin),
            RequestView::GenerateKey(origin) => valid_origin_name(origin),
            _ => true,
        },
{
    lemma_values(binlink, events);
}

/// A value that a stage holds is valid.
spec fn holds_valid(stage: StageView) -> bool {
    match stage {
        StageView::UrlWrite(url) => url_parses(url),
        StageView::OriginWrite(origin) => valid_origin_name(origin),
        StageView::KeyLookUp(origin) => valid_origin_name(origin),
        StageView::KeyQuestion(origin) => valid_origin_name(origin),
        StageView::KeyGeneration(origin) => valid_origin_name(origin),
        _ => true,
    }
}

proof fn lemma_values(binlink: Option<Seq<char>>, events: Seq<EventView>)
    ensures
        holds_valid(stage_after(binlink, events)),
    decreases events.len(),
{
    if events.len() > 0 {
        lemma_values(binlink, events.drop_last());
    }
}

/// The stage waits for the text of an entry.
pub open spec fn asks_for(stage: StageView, entry: ConfigEntry) -> bool {
    match entry {
        ConfigEntry::AuthToken => stage is TokenPrompt,
        ConfigEntry::BldrUrl => stage is UrlPrompt,
        ConfigEntry::CtlSecret => stage is SecretPrompt,
        ConfigEntry::Origin => stage is OriginPrompt,
    }
}

/// What the dialogue wants written is a text that was given in answer to the question for it.
pub proof fn law_what_is_written_was_given(binlink: Option<Seq<char>>, events: Seq<EventView>)
    ensures
        request(stage_after(binlink, events)) matches RequestView::Write(entry, value) ==> exists|
            stage: StageView,
        | asks_for(stage, entry) && #[trigger] happened(binlink, events, stage, EventView::Text(value)),
    decreases events.len(),
{
    if events.len() > 0 {
        let before = events.drop_last();
        law_what_is_written_was_given(binlink, before);
        lemma_happened_last(binlink, events);
        if let RequestView::Write(entry, value) = request(stage_after(binlink, events)) {
            if request(stage_after(binlink, before)) == RequestView::Write(entry, value) {
                let stage = choose|stage: StageView|
                    asks_for(stage, entry) && #[trigger] happened(
                        binlink,
                        before,
                        stage,
                        EventView::Text(value),
                    );
                lemma_happened_grows(binlink, events, stage, EventView::Text(value));
            }
        }
    }
}

/// At some point the latest pair of keys of an origin turned out to lack a secret key.
pub open spec fn key_missing(
    binlink: Option<Seq<char>>,
    events: Seq<EventView>,
    origin: Seq<char>,
) -> bool {
    exists|pair: LatestPair|
        pair != (LatestPair::Found { secret: true }) && #[trigger] happened(
            binlink,
            events,
            StageView::KeyLookUp(origin),
            EventView::Key(pair),
        )
}

/// Keys are created for an origin only after it was written, its latest pair of keys turned out to
/// lack a secret key, and their creation was agreed to.
pub proof fn law_keys_are_created_where_missing_and_wanted(
    binlink: Option<Seq<char>>,
    events: Seq<EventView>,
)
    ensures
        request(stage_after(binlink, events)) matches RequestView::GenerateKey(origin) ==> {
            &&& happened(binlink, events, StageView::OriginWrite(origin), EventView::Written)
            &&& key_missing(binlink, events, origin)
            &&& happened(
                binlink,
                events,
                StageView::KeyQuestion(origin),
                EventView::Answer(true),
            )
        },
{
    lemma_key_path(binlink, events);
}

/// What went before a stage that concerns the keys of an origin.
spec fn key_path(binlink: Option<Seq<char>>, events: Seq<EventView>, stage: StageView) -> bool {
    match stage {
        StageView::KeyLookUp(origin) => happened(
            binlink,
            events,
            StageView::OriginWrite(origin),
            EventView::Written,
        ),
        StageView::KeyQuestion(origin) => {
            &&& happened(binlink, events, StageView::OriginWrite(origin), EventView::Written)
            &&& key_missing(binlink, events, origin)
        },
        StageView::KeyGeneration(origin) => {
            &&& happened(binlink, events, StageView::OriginWrite(origin), EventView::Written)
            &&& key_missing(binlink, events, origin)
            &&& happened(
                binlink,
                events,
                StageView::KeyQuestion(origin),
                EventView::Answer(true),
            )
        },
        _ => true,
    }
}

proof fn lemma_key_path(binlink: Option<Seq<char>>, events: Seq<EventView>)
    ensures
        key_path(binlink, events, stage_after(binlink, events)),
    decreases events.len(),
{
    if events.len() > 0 {
        let before = events.drop_last();
        lemma_key_path(binlink, before);
        lemma_happened_last(binlink, events);
        let origin = match stage_after(binlink, before) {
            StageView::KeyLookUp(origin) => origin,
            StageView::KeyQuestion(origin) => origin,
            StageView::KeyGeneration(origin) => origin,
            _ => Seq::empty(),
        };
        if happened(binlink, before, StageView::OriginWrite(origin), EventView::Written) {
            lemma_happened_grows(
                binlink,
                events,
                StageView::OriginWrite(origin),
                EventView::Written,
            );
        }
        if happened(binlink, before, StageView::KeyQuestion(origin), EventView::Answer(true)) {
            lemma_happened_grows(
                binlink,
                events,
                StageView::KeyQuestion(origin),
                EventView::Answer(true),
            );
        }
        if key_missing(binlink, before, origin) {
            let pair = choose|pair: LatestPair|
                pair != (LatestPair::Found { secret: true }) && #[trigger] happened(
                    binlink,
                    before,
                    StageView::KeyLookUp(origin),
                    EventView::Key(pair),
                );
            lemma_happened_grows(
                binlink,
                events,
                StageView::KeyLookUp(origin),
                EventView::Key(pair),
            );
        }
        if let EventView::Key(pair) = events.last() {
            assert(stage_after(binlink, before) is KeyLookUp ==> happened(
                binlink,
                events,
                StageView::KeyLookUp(origin),
                EventView::Key(pair),
            ));
        }
    }
}

/// Where no question is answered with yes, the dialogue asks for no text, no keys and no
/// privileges, and wants nothing written, created or put on the search path.
pub proof fn law_declining_changes_nothing(binlink: Option<Seq<char>>, events: Seq<EventView>)
    requires
        !events.contains(EventView::Answer(true)),
    ensures
        ({
            let asked = request(stage_after(binlink, events));
            asked is YesNo || asked is Done
        }),
        !(stage_after(binlink, events) is KeyQuestion),
    decreases events.len(),
{
    if events.len() > 0 {
        let before = events.drop_last();
        assert(!before.contains(EventView::Answer(true))) by {
            if before.contains(EventView::Answer(true)) {
                let i = choose|i: int| 0 <= i < before.len() && before[i] == EventView::Answer(true);
                assert(events[i] == EventView::Answer(true));
            }
        }
        law_declining_changes_nothing(binlink, before);
        assert(events[events.len() - 1] == events.last());
    }
}

/// The search path is changed only where there is a directory of binlinks to put on it, this was
/// agreed to, and the search path may be changed.
pub proof fn law_search_path_is_changed_where_allowed(
    binlink: Option<Seq<char>>,
    events: Seq<EventView>,
)
    ensures
        request(stage_after(binlink, events)) is SetBinlinkPath ==> {
            &&& binlink is Some
            &&& happened(
                binlink,
                events,
                StageView::BinlinkQuestion(binlink->0),
                EventView::Answer(true),
            )
            &&& happened(
                binlink,
                events,
                StageView::BinlinkRoot(binlink->0),
                EventView::Root(true),
            )
        },
{
    lemma_binlink_path(binlink, events);
}

/// What went before a stage that concerns the search path.
spec fn binlink_path(
    binlink: Option<Seq<char>>,
    events: Seq<EventView>,
    stage: StageView,
) -> bool {
    let agreed = |dir: Seq<char>|
        happened(binlink, events, StageView::BinlinkQuestion(dir), EventView::Answer(true));
    match stage {
        StageView::BinlinkQuestion(dir) => binlink == Some(dir),
        StageView::BinlinkRoot(dir) => binlink == Some(dir) && agreed(dir),
        StageView::BinlinkPath(dir) => binlink == Some(dir) && agreed(dir) && happened(
            binlink,
            events,
            StageView::BinlinkRoot(dir),
            EventView::Root(true),
        ),
        _ => true,
    }
}

proof fn lemma_binlink_path(binlink: Option<Seq<char>>, events: Seq<EventView>)
    ensures
        binlink_path(binlink, events, stage_after(binlink, events)),
    decreases events.len(),
{
    if events.len() > 0 {
        let before = events.drop_last();
        lemma_binlink_path(binlink, before);
        lemma_happened_last(binlink, events);
        let dir = binlink->0;
        if happened(binlink, before, StageView::BinlinkQuestion(dir), EventView::Answer(true)) {
            lemma_happened_grows(
                binlink,
                events,
                StageView::BinlinkQuestion(dir),
                EventView::Answer(true),
            );
        }
        if happened(binlink, before, StageView::BinlinkRoot(dir), EventView::Root(true)) {
            lemma_happened_grows(
                binlink,
                events,
                StageView::BinlinkRoot(dir),
                EventView::Root(true),
            );
        }
    }
}

} // verus!
