//! What a setup dialogue has brought about when it is over.

use crate::ident::valid_origin_name;
use crate::prompt::{url_parses, ConfigView, LatestPair};
use crate::setup::{request, written, ConfigEntry, EventView, RequestView, StageView};
use crate::setup_laws::{
    asks_for, happened, lemma_happened_grows, lemma_happened_last, next, section, stage_after,
};
use vstd::prelude::*;

verus! {

/// An entry of the configuration.
pub open spec fn entry_of(config: ConfigView, entry: ConfigEntry) -> Option<Seq<char>> {
    match entry {
        ConfigEntry::AuthToken => config.auth_token,
        ConfigEntry::BldrUrl => config.bldr_url,
        ConfigEntry::CtlSecret => config.ctl_secret,
        ConfigEntry::Origin => config.origin,
    }
}

/// The stage in which the dialogue asks whether to set up an entry.
pub open spec fn question_for(entry: ConfigEntry) -> StageView {
    match entry {
        ConfigEntry::AuthToken => StageView::TokenQuestion,
        ConfigEntry::BldrUrl => StageView::BuilderQuestion,
        ConfigEntry::CtlSecret => StageView::SecretQuestion,
        ConfigEntry::Origin => StageView::OriginQuestion,
    }
}

/// The text can be written to the entry.
pub open spec fn acceptable(entry: ConfigEntry, text: Seq<char>) -> bool {
    match entry {
        ConfigEntry::AuthToken => true,
        ConfigEntry::BldrUrl => url_parses(text),
        ConfigEntry::CtlSecret => true,
        ConfigEntry::Origin => valid_origin_name(text),
    }
}

/// The configuration after some answers, where it is changed by what the dialogue has written and
/// by nothing else.
pub open spec fn config_after(
    binlink: Option<Seq<char>>,
    config: ConfigView,
    events: Seq<EventView>,
) -> ConfigView
    decreases events.len(),
{
    if events.len() == 0 {
        config
    } else {
        let before = config_after(binlink, config, events.drop_last());
        match (request(stage_after(binlink, events.drop_last())), events.last()) {
            (RequestView::Write(entry, value), EventView::Written) => written(
                before,
                entry,
                value,
            ),
            _ => before,
        }
    }
}

/// The texts that were given in answer to the question for an entry.
pub open spec fn given(
    binlink: Option<Seq<char>>,
    events: Seq<EventView>,
    entry: ConfigEntry,
) -> Seq<Seq<char>>
    decreases events.len(),
{
    if events.len() == 0 {
        seq![]
    } else {
        let before = given(binlink, events.drop_last(), entry);
        match events.last() {
            EventView::Text(text) => if asks_for(
                stage_after(binlink, events.drop_last()),
                entry,
            ) {
                before.push(text)
            } else {
                before
            },
            _ => before,
        }
    }
}

/// Setting up the entry was agreed to (`yes`) or declined.
pub open spec fn decided(
    binlink: Option<Seq<char>>,
    events: Seq<EventView>,
    entry: ConfigEntry,
    yes: bool,
) -> bool {
    happened(binlink, events, question_for(entry), EventView::Answer(yes))
}

/// None of the texts can be written to the entry.
pub open spec fn all_rejected(entry: ConfigEntry, texts: Seq<Seq<char>>) -> bool {
    forall|i: int| 0 <= i < texts.len() ==> !acceptable(entry, #[trigger] texts[i])
}

/// Where the dialogue stands with an entry.
ghost enum Phase {
    Untouched,
    Asking,
    Writing(Seq<char>),
    Past,
}

/// The section of an entry.
pub open spec fn section_of(entry: ConfigEntry) -> int {
    section(question_for(entry))
}

spec fn phase(stage: StageView, entry: ConfigEntry) -> Phase {
    if section(stage) < section_of(entry) || stage == question_for(entry) {
        Phase::Untouched
    } else if section(stage) > section_of(entry) {
        Phase::Past
    } else {
        match stage {
            StageView::UrlConfig | StageView::OriginConfig | StageView::TokenConfig
            | StageView::SecretConfig => Phase::Asking,
            StageView::UrlPrompt(_) | StageView::OriginPrompt(_) | StageView::TokenPrompt(_)
            | StageView::SecretPrompt(_) => Phase::Asking,
            StageView::UrlWrite(value) => Phase::Writing(value),
            StageView::OriginWrite(value) => Phase::Writing(value),
            StageView::TokenWrite(value) => Phase::Writing(value),
            StageView::SecretWrite(value) => Phase::Writing(value),
            _ => Phase::Past,
        }
    }
}

spec fn next_phase(
    before: Phase,
    stage: StageView,
    event: EventView,
    entry: ConfigEntry,
) -> Phase {
    match (before, event) {
        (Phase::Untouched, EventView::Answer(yes)) => if stage == question_for(entry) {
            if yes {
                Phase::Asking
            } else {
                Phase::Past
            }
        } else {
            Phase::Untouched
        },
        (Phase::Asking, EventView::Text(text)) => if asks_for(stage, entry) && acceptable(
            entry,
            text,
        ) {
            Phase::Writing(text)
        } else {
            Phase::Asking
        },
        (Phase::Writing(_), EventView::Written) => Phase::Past,
        _ => before,
    }
}

proof fn lemma_phase_step(
    binlink: Option<Seq<char>>,
    stage: StageView,
    event: EventView,
    entry: ConfigEntry,
)
    ensures
        phase(next(binlink, stage, event), entry) == next_phase(
            phase(stage, entry),
            stage,
            event,
            entry,
        ),
{
}

/// What a stage says of an entry by itself.
proof fn lemma_phase_of_stage(stage: StageView, entry: ConfigEntry, value: Seq<char>)
    ensures
        (request(stage) == RequestView::Write(entry, value)) == (phase(stage, entry)
            == Phase::Writing(value)),
        asks_for(stage, entry) ==> phase(stage, entry) is Asking,
        stage == question_for(entry) ==> phase(stage, entry) is Untouched,
{
}

/// What holds of an entry, by where the dialogue stands with it.
spec fn kept(
    binlink: Option<Seq<char>>,
    config: ConfigView,
    events: Seq<EventView>,
    entry: ConfigEntry,
    phase: Phase,
) -> bool {
    let now = entry_of(config_after(binlink, config, events), entry);
    let unchanged = now == entry_of(config, entry);
    let texts = given(binlink, events, entry);
    let agreed = decided(binlink, events, entry, true);
    let declined = decided(binlink, events, entry, false);
    match phase {
        Phase::Untouched => unchanged && texts.len() == 0 && !agreed && !declined,
        Phase::Asking => unchanged && all_rejected(entry, texts) && agreed && !declined,
        Phase::Writing(value) => {
            &&& unchanged && agreed && !declined
            &&& texts.len() > 0 && texts.last() == value && acceptable(entry, value)
            &&& all_rejected(entry, texts.drop_last())
        },
        Phase::Past => if declined {
            unchanged && texts.len() == 0 && !agreed
        } else {
            &&& agreed
            &&& texts.len() > 0 && now == Some(texts.last()) && acceptable(entry, texts.last())
            &&& all_rejected(entry, texts.drop_last())
        },
    }
}

/// What has happened is what happened before, and the last answer.
proof fn lemma_happened_by_steps(
    binlink: Option<Seq<char>>,
    events: Seq<EventView>,
    stage: StageView,
    event: EventView,
)
    requires
        events.len() > 0,
    ensures
        happened(binlink, events, stage, event) == (happened(
            binlink,
            events.drop_last(),
            stage,
            event,
        ) || (stage_after(binlink, events.drop_last()) == stage && events.last() == event)),
{
    let before = events.drop_last();
    lemma_happened_last(binlink, events);
    if happened(binlink, before, stage, event) {
        lemma_happened_grows(binlink, events, stage, event);
    }
    if happened(binlink, events, stage, event) {
        let i = choose|i: int|
            0 <= i < events.len() && #[trigger] events[i] == event && stage_after(
                binlink,
                events.take(i),
            ) == stage;
        if i < before.len() {
            assert(before.take(i) =~= events.take(i));
            assert(before[i] == event);
        } else {
            assert(events.take(i) =~= before);
        }
    }
}

/// How the entry changes with the last answer.
proof fn lemma_entry_by_steps(
    binlink: Option<Seq<char>>,
    config: ConfigView,
    events: Seq<EventView>,
    entry: ConfigEntry,
)
    requires
        events.len() > 0,
    ensures
        ({
            let before = stage_after(binlink, events.drop_last());
            let old_entry = entry_of(config_after(binlink, config, events.drop_last()), entry);
            let new_entry = entry_of(config_after(binlink, config, events), entry);
            match (phase(before, entry), events.last()) {
                (Phase::Writing(value), EventView::Written) => new_entry == Some(value),
                _ => new_entry == old_entry,
            }
        }),
{
    let before = stage_after(binlink, events.drop_last());
    if let RequestView::Write(e, value) = request(before) {
        lemma_phase_of_stage(before, e, value);
    }
    if let Phase::Writing(value) = phase(before, entry) {
        lemma_phase_of_stage(before, entry, value);
    }
}

proof fn lemma_kept(
    binlink: Option<Seq<char>>,
    config: ConfigView,
    events: Seq<EventView>,
    entry: ConfigEntry,
)
    ensures
        kept(binlink, config, events, entry, phase(stage_after(binlink, events), entry)),
    decreases events.len(),
{
    if events.len() > 0 {
        let earlier = events.drop_last();
        let before = stage_after(binlink, earlier);
        lemma_kept(binlink, config, earlier, entry);
        lemma_phase_step(binlink, before, events.last(), entry);
        lemma_phase_of_stage(before, entry, Seq::empty());
        lemma_entry_by_steps(binlink, config, events, entry);
        let question = question_for(entry);
        lemma_happened_by_steps(binlink, events, question, EventView::Answer(true));
        lemma_happened_by_steps(binlink, events, question, EventView::Answer(false));
        let texts = given(binlink, earlier, entry);
        if let EventView::Text(text) = events.last() {
            if asks_for(before, entry) {
                assert(texts.push(text).drop_last() =~= texts);
            }
        }
    }
}

/// When the dialogue has left the section of an entry, as it has of every entry when it is done,
/// setting the entry up was either agreed to or declined. If it was declined, the entry is as it
/// was and no text was asked for. If it was agreed to, the entry is the last text that was given
/// for it, which can be written to it, while every text before it could not.
pub proof fn law_entry_is_the_last_text_given(
    binlink: Option<Seq<char>>,
    config: ConfigView,
    events: Seq<EventView>,
    entry: ConfigEntry,
)
    requires
        section(stage_after(binlink, events)) > section_of(entry),
    ensures
        ({
            let now = entry_of(config_after(binlink, config, events), entry);
            let texts = given(binlink, events, entry);
            &&& decided(binlink, events, entry, true) != decided(binlink, events, entry, false)
            &&& decided(binlink, events, entry, false) ==> {
                &&& now == entry_of(config, entry)
                &&& texts.len() == 0
            }
            &&& decided(binlink, events, entry, true) ==> {
                &&& texts.len() > 0
                &&& now == Some(texts.last())
                &&& acceptable(entry, texts.last())
                &&& all_rejected(entry, texts.drop_last())
            }
        }),
{
    lemma_kept(binlink, config, events, entry);
}

/// What an entry comes to: the last text that was given for it where setting it up was agreed to,
/// and what it was otherwise.
pub open spec fn set_up(
    binlink: Option<Seq<char>>,
    config: ConfigView,
    events: Seq<EventView>,
    entry: ConfigEntry,
) -> Option<Seq<char>> {
    if decided(binlink, events, entry, true) {
        Some(given(binlink, events, entry).last())
    } else {
        entry_of(config, entry)
    }
}

/// When the dialogue is done, the configuration holds what was set up, and is otherwise as it was.
pub proof fn law_configuration_at_the_end(
    binlink: Option<Seq<char>>,
    config: ConfigView,
    events: Seq<EventView>,
)
    requires
        stage_after(binlink, events) is Done,
    ensures
        config_after(binlink, config, events) == (ConfigView {
            auth_token: set_up(binlink, config, events, ConfigEntry::AuthToken),
            origin: set_up(binlink, config, events, ConfigEntry::Origin),
            ctl_secret: set_up(binlink, config, events, ConfigEntry::CtlSecret),
            bldr_url: set_up(binlink, config, events, ConfigEntry::BldrUrl),
        }),
{
    law_entry_is_the_last_text_given(binlink, config, events, ConfigEntry::AuthToken);
    law_entry_is_the_last_text_given(binlink, config, events, ConfigEntry::Origin);
    law_entry_is_the_last_text_given(binlink, config, events, ConfigEntry::CtlSecret);
    law_entry_is_the_last_text_given(binlink, config, events, ConfigEntry::BldrUrl);
}

/// The origins whose latest keys were looked up, with what was found.
pub open spec fn key_finds(binlink: Option<Seq<char>>, events: Seq<EventView>) -> Seq<
    (Seq<char>, LatestPair),
>
    decreases events.len(),
{
    if events.len() == 0 {
        seq![]
    } else {
        let before = key_finds(binlink, events.drop_last());
        match (stage_after(binlink, events.drop_last()), events.last()) {
            (StageView::KeyLookUp(origin), EventView::Key(pair)) => before.push((origin, pair)),
            _ => before,
        }
    }
}

/// The origins for which it was asked whether to create keys, with the answer.
pub open spec fn key_wishes(binlink: Option<Seq<char>>, events: Seq<EventView>) -> Seq<
    (Seq<char>, bool),
>
    decreases events.len(),
{
    if events.len() == 0 {
        seq![]
    } else {
        let before = key_wishes(binlink, events.drop_last());
        match (stage_after(binlink, events.drop_last()), events.last()) {
            (StageView::KeyQuestion(origin), EventView::Answer(yes)) => before.push((origin, yes)),
            _ => before,
        }
    }
}

/// The origins for which keys were created.
pub open spec fn keys_created(binlink: Option<Seq<char>>, events: Seq<EventView>) -> Seq<Seq<char>>
    decreases events.len(),
{
    if events.len() == 0 {
        seq![]
    } else {
        let before = keys_created(binlink, events.drop_last());
        match (stage_after(binlink, events.drop_last()), events.last()) {
            (StageView::KeyGeneration(origin), EventView::Generated(created)) => if created {
                before.push(origin)
            } else {
                before
            },
            _ => before,
        }
    }
}

/// The latest pair of keys lacks a secret key, or there is none.
pub open spec fn is_missing(pair: LatestPair) -> bool {
    pair != (LatestPair::Found { secret: true })
}

/// What became of the keys of an origin: they were looked up once; if they turned out to be missing
/// it was asked once whether to create them; and if that was wanted they were created once.
pub open spec fn keys_settled(
    origin: Seq<char>,
    finds: Seq<(Seq<char>, LatestPair)>,
    wishes: Seq<(Seq<char>, bool)>,
    created: Seq<Seq<char>>,
) -> bool {
    &&& finds.len() == 1 && finds[0].0 == origin
    &&& if is_missing(finds[0].1) {
        &&& wishes.len() == 1 && wishes[0].0 == origin
        &&& created == (if wishes[0].1 {
            seq![origin]
        } else {
            seq![]
        })
    } else {
        wishes.len() == 0 && created.len() == 0
    }
}

/// What has become of the keys, by the stage.
spec fn keys_at(
    stage: StageView,
    texts: Seq<Seq<char>>,
    finds: Seq<(Seq<char>, LatestPair)>,
    wishes: Seq<(Seq<char>, bool)>,
    created: Seq<Seq<char>>,
) -> bool {
    let nothing = finds.len() == 0 && wishes.len() == 0 && created.len() == 0;
    match stage {
        StageView::KeyLookUp(origin) => nothing && texts.len() > 0 && texts.last() == origin,
        StageView::KeyQuestion(origin) => {
            &&& texts.len() > 0 && texts.last() == origin
            &&& finds.len() == 1 && finds[0].0 == origin && is_missing(finds[0].1)
            &&& wishes.len() == 0 && created.len() == 0
        },
        StageView::KeyGeneration(origin) => {
            &&& texts.len() > 0 && texts.last() == origin
            &&& finds.len() == 1 && finds[0].0 == origin && is_missing(finds[0].1)
            &&& wishes.len() == 1 && wishes[0] == (origin, true)
            &&& created.len() == 0
        },
        StageView::KeyFailed => true,
        _ => if section(stage) <= 1 {
            nothing
        } else if texts.len() == 0 {
            nothing
        } else {
            keys_settled(texts.last(), finds, wishes, created)
        },
    }
}

/// One answer more.
proof fn lemma_keys_step(
    binlink: Option<Seq<char>>,
    stage: StageView,
    event: EventView,
    texts: Seq<Seq<char>>,
    finds: Seq<(Seq<char>, LatestPair)>,
    wishes: Seq<(Seq<char>, bool)>,
    created: Seq<Seq<char>>,
)
    requires
        keys_at(stage, texts, finds, wishes, created),
        stage matches StageView::OriginWrite(origin) ==> texts.len() > 0 && texts.last() == origin,
        stage is OriginQuestion ==> texts.len() == 0,
    ensures
        ({
            let texts = match (stage, event) {
                (StageView::OriginPrompt(_), EventView::Text(text)) => texts.push(text),
                _ => texts,
            };
            let finds = match (stage, event) {
                (StageView::KeyLookUp(origin), EventView::Key(pair)) => finds.push((origin, pair)),
                _ => finds,
            };
            let wishes = match (stage, event) {
                (StageView::KeyQuestion(origin), EventView::Answer(yes)) => wishes.push(
                    (origin, yes),
                ),
                _ => wishes,
            };
            let created = match (stage, event) {
                (StageView::KeyGeneration(origin), EventView::Generated(done)) => if done {
                    created.push(origin)
                } else {
                    created
                },
                _ => created,
            };
            keys_at(next(binlink, stage, event), texts, finds, wishes, created)
        }),
{
    assert(created.len() == 0 ==> created =~= seq![]);
    if let StageView::KeyGeneration(origin) = stage {
        assert(created.push(origin) =~= seq![origin]);
    }
}

proof fn lemma_keys(binlink: Option<Seq<char>>, config: ConfigView, events: Seq<EventView>)
    ensures
        keys_at(
            stage_after(binlink, events),
            given(binlink, events, ConfigEntry::Origin),
            key_finds(binlink, events),
            key_wishes(binlink, events),
            keys_created(binlink, events),
        ),
    decreases events.len(),
{
    if events.len() > 0 {
        let earlier = events.drop_last();
        let before = stage_after(binlink, earlier);
        lemma_keys(binlink, config, earlier);
        lemma_kept(binlink, config, earlier, ConfigEntry::Origin);
        lemma_keys_step(
            binlink,
            before,
            events.last(),
            given(binlink, earlier, ConfigEntry::Origin),
            key_finds(binlink, earlier),
            key_wishes(binlink, earlier),
            keys_created(binlink, earlier),
        );
    }
}

/// When the dialogue has left the section on the origin, as it has when it is done, keys were
/// created exactly where they were missing and wanted, once and for the origin that was accepted;
/// where no origin was set up, none were looked up, asked about or created.
pub proof fn law_keys_at_the_end(
    binlink: Option<Seq<char>>,
    config: ConfigView,
    events: Seq<EventView>,
)
    requires
        section(stage_after(binlink, events)) > section_of(ConfigEntry::Origin),
    ensures
        if decided(binlink, events, ConfigEntry::Origin, true) {
            let now = config_after(binlink, config, events);
            &&& now.origin is Some
            &&& keys_settled(
                now.origin->0,
                key_finds(binlink, events),
                key_wishes(binlink, events),
                keys_created(binlink, events),
            )
        } else {
            &&& key_finds(binlink, events).len() == 0
            &&& key_wishes(binlink, events).len() == 0
            &&& keys_created(binlink, events).len() == 0
        },
{
    lemma_keys(binlink, config, events);
    law_entry_is_the_last_text_given(binlink, config, events, ConfigEntry::Origin);
}

} // verus!
