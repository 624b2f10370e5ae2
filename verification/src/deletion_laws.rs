//! Laws of what becomes of a package whose turn has come, over the reasons themselves.

use crate::deletion::{
    effects, spared, verdict, verdict_effects, Effect, EffectView, ExecutionStrategy, SafetyView,
    Status, UninstallSafetyImpl, Verdict,
};
use crate::ident::{idents, Ident};
use crate::ident_laws::{
    law_any_satisfies_looks_at_every_entry, law_core_hab_is_any_release_of_hab,
};
use vstd::prelude::*;

verus! {

/// An effect says what it holds.
pub proof fn law_effect_says_what_it_holds(e: Effect)
    ensures
        e matches Effect::Begin(text) ==> e@ == EffectView::Begin(text@),
        e matches Effect::Status(status, text) ==> e@ == EffectView::Status(status, text@),
        e matches Effect::Warn(text) ==> e@ == EffectView::Warn(text@),
        e matches Effect::End(text) ==> e@ == EffectView::End(text@),
        e matches Effect::Delete(ident) ==> e@ == EffectView::Delete(ident@),
        e matches Effect::RemoveFromGraph(ident) ==> e@ == EffectView::RemoveFromGraph(ident@),
{
}

/// A list of effects says what each of them says, in their order.
pub proof fn law_effects_say_each_effect(list: Seq<Effect>)
    ensures
        effects(list).len() == list.len(),
        forall|i: int| 0 <= i < list.len() ==> #[trigger] effects(list)[i] == list[i]@,
{
}

/// Whether loaded packages are spared, and which are loaded, is said as it is given.
pub proof fn law_safety_says_the_services(safety: UninstallSafetyImpl)
    ensures
        safety is Force == safety@ is Force,
        safety matches UninstallSafetyImpl::SkipIfLoaded(services) ==> safety@
            == SafetyView::SkipIfLoaded(idents(services@)),
{
}

/// A package is spared as loaded exactly where loaded packages are spared and some loaded service
/// agrees with it in origin, name and every one of version and release that both give; another
/// version of a loaded service is not.
pub proof fn law_skipped_where_a_loaded_service_agrees(safety: SafetyView, ident: Ident)
    ensures
        safety is Force ==> !safety.should_skip(ident),
        safety matches SafetyView::SkipIfLoaded(services) ==> safety.should_skip(ident)
            == (exists|i: int|
                {
                    &&& 0 <= i < services.len()
                    &&& (#[trigger] services[i]).origin == ident.origin
                    &&& services[i].name == ident.name
                    &&& services[i].version is None || ident.version is None || services[i].version
                        == ident.version
                    &&& services[i].release is None || ident.release is None || services[i].release
                        == ident.release
                }),
{
    if let SafetyView::SkipIfLoaded(services) = safety {
        law_any_satisfies_looks_at_every_entry(services, ident);
    }
}

/// The verdict goes by the reasons to spare a package, the first of them counting: it is the `hab`
/// command; a loaded service agrees with it, where that counts; an excluded identifier agrees with
/// it. Without a reason the package goes, or would go if this were no dry run.
pub proof fn law_verdict_goes_by_the_reasons(
    ident: Ident,
    strategy: ExecutionStrategy,
    excludes: Seq<Ident>,
    safety: SafetyView,
)
    ensures
        ({
            let v = verdict(ident, strategy, excludes, safety);
            let hab = (ident.origin == "core"@ && ident.name == "hab"@);
            let loaded = match safety {
                SafetyView::SkipIfLoaded(services) => (exists|i: int|
                {
                    &&& 0 <= i < services.len()
                    &&& (#[trigger] services[i]).origin == ident.origin
                    &&& services[i].name == ident.name
                    &&& services[i].version is None || ident.version is None || services[i].version
                        == ident.version
                    &&& services[i].release is None || ident.release is None || services[i].release
                        == ident.release
                }),
                SafetyView::Force => false,
            };
            let excluded = (exists|i: int|
                {
                    &&& 0 <= i < excludes.len()
                    &&& (#[trigger] excludes[i]).origin == ident.origin
                    &&& excludes[i].name == ident.name
                    &&& excludes[i].version is None || ident.version is None || excludes[i].version
                        == ident.version
                    &&& excludes[i].release is None || ident.release is None || excludes[i].release
                        == ident.release
                });
            &&& (v == Verdict::IsHab) == hab
            &&& (v == Verdict::IsLoaded) == (!hab && loaded)
            &&& (v == Verdict::IsExcluded) == (!hab && !loaded && excluded)
            &&& (v == Verdict::Delete) == (!hab && !loaded && !excluded && strategy
                == ExecutionStrategy::Run)
            &&& (v == Verdict::WouldDelete) == (!hab && !loaded && !excluded && strategy
                == ExecutionStrategy::DryRun)
            &&& spared(v) == (hab || loaded || excluded)
        }),
{
    law_core_hab_is_any_release_of_hab(ident);
    law_skipped_where_a_loaded_service_agrees(safety, ident);
    law_any_satisfies_looks_at_every_entry(excludes, ident);
}

/// Of each verdict one line is shown that begins with the package and gives the reason; a deletion
/// follows where that is the verdict, and nowhere else.
pub proof fn law_verdict_is_shown_with_its_reason(ident: Ident)
    ensures
        verdict_effects(ident, Verdict::IsHab) == seq![
            EffectView::Status(
                Status::Skipping,
                ident.text() + ". You can't uninstall core/hab"@,
            ),
        ],
        verdict_effects(ident, Verdict::IsLoaded) == seq![
            EffectView::Status(
                Status::Skipping,
                ident.text() + ". It is currently loaded by the supervisor"@,
            ),
        ],
        verdict_effects(ident, Verdict::IsExcluded) == seq![
            EffectView::Status(
                Status::Skipping,
                ident.text() + ". It is on the exclusion list"@,
            ),
        ],
        verdict_effects(ident, Verdict::WouldDelete) == seq![
            EffectView::Status(Status::DryRunDeleting, ident.text()),
        ],
        verdict_effects(ident, Verdict::Delete) == seq![
            EffectView::Status(Status::Deleting, ident.text()),
            EffectView::Delete(ident),
        ],
{
}

/// Excluding or loading more packages never has a package deleted that was spared before, and a
/// package that is spared is spared in a dry run and in earnest alike.
pub proof fn law_more_reasons_spare_more(
    ident: Ident,
    strategy: ExecutionStrategy,
    other: ExecutionStrategy,
    excludes: Seq<Ident>,
    more_excludes: Seq<Ident>,
    services: Seq<Ident>,
    more_services: Seq<Ident>,
)
    ensures
        ({
            let before = verdict(ident, strategy, excludes, SafetyView::SkipIfLoaded(services));
            let after = verdict(
                ident,
                other,
                excludes + more_excludes,
                SafetyView::SkipIfLoaded(services + more_services),
            );
            spared(before) ==> spared(after)
        }),
{
    let all_excludes = excludes + more_excludes;
    let all_services = services + more_services;
    law_verdict_goes_by_the_reasons(
        ident,
        strategy,
        excludes,
        SafetyView::SkipIfLoaded(services),
    );
    law_verdict_goes_by_the_reasons(
        ident,
        other,
        all_excludes,
        SafetyView::SkipIfLoaded(all_services),
    );
    assert forall|i: int| 0 <= i < excludes.len() implies all_excludes[i] == excludes[i] by {}
    assert forall|i: int| 0 <= i < services.len() implies all_services[i] == services[i] by {}
    if (exists|i: int|
                {
                    &&& 0 <= i < excludes.len()
                    &&& (#[trigger] excludes[i]).origin == ident.origin
                    &&& excludes[i].name == ident.name
                    &&& excludes[i].version is None || ident.version is None || excludes[i].version
                        == ident.version
                    &&& excludes[i].release is None || ident.release is None || excludes[i].release
                        == ident.release
                }) {
        let i = choose|i: int|
            {
                &&& 0 <= i < excludes.len()
                &&& (#[trigger] excludes[i]).origin == ident.origin
                &&& excludes[i].name == ident.name
                &&& excludes[i].version is None || ident.version is None || excludes[i].version
                    == ident.version
                &&& excludes[i].release is None || ident.release is None || excludes[i].release
                    == ident.release
            };
        assert(all_excludes[i].origin == ident.origin);
    }
    if (exists|i: int|
                {
                    &&& 0 <= i < services.len()
                    &&& (#[trigger] services[i]).origin == ident.origin
                    &&& services[i].name == ident.name
                    &&& services[i].version is None || ident.version is None || services[i].version
                        == ident.version
                    &&& services[i].release is None || ident.release is None || services[i].release
                        == ident.release
                }) {
        let i = choose|i: int|
            {
                &&& 0 <= i < services.len()
                &&& (#[trigger] services[i]).origin == ident.origin
                &&& services[i].name == ident.name
                &&& services[i].version is None || ident.version is None || services[i].version
                    == ident.version
                &&& services[i].release is None || ident.release is None || services[i].release
                    == ident.release
            };
        assert(all_services[i].origin == ident.origin);
    }
}

} // verus!
