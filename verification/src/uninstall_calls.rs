//! What any call of the operations of uninstalling gives, over its arguments and its result.

use crate::clean_delete::{
    clean_next, do_clean_delete, CleanDelete, CleanEvent, CleanStage,
};
use crate::deletion::{
    effects, maybe_delete, Deletion, Effect, EffectView, ExecutionStrategy, Status,
    UninstallSafetyImpl,
};
use crate::deletion_laws::{
    law_effects_say_each_effect, law_safety_says_the_services,
    law_skipped_where_a_loaded_service_agrees, law_verdict_goes_by_the_reasons,
    law_verdict_is_shown_with_its_reason,
};
use crate::ident::{any_of_satisfies, idents, is_valid_origin_name, PackageIdent};
use crate::ident_laws::{
    law_any_satisfies_looks_at_every_entry, law_origin_names_by_their_characters,
    law_text_joins_the_parts,
};
use crate::latest::{
    law_rank_is_the_number_of_marks, law_run_uninstalls_all_but_the_latest, ranked, ranks,
    sort_latest_first, uninstall_all_but_latest, AllButLatest, Installed,
};
use crate::path::{is_up, law_up_drops_the_last_names, DirPath};
use crate::supervisor::{
    listen, message_kind, supervisor_services, warns, ListStage, MessageKind, Reply,
    SupervisorServices,
};
use crate::text::{decimal, decimal_text, law_decimal_reads_back, number, same_text};
use crate::uninstall::{
    request, respond, target_deleted, uninstall, uninstall_many, Event, Request, RequestView,
    Scope, UninstallRun, UninstallSafety,
};
use crate::uninstall_steps::law_every_loaded_service_is_told;
use vstd::prelude::*;

verus! {

/// Texts are the same where their characters are.
pub proof fn law_same_text_compares_characters(a: &str, b: &str, same: bool)
    requires
        call_ensures(same_text, (a, b), same),
    ensures
        same == (a@ == b@),
{
}

/// A number that is written in decimal reads back as that number, in decimal digits without leading
/// zeros.
pub proof fn law_decimal_text_reads_back(n: usize, text: String)
    requires
        call_ensures(decimal_text, (n,), text),
    ensures
        number(text@) == n,
        text@.len() >= 1,
        forall|i: int| 0 <= i < text@.len() ==> '0' <= #[trigger] text@[i] <= '9',
        n > 0 ==> text@[0] != '0',
{
    law_decimal_reads_back(n as nat);
}

/// A text is taken for an origin name exactly where it has 1 to 255 characters, all of them
/// lowercase letters, digits, `_` and `-`, and begins with neither `_` nor `-`.
pub proof fn law_is_valid_origin_name_goes_by_the_characters(text: &str, valid: bool)
    requires
        call_ensures(is_valid_origin_name, (text,), valid),
    ensures
        valid == ({
            &&& 1 <= text@.len() <= 255
            &&& text@[0] != '_' && text@[0] != '-'
            &&& forall|i: int|
                0 <= i < text@.len() ==> {
                    ||| 'a' <= #[trigger] text@[i] <= 'z'
                    ||| '0' <= text@[i] <= '9'
                    ||| text@[i] == '_'
                    ||| text@[i] == '-'
                }
        }),
{
    law_origin_names_by_their_characters(text@);
}

/// One identifier is told to satisfy another exactly where origin and name are the same and every
/// one of version and release that both give is.
pub proof fn law_satisfies_tells_whether_the_given_parts_agree(
    p: PackageIdent,
    q: PackageIdent,
    r: bool,
)
    requires
        call_ensures(PackageIdent::satisfies, (&p, &q), r),
    ensures
        r == ({
            &&& p.origin@ == q.origin@
            &&& p.name@ == q.name@
            &&& p.version is None || q.version is None || p.version->0@ == q.version->0@
            &&& p.release is None || q.release is None || p.release->0@ == q.release->0@
        }),
{
}

/// An identifier is written as its parts with slashes between them.
pub proof fn law_to_string_joins_the_parts(p: PackageIdent, text: String)
    requires
        call_ensures(PackageIdent::to_string, (&p,), text),
    ensures
        p.version is None ==> text@ == p.origin@ + seq!['/'] + p.name@,
        p.version is Some && p.release is None ==> text@ == p.origin@ + seq!['/'] + p.name@ + seq![
            '/',
        ] + p.version->0@,
        p.version is Some && p.release is Some ==> text@ == p.origin@ + seq!['/'] + p.name@ + seq![
            '/',
        ] + p.version->0@ + seq!['/'] + p.release->0@,
{
    law_text_joins_the_parts(p@);
}

/// The identifier of the `hab` command has the origin `core` and the name `hab`, and no more.
pub proof fn law_core_hab_has_no_version(hab: PackageIdent)
    requires
        call_ensures(PackageIdent::core_hab, (), hab),
    ensures
        hab.origin@ == seq!['c', 'o', 'r', 'e'],
        hab.name@ == seq!['h', 'a', 'b'],
        hab.version is None,
        hab.release is None,
{
    reveal_strlit("core");
    reveal_strlit("hab");
    assert("core"@ =~= seq!['c', 'o', 'r', 'e']);
    assert("hab"@ =~= seq!['h', 'a', 'b']);
}

/// Some entry of a list is told to satisfy an identifier exactly where one agrees with it in origin,
/// name and every one of version and release that both give.
pub proof fn law_any_of_satisfies_looks_at_every_entry(
    list: &[PackageIdent],
    p: &PackageIdent,
    found: bool,
)
    requires
        call_ensures(any_of_satisfies, (list, p), found),
    ensures
        found == (exists|i: int|
                {
                    &&& 0 <= i < list@.len()
                    &&& (#[trigger] list@[i])@.origin == p@.origin
                    &&& list@[i]@.name == p@.name
                    &&& list@[i]@.version is None || p@.version is None || list@[i]@.version
                        == p@.version
                    &&& list@[i]@.release is None || p@.release is None || list@[i]@.release
                        == p@.release
                }),
{
    law_any_satisfies_looks_at_every_entry(idents(list@), p@);
    lemma_any_over_views(list, p);
}

/// An entry agrees where what it says does.
proof fn lemma_any_over_views(list: &[PackageIdent], p: &PackageIdent)
    ensures
        ({
            let views = idents(list@);
            let q = p@;
            (exists|i: int|
                {
                    &&& 0 <= i < views.len()
                    &&& (#[trigger] views[i]).origin == q.origin
                    &&& views[i].name == q.name
                    &&& views[i].version is None || q.version is None || views[i].version
                        == q.version
                    &&& views[i].release is None || q.release is None || views[i].release
                        == q.release
                }) == (exists|i: int|
                {
                    &&& 0 <= i < list@.len()
                    &&& (#[trigger] list@[i])@.origin == p@.origin
                    &&& list@[i]@.name == p@.name
                    &&& list@[i]@.version is None || p@.version is None || list@[i]@.version
                        == p@.version
                    &&& list@[i]@.release is None || p@.release is None || list@[i]@.release
                        == p@.release
                })
        }),
{
    let views = idents(list@);
    let q = p@;
    if (exists|i: int|
                {
                    &&& 0 <= i < views.len()
                    &&& (#[trigger] views[i]).origin == q.origin
                    &&& views[i].name == q.name
                    &&& views[i].version is None || q.version is None || views[i].version
                        == q.version
                    &&& views[i].release is None || q.release is None || views[i].release
                        == q.release
                }) {
        let i = choose|i: int|
            {
                &&& 0 <= i < views.len()
                &&& (#[trigger] views[i]).origin == q.origin
                &&& views[i].name == q.name
                &&& views[i].version is None || q.version is None || views[i].version == q.version
                &&& views[i].release is None || q.release is None || views[i].release == q.release
            };
        assert(list@[i]@ == views[i]);
    }
    if (exists|i: int|
                {
                    &&& 0 <= i < list@.len()
                    &&& (#[trigger] list@[i])@.origin == p@.origin
                    &&& list@[i]@.name == p@.name
                    &&& list@[i]@.version is None || p@.version is None || list@[i]@.version
                        == p@.version
                    &&& list@[i]@.release is None || p@.release is None || list@[i]@.release
                        == p@.release
                }) {
        let i = choose|i: int|
            {
                &&& 0 <= i < list@.len()
                &&& (#[trigger] list@[i])@.origin == p@.origin
                &&& list@[i]@.name == p@.name
                &&& list@[i]@.version is None || p@.version is None || list@[i]@.version
                    == p@.version
                &&& list@[i]@.release is None || p@.release is None || list@[i]@.release
                    == p@.release
            };
        assert(list@[i]@ == views[i]);
    }
}

/// A package is told to be skipped exactly where loaded packages are and some loaded service agrees
/// with it in origin, name and every one of version and release that both give.
pub proof fn law_should_skip_goes_by_the_loaded_services(
    safety: UninstallSafetyImpl,
    p: &PackageIdent,
    skip: bool,
)
    requires
        call_ensures(UninstallSafetyImpl::should_skip, (&safety, p), skip),
    ensures
        safety is Force ==> !skip,
        safety matches UninstallSafetyImpl::SkipIfLoaded(services) ==> skip
            == (exists|i: int|
                {
                    &&& 0 <= i < services@.len()
                    &&& (#[trigger] services@[i])@.origin == p@.origin
                    &&& services@[i]@.name == p@.name
                    &&& services@[i]@.version is None || p@.version is None || services@[i]@.version
                        == p@.version
                    &&& services@[i]@.release is None || p@.release is None || services@[i]@.release
                        == p@.release
                }),
{
    law_safety_says_the_services(safety);
    law_skipped_where_a_loaded_service_agrees(safety@, p@);
    if let UninstallSafetyImpl::SkipIfLoaded(services) = safety {
        lemma_any_over_views(services, p);
    }
}

/// A package is deleted exactly in a real run and where it is not the `hab` command, no excluded
/// identifier agrees with it, and no loaded service does where that counts. One line is shown of it,
/// with the first reason that spares it, and a deletion follows where it is deleted.
pub proof fn law_maybe_delete_goes_by_the_reasons(
    p: &PackageIdent,
    strategy: ExecutionStrategy,
    excludes: &[PackageIdent],
    safety: UninstallSafetyImpl,
    deletion: Deletion,
)
    requires
        call_ensures(maybe_delete, (p, strategy, excludes, safety), deletion),
    ensures
        ({
            let hab = p.origin@ == "core"@ && p.name@ == "hab"@;
            let loaded = match safety {
                UninstallSafetyImpl::SkipIfLoaded(services) => (exists|i: int|
                {
                    &&& 0 <= i < services@.len()
                    &&& (#[trigger] services@[i])@.origin == p@.origin
                    &&& services@[i]@.name == p@.name
                    &&& services@[i]@.version is None || p@.version is None || services@[i]@.version
                        == p@.version
                    &&& services@[i]@.release is None || p@.release is None || services@[i]@.release
                        == p@.release
                }),
                UninstallSafetyImpl::Force => false,
            };
            let excluded = (exists|i: int|
                {
                    &&& 0 <= i < excludes@.len()
                    &&& (#[trigger] excludes@[i])@.origin == p@.origin
                    &&& excludes@[i]@.name == p@.name
                    &&& excludes@[i]@.version is None || p@.version is None || excludes@[i]@.version
                        == p@.version
                    &&& excludes@[i]@.release is None || p@.release is None || excludes@[i]@.release
                        == p@.release
                });
            let list = deletion.effects@;
            &&& deletion.spared == (hab || loaded || excluded)
            &&& deletion.deleted == (!hab && !loaded && !excluded && strategy
                == ExecutionStrategy::Run)
            &&& list.len() == if deletion.deleted {
                2int
            } else {
                1int
            }
            &&& deletion.deleted ==> list[1]@ == EffectView::Delete(p@)
            &&& list[0]@ == if hab {
                EffectView::Status(
                    Status::Skipping,
                    p@.text() + ". You can't uninstall core/hab"@,
                )
            } else if loaded {
                EffectView::Status(
                    Status::Skipping,
                    p@.text() + ". It is currently loaded by the supervisor"@,
                )
            } else if excluded {
                EffectView::Status(
                    Status::Skipping,
                    p@.text() + ". It is on the exclusion list"@,
                )
            } else if strategy == ExecutionStrategy::DryRun {
                EffectView::Status(Status::DryRunDeleting, p@.text())
            } else {
                EffectView::Status(Status::Deleting, p@.text())
            }
        }),
{
    law_verdict_goes_by_the_reasons(p@, strategy, idents(excludes@), safety@);
    law_verdict_is_shown_with_its_reason(p@);
    law_safety_says_the_services(safety);
    law_effects_say_each_effect(deletion.effects@);
    lemma_any_over_views(excludes, p);
    if let UninstallSafetyImpl::SkipIfLoaded(services) = safety {
        lemma_any_over_views(services, p);
    }
    let list = deletion.effects@;
    assert(effects(list)[0] == list[0]@);
    if deletion.deleted {
        assert(effects(list)[1] == list[1]@);
    }
}

/// A call of `uninstall_many` starts a run with its arguments, each in its place: the first package is asked
/// for first, nothing has been deleted, and every loaded service is told of, in their order.
pub proof fn law_uninstall_many_starts_with_its_arguments(
    idents: Vec<PackageIdent>,
    strategy: ExecutionStrategy,
    scope: Scope,
    excludes: Vec<PackageIdent>,
    safety: UninstallSafety,
    loaded: Vec<PackageIdent>,
    started: (UninstallRun, Vec<Effect>),
)
    requires
        call_ensures(
            uninstall_many,
            (idents, strategy, scope, excludes, safety, loaded),
            started,
        ),
    ensures
        started.0@.plan.idents.len() == idents@.len(),
        forall|i: int|
            0 <= i < idents@.len() ==> started.0@.plan.idents[i] == (#[trigger] idents@[i])@,
        started.0@.plan.strategy == strategy,
        started.0@.plan.scope == scope,
        started.0@.plan.excludes.len() == excludes@.len(),
        forall|i: int|
            0 <= i < excludes@.len() ==> started.0@.plan.excludes[i] == (#[trigger] excludes@[i])@,
        started.0@.plan.safety == safety,
        started.0@.plan.loaded.len() == loaded@.len(),
        forall|i: int|
            0 <= i < loaded@.len() ==> started.0@.plan.loaded[i] == (#[trigger] loaded@[i])@,
        started.0@.deleted == 0,
        idents@.len() > 0 ==> request(started.0@.plan, started.0@.stage) == RequestView::Load(
            started.0@.plan.idents[0],
        ),
        idents@.len() == 0 ==> request(started.0@.plan, started.0@.stage) == RequestView::Finished,
        loaded@.len() == 0 ==> started.1@.len() == 0,
        loaded@.len() > 0 ==> {
            &&& started.1@.len() == loaded@.len() + 1
            &&& started.1@[0]@ == EffectView::Status(
                Status::Determining,
                "list of loaded services in supervisor"@,
            )
            &&& forall|i: int|
                0 <= i < loaded@.len() ==> started.1@[i + 1]@ == EffectView::Status(
                    Status::Found,
                    "loaded service "@ + (#[trigger] loaded@[i])@.text(),
                )
        },
{
    law_every_loaded_service_is_told(crate::ident::idents(loaded@));
    law_effects_say_each_effect(started.1@);
    if loaded@.len() > 0 {
        assert(effects(started.1@)[0] == started.1@[0]@);
        assert forall|i: int| 0 <= i < loaded@.len() implies started.1@[i + 1]@
            == EffectView::Status(
            Status::Found,
            "loaded service "@ + (#[trigger] loaded@[i])@.text(),
        ) by {
            assert(crate::ident::idents(loaded@)[i] == loaded@[i]@);
            assert(effects(started.1@)[i + 1] == started.1@[i + 1]@);
        }
    }
}

/// A call of `uninstall` starts a run with its arguments, each in its place: the first package is asked
/// for first, nothing has been deleted, and every loaded service is told of, in their order.
pub proof fn law_uninstall_starts_with_its_arguments(
    ident: PackageIdent,
    strategy: ExecutionStrategy,
    scope: Scope,
    excludes: Vec<PackageIdent>,
    safety: UninstallSafety,
    loaded: Vec<PackageIdent>,
    started: (UninstallRun, Vec<Effect>),
)
    requires
        call_ensures(
            uninstall,
            (ident, strategy, scope, excludes, safety, loaded),
            started,
        ),
    ensures
        started.0@.plan.idents.len() == 1,
        started.0@.plan.idents[0] == ident@,
        started.0@.plan.strategy == strategy,
        started.0@.plan.scope == scope,
        started.0@.plan.excludes.len() == excludes@.len(),
        forall|i: int|
            0 <= i < excludes@.len() ==> started.0@.plan.excludes[i] == (#[trigger] excludes@[i])@,
        started.0@.plan.safety == safety,
        started.0@.plan.loaded.len() == loaded@.len(),
        forall|i: int|
            0 <= i < loaded@.len() ==> started.0@.plan.loaded[i] == (#[trigger] loaded@[i])@,
        started.0@.deleted == 0,
        1 > 0 ==> request(started.0@.plan, started.0@.stage) == RequestView::Load(
            started.0@.plan.idents[0],
        ),
        1 == 0 ==> request(started.0@.plan, started.0@.stage) == RequestView::Finished,
        loaded@.len() == 0 ==> started.1@.len() == 0,
        loaded@.len() > 0 ==> {
            &&& started.1@.len() == loaded@.len() + 1
            &&& started.1@[0]@ == EffectView::Status(
                Status::Determining,
                "list of loaded services in supervisor"@,
            )
            &&& forall|i: int|
                0 <= i < loaded@.len() ==> started.1@[i + 1]@ == EffectView::Status(
                    Status::Found,
                    "loaded service "@ + (#[trigger] loaded@[i])@.text(),
                )
        },
{
    law_every_loaded_service_is_told(idents(loaded@));
    law_effects_say_each_effect(started.1@);
    if loaded@.len() > 0 {
        assert(effects(started.1@)[0] == started.1@[0]@);
        assert forall|i: int| 0 <= i < loaded@.len() implies started.1@[i + 1]@
            == EffectView::Status(
            Status::Found,
            "loaded service "@ + (#[trigger] loaded@[i])@.text(),
        ) by {
            assert(idents(loaded@)[i] == loaded@[i]@);
            assert(effects(started.1@)[i + 1] == started.1@[i + 1]@);
        }
    }
}

/// A run tells the request of its stage, and how many of its packages are deleted.
pub proof fn law_run_tells_its_request(run: UninstallRun, asked: Request, count: usize)
    ensures
        call_ensures(UninstallRun::request, (&run,), asked) ==> asked@ == request(
            run@.plan,
            run@.stage,
        ),
        call_ensures(UninstallRun::deleted, (&run,), count) ==> count == run@.deleted,
{
}

/// A run keeps its plan, and goes on from stage to stage with the effects of the response; a deleted
/// package counts once.
pub proof fn law_run_steps_by_the_response()
    ensures
        forall|run: &mut UninstallRun, event: Event, list: Vec<Effect>| #[trigger]
            call_ensures(UninstallRun::step, (run, event), list) ==> {
                &&& final(run)@.plan == run@.plan
                &&& final(run)@.stage == respond(run@.plan, run@.stage, event@).0
                &&& list@.len() == respond(run@.plan, run@.stage, event@).1.len()
                &&& forall|i: int|
                    0 <= i < list@.len() ==> (#[trigger] list@[i])@ == respond(
                        run@.plan,
                        run@.stage,
                        event@,
                    ).1[i]
                &&& final(run)@.deleted == run@.deleted + if target_deleted(
                    run@.plan,
                    run@.stage,
                    event@,
                ) {
                    1int
                } else {
                    0int
                }
            },
{
    assert forall|run: &mut UninstallRun, event: Event, list: Vec<Effect>| #[trigger]
        call_ensures(UninstallRun::step, (run, event), list) implies {
        let shown = respond(run@.plan, run@.stage, event@).1;
        &&& list@.len() == shown.len()
        &&& forall|i: int| 0 <= i < list@.len() ==> (#[trigger] list@[i])@ == shown[i]
    } by {
        law_effects_say_each_effect(list@);
        assert forall|i: int| 0 <= i < list@.len() implies (#[trigger] list@[i])@ == respond(
            run@.plan,
            run@.stage,
            event@,
        ).1[i] by {
            assert(effects(list@)[i] == list@[i]@);
        }
    }
}

/// The latest packages come first, and the list holds the same packages as often as before.
pub proof fn law_sort_latest_first_orders_by_rank(installed: Vec<Installed>, sorted: Vec<Installed>)
    requires
        call_ensures(sort_latest_first, (installed,), sorted),
    ensures
        forall|i: int, j: int|
            0 <= i < j < sorted@.len() ==> (#[trigger] sorted@[i]).rank >= (
            #[trigger] sorted@[j]).rank,
        sorted@.map_values(|p: Installed| (p.ident@, p.rank as nat)).to_multiset()
            == installed@.map_values(|p: Installed| (p.ident@, p.rank as nat)).to_multiset(),
        sorted@.len() == installed@.len(),
{
    assert(sorted@.map_values(|p: Installed| (p.ident@, p.rank as nat)) =~= ranked(sorted@));
    assert(installed@.map_values(|p: Installed| (p.ident@, p.rank as nat)) =~= ranked(installed@));
    vstd::seq_lib::to_multiset_len(ranked(sorted@));
    vstd::seq_lib::to_multiset_len(ranked(installed@));
    assert forall|i: int, j: int| 0 <= i < j < sorted@.len() implies (#[trigger] sorted@[i]).rank
        >= (#[trigger] sorted@[j]).rank by {
        assert(ranked(sorted@)[i].1 >= ranked(sorted@)[j].1);
    }
}

/// Each rank is the number of marks in its row.
pub proof fn law_ranks_count_the_marks(earlier: Vec<Vec<bool>>, r: Vec<usize>)
    requires
        call_ensures(ranks, (&earlier,), r),
    ensures
        r@.len() == earlier@.len(),
        forall|i: int|
            0 <= i < r@.len() ==> #[trigger] r@[i] == earlier@[i]@.to_multiset().count(true),
{
    assert forall|i: int| 0 <= i < r@.len() implies #[trigger] r@[i]
        == earlier@[i]@.to_multiset().count(true) by {
        law_rank_is_the_number_of_marks(earlier@[i]@);
        assert(r[i] == r@[i]);
    }
}

/// A call of `uninstall_all_but_latest` keeps everything exactly where there are no more packages
/// than are to be kept. Otherwise the packages that its run is to uninstall, with as many others as
/// are to be kept, are all that is installed, and none that goes has a higher rank than one that is
/// kept; and the run has the other arguments, each in its place.
pub proof fn law_uninstall_all_but_latest_keeps_the_latest(
    ident: &PackageIdent,
    installed: Vec<Installed>,
    keep: usize,
    strategy: ExecutionStrategy,
    scope: Scope,
    excludes: Vec<PackageIdent>,
    safety: UninstallSafety,
    loaded: Vec<PackageIdent>,
    outcome: AllButLatest,
)
    requires
        call_ensures(
            uninstall_all_but_latest,
            (ident, installed, keep, strategy, scope, excludes, safety, loaded),
            outcome,
        ),
    ensures
        outcome is Kept == (keep >= installed@.len()),
        outcome matches AllButLatest::Kept { effects: list } ==> {
            &&& list@.len() == 3
            &&& list@[0]@ == EffectView::Begin("Uninstalling "@ + ident@.text())
            &&& list@[1]@ == EffectView::Status(
                Status::Skipping,
                "Only "@ + decimal(installed@.len()) + " packages installed"@,
            )
            &&& list@[2]@ == EffectView::End("Uninstall of "@ + ident@.text() + " complete"@)
        },
        outcome matches AllButLatest::Started { run, effects: list } ==> {
            &&& exists|kept: Seq<(crate::ident::Ident, nat)>, gone: Seq<(crate::ident::Ident, nat)>|
                {
                    &&& kept.len() == keep
                    &&& (#[trigger] kept.to_multiset()).add(#[trigger] gone.to_multiset())
                        == installed@.map_values(
                        |p: Installed| (p.ident@, p.rank as nat),
                    ).to_multiset()
                    &&& run@.plan.idents.len() == gone.len()
                    &&& forall|i: int|
                        0 <= i < gone.len() ==> run@.plan.idents[i] == (#[trigger] gone[i]).0
                    &&& forall|i: int, j: int|
                        0 <= i < kept.len() && 0 <= j < gone.len() ==> (#[trigger] kept[i]).1 >= (
                        #[trigger] gone[j]).1
                    &&& forall|i: int, j: int|
                        0 <= i < j < gone.len() ==> (#[trigger] gone[i]).1 >= (#[trigger] gone[j]).1
                }
            &&& run@.plan.strategy == strategy
            &&& run@.plan.scope == scope
            &&& run@.plan.excludes.len() == excludes@.len()
            &&& forall|i: int|
                0 <= i < excludes@.len() ==> run@.plan.excludes[i] == (#[trigger] excludes@[i])@
            &&& run@.plan.safety == safety
            &&& run@.plan.loaded.len() == loaded@.len()
            &&& forall|i: int|
                0 <= i < loaded@.len() ==> run@.plan.loaded[i] == (#[trigger] loaded@[i])@
            &&& run@.deleted == 0
            &&& request(run@.plan, run@.stage) == RequestView::Load(run@.plan.idents[0])
            &&& list@.len() == if loaded@.len() == 0 {
                0
            } else {
                loaded@.len() + 1
            }
            &&& loaded@.len() > 0 ==> list@[0]@ == EffectView::Status(
                Status::Determining,
                "list of loaded services in supervisor"@,
            )
            &&& forall|i: int|
                0 <= i < loaded@.len() ==> list@[i + 1]@ == EffectView::Status(
                    Status::Found,
                    "loaded service "@ + (#[trigger] loaded@[i])@.text(),
                )
        },
{
    law_run_uninstalls_all_but_the_latest(
        ident@,
        ranked(installed@),
        keep as nat,
        strategy,
        scope,
        idents(excludes@),
        safety,
        idents(loaded@),
        outcome@,
    );
    assert(installed@.map_values(|p: Installed| (p.ident@, p.rank as nat)) =~= ranked(installed@));
    if let AllButLatest::Kept { effects: list } = outcome {
        law_effects_say_each_effect(list@);
        assert(effects(list@).len() == 3);
        assert(effects(list@)[0] == list@[0]@);
        assert(effects(list@)[1] == list@[1]@);
        assert(effects(list@)[2] == list@[2]@);
    }
    if let AllButLatest::Started { run, effects: list } = outcome {
        law_effects_say_each_effect(list@);
        if loaded@.len() > 0 {
            assert(effects(list@)[0] == list@[0]@);
        }
        assert forall|i: int| 0 <= i < loaded@.len() implies list@[i + 1]@ == EffectView::Status(
            Status::Found,
            "loaded service "@ + (#[trigger] loaded@[i])@.text(),
        ) by {
            assert(idents(loaded@)[i] == loaded@[i]@);
            assert(effects(list@)[i + 1] == list@[i + 1]@);
        }
    }
}

/// A directory is told to be the one so many levels above a path exactly where both begin in the
/// same way and its names are the names of the path but the last so many.
pub proof fn law_is_up_compares_the_first_names(
    path: &DirPath,
    levels: usize,
    other: &DirPath,
    same: bool,
)
    requires
        levels <= path.names@.len(),
        call_ensures(is_up, (path, levels, other), same),
    ensures
        same == ({
            &&& path.absolute == other.absolute
            &&& other.names@.len() == path.names@.len() - levels
            &&& forall|i: int|
                0 <= i < other.names@.len() ==> (#[trigger] other.names@[i])@ == path.names@[i]@
        }),
{
    law_up_drops_the_last_names(path@, levels as nat);
    let up = path@.up(levels as nat);
    if same {
        assert forall|i: int| 0 <= i < other.names@.len() implies (#[trigger] other.names@[i])@
            == path.names@[i]@ by {
            assert(up.names[i] == other@.names[i]);
        }
    } else if path.absolute == other.absolute && other.names@.len() == path.names@.len() - levels
        && forall|i: int|
        0 <= i < other.names@.len() ==> (#[trigger] other.names@[i])@ == path.names@[i]@ {
        assert(up.names =~= other@.names);
    }
}

/// The deletion of a package begins with the package itself, tells its stage, and goes on by the
/// events, with the directories that it was given.
pub proof fn law_clean_delete_begins_with_the_package(
    root: DirPath,
    install: DirPath,
    run: CleanDelete,
    stage: CleanStage,
)
    ensures
        call_ensures(do_clean_delete, (root, install), run) ==> {
            &&& run@.root == root@
            &&& run@.install == install@
            &&& run@.stage == CleanStage::Discarding
        },
        call_ensures(CleanDelete::stage, (&run,), stage) ==> stage == run@.stage,
        forall|run: &mut CleanDelete, event: CleanEvent, nothing: ()| #[trigger]
            call_ensures(CleanDelete::step, (run, event), nothing) ==> {
                &&& final(run)@.root == run@.root
                &&& final(run)@.install == run@.install
                &&& final(run)@.stage == clean_next(
                    run@.root,
                    run@.install,
                    run@.stage,
                    event,
                )
            },
{
}

/// A message is told by its identifier, letter for letter.
pub proof fn law_message_kind_goes_by_the_identifier(message_id: &str, kind: MessageKind)
    requires
        call_ensures(message_kind, (message_id,), kind),
    ensures
        (kind == MessageKind::ServiceStatus) == (message_id@ == "ServiceStatus"@),
        (kind == MessageKind::NetOk) == (message_id@ == "NetOk"@),
        (kind == MessageKind::NetErr) == (message_id@ == "NetErr"@),
{
    crate::supervisor::law_messages_go_by_their_identifiers(message_id@);
}

/// The list of services begins empty, wanting replies exactly where a launcher runs, and goes on by
/// the replies; it is an outcome exactly where it is complete, and then holds the services heard of.
pub proof fn law_services_are_an_outcome_when_complete(
    running: bool,
    list: SupervisorServices,
    stage: ListStage,
    outcome: Option<Vec<PackageIdent>>,
    services: Vec<PackageIdent>,
)
    ensures
        call_ensures(supervisor_services, (running,), list) ==> {
            &&& list@.services.len() == 0
            &&& list@.stage == if running {
                ListStage::Listening
            } else {
                ListStage::Complete
            }
        },
        call_ensures(SupervisorServices::stage, (&list,), stage) ==> stage == list@.stage,
        call_ensures(SupervisorServices::outcome, (list,), outcome) ==> {
            &&& outcome is Some == (list@.stage == ListStage::Complete)
            &&& outcome is Some ==> outcome->0@.len() == list@.services.len() && forall|i: int|
                0 <= i < outcome->0@.len() ==> (#[trigger] outcome->0@[i])@ == list@.services[i]
        },
        call_ensures(SupervisorServices::into_services, (list,), services) ==> {
            &&& services@.len() == list@.services.len()
            &&& forall|i: int|
                0 <= i < services@.len() ==> (#[trigger] services@[i])@ == list@.services[i]
        },
        forall|list: &mut SupervisorServices, reply: Reply, warn: bool| #[trigger]
            call_ensures(SupervisorServices::step, (list, reply), warn) ==> {
                &&& final(list)@ == listen(list@, reply@)
                &&& warn == warns(list@, reply@)
                &&& warn == (list@.stage == ListStage::Listening && reply@ is Unexpected)
            },
{
    if call_ensures(SupervisorServices::outcome, (list,), outcome) && outcome is Some {
        assert forall|i: int| 0 <= i < outcome->0@.len() implies (#[trigger] outcome->0@[i])@
            == list@.services[i] by {
            assert(idents(outcome->0@)[i] == outcome->0@[i]@);
        }
    }
    if call_ensures(SupervisorServices::into_services, (list,), services) {
        assert forall|i: int| 0 <= i < services@.len() implies (#[trigger] services@[i])@
            == list@.services[i] by {
            assert(idents(services@)[i] == services@[i]@);
        }
    }
}

} // verus!
