//! Laws of the single steps of a run that uninstalls packages, over its arguments, the answers and
//! the effects.

use crate::deletion::{EffectView, ExecutionStrategy, SafetyView, Status};
use crate::deletion_laws::{law_verdict_goes_by_the_reasons, law_verdict_is_shown_with_its_reason};
use crate::ident::{idents, Ident};
use crate::ident_laws::{
    law_any_satisfies_looks_at_every_entry, law_core_hab_is_any_release_of_hab,
};
use crate::text::decimal;
use crate::uninstall::{
    next_package, request, respond, services_found, target_deleted, uninstalling, Event, EventView,
    PlanView, Request, RequestView, RunView, Scope, StageView, UninstallSafety,
};
use crate::uninstall_laws::{course, law_run_deletes_only_what_may_go, Graph};
use vstd::prelude::*;

verus! {

/// A request says what it holds.
pub proof fn law_request_says_what_it_holds(r: Request)
    ensures
        r matches Request::Load(ident) ==> r@ == RequestView::Load(ident@),
        r matches Request::LookUp(ident) ==> r@ == RequestView::LookUp(ident@),
        r matches Request::CountDependents(ident) ==> r@ == RequestView::CountDependents(ident@),
        r matches Request::CannotRemovePackage(ident, n) ==> r@
            == RequestView::CannotRemovePackage(ident@, n as nat),
        r is Finished ==> r@ == RequestView::Finished,
{
}

/// An answer says what it holds.
pub proof fn law_answer_says_what_it_holds(e: Event)
    ensures
        e matches Event::Loaded(ident) ==> e@ == EventView::Loaded(ident@),
        e matches Event::InGraph { deps, dependents: Some(n) } ==> e@ == (EventView::InGraph {
            deps: idents(deps@),
            dependents: Some(n as nat),
        }),
        e matches Event::InGraph { deps, dependents: None } ==> e@ == (EventView::InGraph {
            deps: idents(deps@),
            dependents: None,
        }),
        e matches Event::Dependents(Some(n)) ==> e@ == EventView::Dependents(Some(n as nat)),
        e matches Event::Dependents(None) ==> e@ == EventView::Dependents(None),
{
}

/// A run has as its plan the arguments that it is started with, each under its own name. It has
/// deleted nothing, and first asks for the first package, if there is one.
pub proof fn law_started_run_has_its_arguments(
    idents: Seq<Ident>,
    strategy: ExecutionStrategy,
    scope: Scope,
    excludes: Seq<Ident>,
    safety: UninstallSafety,
    loaded: Seq<Ident>,
)
    ensures
        ({
            let run: RunView = uninstalling(idents, strategy, scope, excludes, safety, loaded);
            &&& run.plan.idents == idents
            &&& run.plan.strategy == strategy
            &&& run.plan.scope == scope
            &&& run.plan.excludes == excludes
            &&& run.plan.safety == safety
            &&& run.plan.loaded == loaded
            &&& run.deleted == 0
            &&& idents.len() > 0 ==> request(run.plan, run.stage) == RequestView::Load(idents[0])
            &&& idents.len() == 0 ==> request(run.plan, run.stage) == RequestView::Finished
        }),
{
}

/// Before all else a run tells of every loaded service, in their order, and of nothing where none
/// is loaded.
pub proof fn law_every_loaded_service_is_told(loaded: Seq<Ident>)
    ensures
        loaded.len() == 0 ==> services_found(loaded).len() == 0,
        loaded.len() > 0 ==> {
            &&& services_found(loaded).len() == loaded.len() + 1
            &&& services_found(loaded)[0] == EffectView::Status(
                Status::Determining,
                "list of loaded services in supervisor"@,
            )
            &&& forall|i: int|
                0 <= i < loaded.len() ==> services_found(loaded)[i + 1] == EffectView::Status(
                    Status::Found,
                    "loaded service "@ + (#[trigger] loaded[i]).text(),
                )
        },
{
}

/// A run that is started with these arguments deletes, whatever the answers, no package that is the
/// `hab` command or that an excluded identifier agrees with, nor one that a loaded service agrees
/// with unless it is by force, and none at all in a dry run.
pub proof fn law_started_run_deletes_nothing_spared(
    idents: Seq<Ident>,
    strategy: ExecutionStrategy,
    scope: Scope,
    excludes: Seq<Ident>,
    safety: UninstallSafety,
    loaded: Seq<Ident>,
    graph: Graph,
    events: Seq<EventView>,
    package: Ident,
)
    requires
        ({
            let run = uninstalling(idents, strategy, scope, excludes, safety, loaded);
            course(run.plan, run.stage, graph, events).effects.contains(
                EffectView::Delete(package),
            )
        }),
    ensures
        strategy == ExecutionStrategy::Run,
        !(package.origin == "core"@ && package.name == "hab"@),
        !(exists|i: int|
                {
                    &&& 0 <= i < excludes.len()
                    &&& (#[trigger] excludes[i]).origin == package.origin
                    &&& excludes[i].name == package.name
                    &&& excludes[i].version is None || package.version is None || excludes[i].version
                        == package.version
                    &&& excludes[i].release is None || package.release is None || excludes[i].release
                        == package.release
                }),
        safety == UninstallSafety::Force || !(exists|i: int|
                {
                    &&& 0 <= i < loaded.len()
                    &&& (#[trigger] loaded[i]).origin == package.origin
                    &&& loaded[i].name == package.name
                    &&& loaded[i].version is None || package.version is None || loaded[i].version
                        == package.version
                    &&& loaded[i].release is None || package.release is None || loaded[i].release
                        == package.release
                }),
{
    let run = uninstalling(idents, strategy, scope, excludes, safety, loaded);
    law_run_deletes_only_what_may_go(run.plan, run.stage, graph, events, package);
    law_core_hab_is_any_release_of_hab(package);
    law_any_satisfies_looks_at_every_entry(excludes, package);
    law_any_satisfies_looks_at_every_entry(loaded, package);
}

/// The package that is found is the one that the work begins on and that is looked up next.
pub proof fn law_found_package_is_looked_up(plan: PlanView, at: nat, ident: Ident)
    requires
        at < plan.idents.len(),
    ensures
        ({
            let (next, list) = respond(plan, StageView::Loading { at }, EventView::Loaded(ident));
            &&& request(plan, StageView::Loading { at }) == RequestView::Load(plan.idents[at as int])
            &&& next == (StageView::LookingUp { at, ident })
            &&& request(plan, next) == RequestView::LookUp(ident)
            &&& list == seq![EffectView::Begin("Uninstalling "@ + ident.text())]
        }),
{
}

/// What is done when the graph has answered for a package that is to be uninstalled. Where packages
/// depend on it, it is refused with their number and nothing is done. Where the graph does not know
/// it, that is warned of. Where nothing depends on it, it is deleted and leaves the graph, unless it
/// is the `hab` command, or a loaded service agrees with it and it is not by force, or an excluded
/// identifier agrees with it. Then its dependencies follow, from the first, or are skipped, and with
/// none to follow the work on it is closed and the next package asked for.
pub proof fn law_looked_up_package_is_dealt_with(
    plan: PlanView,
    at: nat,
    ident: Ident,
    deps: Seq<Ident>,
    dependents: Option<nat>,
)
    ensures
        ({
            let (next, list) = respond(
                plan,
                StageView::LookingUp { at, ident },
                EventView::InGraph { deps, dependents },
            );
            let excludes = plan.excludes;
            let loaded = plan.loaded;
            let closing = EffectView::End(
                match plan.strategy {
                    ExecutionStrategy::DryRun => "Would uninstall "@ + ident.text() + " and "@
                        + decimal(0) + " dependencies (Dry run)"@,
                    ExecutionStrategy::Run => "Uninstall of "@ + ident.text() + " and "@ + decimal(
                        0,
                    ) + " dependencies complete"@,
                },
            );
            let own = if dependents is None {
                seq![EffectView::Warn(
                    "Tried to find dependant packages of "@ + ident.text()
                        + " but it wasn't in graph.  Maybe another uninstall command was run at the same time?"@,
                )]
            } else if (ident.origin == "core"@ && ident.name == "hab"@) {
                seq![
                    EffectView::Status(
                        Status::Skipping,
                        ident.text() + ". You can't uninstall core/hab"@,
                    ),
                ]
            } else if (plan.safety == UninstallSafety::Safe && (exists|i: int|
                {
                    &&& 0 <= i < loaded.len()
                    &&& (#[trigger] loaded[i]).origin == ident.origin
                    &&& loaded[i].name == ident.name
                    &&& loaded[i].version is None || ident.version is None || loaded[i].version
                        == ident.version
                    &&& loaded[i].release is None || ident.release is None || loaded[i].release
                        == ident.release
                })) {
                seq![
                    EffectView::Status(
                        Status::Skipping,
                        ident.text() + ". It is currently loaded by the supervisor"@,
                    ),
                ]
            } else if (exists|i: int|
                {
                    &&& 0 <= i < excludes.len()
                    &&& (#[trigger] excludes[i]).origin == ident.origin
                    &&& excludes[i].name == ident.name
                    &&& excludes[i].version is None || ident.version is None || excludes[i].version
                        == ident.version
                    &&& excludes[i].release is None || ident.release is None || excludes[i].release
                        == ident.release
                }) {
                seq![
                    EffectView::Status(
                        Status::Skipping,
                        ident.text() + ". It is on the exclusion list"@,
                    ),
                ]
            } else if plan.strategy == ExecutionStrategy::DryRun {
                seq![
                    EffectView::Status(Status::DryRunDeleting, ident.text()),
                    EffectView::RemoveFromGraph(ident),
                ]
            } else {
                seq![
                    EffectView::Status(Status::Deleting, ident.text()),
                    EffectView::Delete(ident),
                    EffectView::RemoveFromGraph(ident),
                ]
            };
            if dependents is Some && dependents->0 != 0 {
                &&& next == (StageView::Refused { at, ident, dependents: dependents->0 })
                &&& request(plan, next) == RequestView::CannotRemovePackage(ident, dependents->0)
                &&& list.len() == 0
            } else if plan.scope == Scope::Package {
                &&& next == if at + 1 < plan.idents.len() {
                StageView::Loading { at: at + 1 }
            } else {
                StageView::Finished
            }
                &&& list == own + seq![
                    EffectView::Status(Status::Skipping, "dependencies (--no-deps specified)"@),
                    closing,
                ]
            } else if deps.len() == 0 {
                &&& next == if at + 1 < plan.idents.len() {
                StageView::Loading { at: at + 1 }
            } else {
                StageView::Finished
            }
                &&& list == own + seq![closing]
            } else {
                &&& next == (StageView::Counting { at, ident, deps, dep: 0, unneeded: 0 })
                &&& request(plan, next) == RequestView::CountDependents(deps[0])
                &&& list == own
            }
        }),
{
    let loaded = plan.loaded;
    let excludes = plan.excludes;
    let list = respond(
        plan,
        StageView::LookingUp { at, ident },
        EventView::InGraph { deps, dependents },
    ).1;
    law_verdict_goes_by_the_reasons(
        ident,
        plan.strategy,
        plan.excludes,
        match plan.safety {
            UninstallSafety::Safe => SafetyView::SkipIfLoaded(plan.loaded),
            UninstallSafety::Force => SafetyView::Force,
        },
    );
    law_verdict_is_shown_with_its_reason(ident);
    let closing = EffectView::End(
                match plan.strategy {
                    ExecutionStrategy::DryRun => "Would uninstall "@ + ident.text() + " and "@
                        + decimal(0) + " dependencies (Dry run)"@,
                    ExecutionStrategy::Run => "Uninstall of "@ + ident.text() + " and "@ + decimal(
                        0,
                    ) + " dependencies complete"@,
                },
            );
    let own = if dependents is None {
        seq![EffectView::Warn(
                    "Tried to find dependant packages of "@ + ident.text()
                        + " but it wasn't in graph.  Maybe another uninstall command was run at the same time?"@,
                )]
    } else if (ident.origin == "core"@ && ident.name == "hab"@) {
                seq![
                    EffectView::Status(
                        Status::Skipping,
                        ident.text() + ". You can't uninstall core/hab"@,
                    ),
                ]
            } else if (plan.safety == UninstallSafety::Safe && (exists|i: int|
                {
                    &&& 0 <= i < loaded.len()
                    &&& (#[trigger] loaded[i]).origin == ident.origin
                    &&& loaded[i].name == ident.name
                    &&& loaded[i].version is None || ident.version is None || loaded[i].version
                        == ident.version
                    &&& loaded[i].release is None || ident.release is None || loaded[i].release
                        == ident.release
                })) {
                seq![
                    EffectView::Status(
                        Status::Skipping,
                        ident.text() + ". It is currently loaded by the supervisor"@,
                    ),
                ]
            } else if (exists|i: int|
                {
                    &&& 0 <= i < excludes.len()
                    &&& (#[trigger] excludes[i]).origin == ident.origin
                    &&& excludes[i].name == ident.name
                    &&& excludes[i].version is None || ident.version is None || excludes[i].version
                        == ident.version
                    &&& excludes[i].release is None || ident.release is None || excludes[i].release
                        == ident.release
                }) {
                seq![
                    EffectView::Status(
                        Status::Skipping,
                        ident.text() + ". It is on the exclusion list"@,
                    ),
                ]
            } else if plan.strategy == ExecutionStrategy::DryRun {
                seq![
                    EffectView::Status(Status::DryRunDeleting, ident.text()),
                    EffectView::RemoveFromGraph(ident),
                ]
            } else {
                seq![
                    EffectView::Status(Status::Deleting, ident.text()),
                    EffectView::Delete(ident),
                    EffectView::RemoveFromGraph(ident),
                ]
            };
    if dependents is Some && dependents->0 != 0 {
    } else if plan.scope == Scope::Package {
        assert(list =~= own + seq![
            EffectView::Status(Status::Skipping, "dependencies (--no-deps specified)"@),
            closing,
        ]);
    } else if deps.len() == 0 {
        assert(list =~= own + seq![closing]);
    } else {
        assert(list =~= own);
    }
}

/// What is done when the dependents of a dependency are counted: with none left, it is asked for on
/// disk; with some, it is skipped and their number told; one that the graph does not know is warned
/// of. A dependency that is passed over is followed by the next one, and the last by the closing of
/// the work on the package and the next package.
pub proof fn law_counted_dependency_is_passed_over_or_asked_for(
    plan: PlanView,
    at: nat,
    ident: Ident,
    deps: Seq<Ident>,
    dep: nat,
    unneeded: nat,
    dependents: Option<nat>,
)
    requires
        dep < deps.len(),
    ensures
        ({
            let stage = StageView::Counting { at, ident, deps, dep, unneeded };
            let (next, list) = respond(plan, stage, EventView::Dependents(dependents));
            let package = deps[dep as int];
            let closing = EffectView::End(
                match plan.strategy {
                    ExecutionStrategy::DryRun => "Would uninstall "@ + ident.text() + " and "@
                        + decimal(unneeded) + " dependencies (Dry run)"@,
                    ExecutionStrategy::Run => "Uninstall of "@ + ident.text() + " and "@ + decimal(
                        unneeded,
                    ) + " dependencies complete"@,
                },
            );
            let line = match dependents {
                None => EffectView::Warn(
                    "Tried to find dependant packages of "@ + package.text()
                        + " but it wasn't in graph.  Maybe another uninstall command was run at the same time?"@,
                ),
                Some(c) => EffectView::Status(
                    Status::Skipping,
                    package.text() + ". It is a dependency of "@ + decimal(c) + " packages"@,
                ),
            };
            &&& request(plan, stage) == RequestView::CountDependents(package)
            &&& if dependents == Some(0nat) {
                &&& next == (StageView::LoadingDependency { at, ident, deps, dep, unneeded })
                &&& request(plan, next) == RequestView::Load(package)
                &&& list.len() == 0
            } else if dep + 1 < deps.len() {
                &&& next == (StageView::Counting { at, ident, deps, dep: dep + 1, unneeded })
                &&& list == seq![line]
            } else {
                &&& next == if at + 1 < plan.idents.len() {
                StageView::Loading { at: at + 1 }
            } else {
                StageView::Finished
            }
                &&& list == seq![line, closing]
            }
        }),
{
    let stage = StageView::Counting { at, ident, deps, dep, unneeded };
    let list = respond(plan, stage, EventView::Dependents(dependents)).1;
    if list.len() == 1 {
        assert(list =~= seq![list[0]]);
    }
    if list.len() == 2 {
        assert(list =~= seq![list[0], list[1]]);
    }
}

/// What is done when a dependency on which nothing depends is found: it is deleted and leaves the
/// graph, unless it is the `hab` command, or a loaded service agrees with it, by force or not, or an
/// excluded identifier agrees with it. It counts as one more, and is followed by the next one, or,
/// after the last, by the closing of the work on the package and the next package.
pub proof fn law_found_dependency_is_dealt_with(
    plan: PlanView,
    at: nat,
    ident: Ident,
    deps: Seq<Ident>,
    dep: nat,
    unneeded: nat,
    found: Ident,
)
    requires
        dep < deps.len(),
    ensures
        ({
            let stage = StageView::LoadingDependency { at, ident, deps, dep, unneeded };
            let (next, list) = respond(plan, stage, EventView::Loaded(found));
            let excludes = plan.excludes;
            let loaded = plan.loaded;
            let package = deps[dep as int];
            let closing = EffectView::End(
                match plan.strategy {
                    ExecutionStrategy::DryRun => "Would uninstall "@ + ident.text() + " and "@
                        + decimal(unneeded + 1) + " dependencies (Dry run)"@,
                    ExecutionStrategy::Run => "Uninstall of "@ + ident.text() + " and "@ + decimal(
                        unneeded + 1,
                    ) + " dependencies complete"@,
                },
            );
            let own = if (found.origin == "core"@ && found.name == "hab"@) {
                seq![
                    EffectView::Status(
                        Status::Skipping,
                        found.text() + ". You can't uninstall core/hab"@,
                    ),
                ]
            } else if (exists|i: int|
                {
                    &&& 0 <= i < loaded.len()
                    &&& (#[trigger] loaded[i]).origin == found.origin
                    &&& loaded[i].name == found.name
                    &&& loaded[i].version is None || found.version is None || loaded[i].version
                        == found.version
                    &&& loaded[i].release is None || found.release is None || loaded[i].release
                        == found.release
                }) {
                seq![
                    EffectView::Status(
                        Status::Skipping,
                        found.text() + ". It is currently loaded by the supervisor"@,
                    ),
                ]
            } else if (exists|i: int|
                {
                    &&& 0 <= i < excludes.len()
                    &&& (#[trigger] excludes[i]).origin == found.origin
                    &&& excludes[i].name == found.name
                    &&& excludes[i].version is None || found.version is None || excludes[i].version
                        == found.version
                    &&& excludes[i].release is None || found.release is None || excludes[i].release
                        == found.release
                }) {
                seq![
                    EffectView::Status(
                        Status::Skipping,
                        found.text() + ". It is on the exclusion list"@,
                    ),
                ]
            } else if plan.strategy == ExecutionStrategy::DryRun {
                seq![
                    EffectView::Status(Status::DryRunDeleting, found.text()),
                    EffectView::RemoveFromGraph(package),
                ]
            } else {
                seq![
                    EffectView::Status(Status::Deleting, found.text()),
                    EffectView::Delete(found),
                    EffectView::RemoveFromGraph(package),
                ]
            };
            if dep + 1 < deps.len() {
                &&& next == (StageView::Counting {
                    at,
                    ident,
                    deps,
                    dep: dep + 1,
                    unneeded: unneeded + 1,
                })
                &&& list == own
            } else {
                &&& next == if at + 1 < plan.idents.len() {
                StageView::Loading { at: at + 1 }
            } else {
                StageView::Finished
            }
                &&& list == own + seq![closing]
            }
        }),
{
    let stage = StageView::LoadingDependency { at, ident, deps, dep, unneeded };
    let list = respond(plan, stage, EventView::Loaded(found)).1;
    let excludes = plan.excludes;
    let loaded = plan.loaded;
    let package = deps[dep as int];
    law_verdict_goes_by_the_reasons(
        found,
        plan.strategy,
        plan.excludes,
        SafetyView::SkipIfLoaded(plan.loaded),
    );
    law_verdict_is_shown_with_its_reason(found);
    let closing = EffectView::End(
                match plan.strategy {
                    ExecutionStrategy::DryRun => "Would uninstall "@ + ident.text() + " and "@
                        + decimal(unneeded + 1) + " dependencies (Dry run)"@,
                    ExecutionStrategy::Run => "Uninstall of "@ + ident.text() + " and "@ + decimal(
                        unneeded + 1,
                    ) + " dependencies complete"@,
                },
            );
    let own = if (found.origin == "core"@ && found.name == "hab"@) {
                seq![
                    EffectView::Status(
                        Status::Skipping,
                        found.text() + ". You can't uninstall core/hab"@,
                    ),
                ]
            } else if (exists|i: int|
                {
                    &&& 0 <= i < loaded.len()
                    &&& (#[trigger] loaded[i]).origin == found.origin
                    &&& loaded[i].name == found.name
                    &&& loaded[i].version is None || found.version is None || loaded[i].version
                        == found.version
                    &&& loaded[i].release is None || found.release is None || loaded[i].release
                        == found.release
                }) {
                seq![
                    EffectView::Status(
                        Status::Skipping,
                        found.text() + ". It is currently loaded by the supervisor"@,
                    ),
                ]
            } else if (exists|i: int|
                {
                    &&& 0 <= i < excludes.len()
                    &&& (#[trigger] excludes[i]).origin == found.origin
                    &&& excludes[i].name == found.name
                    &&& excludes[i].version is None || found.version is None || excludes[i].version
                        == found.version
                    &&& excludes[i].release is None || found.release is None || excludes[i].release
                        == found.release
                }) {
                seq![
                    EffectView::Status(
                        Status::Skipping,
                        found.text() + ". It is on the exclusion list"@,
                    ),
                ]
            } else if plan.strategy == ExecutionStrategy::DryRun {
                seq![
                    EffectView::Status(Status::DryRunDeleting, found.text()),
                    EffectView::RemoveFromGraph(package),
                ]
            } else {
                seq![
                    EffectView::Status(Status::Deleting, found.text()),
                    EffectView::Delete(found),
                    EffectView::RemoveFromGraph(package),
                ]
            };
    if dep + 1 < deps.len() {
        assert(list =~= own);
    } else {
        assert(list =~= own + seq![closing]);
    }
}

/// A package that is to be uninstalled and on which nothing depends is deleted when its turn comes
/// in a real run, and counted, if it is not the `hab` command, no excluded identifier agrees with
/// it, and no loaded service does or it is by force; and only then is anything deleted or counted.
pub proof fn law_package_goes_exactly_unless_spared(
    plan: PlanView,
    at: nat,
    ident: Ident,
    deps: Seq<Ident>,
    dependents: Option<nat>,
    package: Ident,
)
    ensures
        ({
            let stage = StageView::LookingUp { at, ident };
            let event = EventView::InGraph { deps, dependents };
            let list = respond(plan, stage, event).1;
            let excludes = plan.excludes;
            let loaded = plan.loaded;
            let goes = {
                &&& dependents == Some(0nat)
                &&& !(ident.origin == "core"@ && ident.name == "hab"@)
                &&& !(exists|i: int|
                {
                    &&& 0 <= i < excludes.len()
                    &&& (#[trigger] excludes[i]).origin == ident.origin
                    &&& excludes[i].name == ident.name
                    &&& excludes[i].version is None || ident.version is None || excludes[i].version
                        == ident.version
                    &&& excludes[i].release is None || ident.release is None || excludes[i].release
                        == ident.release
                })
                &&& plan.safety == UninstallSafety::Force || !(exists|i: int|
                {
                    &&& 0 <= i < loaded.len()
                    &&& (#[trigger] loaded[i]).origin == ident.origin
                    &&& loaded[i].name == ident.name
                    &&& loaded[i].version is None || ident.version is None || loaded[i].version
                        == ident.version
                    &&& loaded[i].release is None || ident.release is None || loaded[i].release
                        == ident.release
                })
            };
            &&& list.contains(EffectView::RemoveFromGraph(package)) == (goes && package == ident)
            &&& list.contains(EffectView::Delete(package)) == (goes && package == ident
                && plan.strategy == ExecutionStrategy::Run)
            &&& target_deleted(plan, stage, event) == (goes && plan.strategy
                == ExecutionStrategy::Run)
        }),
{
    let list = respond(
        plan,
        StageView::LookingUp { at, ident },
        EventView::InGraph { deps, dependents },
    ).1;
    law_looked_up_package_is_dealt_with(plan, at, ident, deps, dependents);
    law_verdict_goes_by_the_reasons(
        ident,
        plan.strategy,
        plan.excludes,
        match plan.safety {
            UninstallSafety::Safe => SafetyView::SkipIfLoaded(plan.loaded),
            UninstallSafety::Force => SafetyView::Force,
        },
    );
    if dependents == Some(0nat) {
        assert(list.len() > 1 ==> list.contains(list[1]));
        assert(list.len() > 2 ==> list.contains(list[2]));
    }
}

/// A dependency on which nothing depends is deleted when its turn comes in a real run if it is not
/// the `hab` command, no excluded identifier agrees with it, and no loaded service does, by force or
/// not; and only then is anything deleted. It is not counted among the packages that were to be
/// uninstalled.
pub proof fn law_dependency_goes_exactly_unless_spared(
    plan: PlanView,
    at: nat,
    ident: Ident,
    deps: Seq<Ident>,
    dep: nat,
    unneeded: nat,
    found: Ident,
    package: Ident,
)
    requires
        dep < deps.len(),
    ensures
        ({
            let stage = StageView::LoadingDependency { at, ident, deps, dep, unneeded };
            let event = EventView::Loaded(found);
            let list = respond(plan, stage, event).1;
            let excludes = plan.excludes;
            let loaded = plan.loaded;
            let goes = {
                &&& !(found.origin == "core"@ && found.name == "hab"@)
                &&& !(exists|i: int|
                {
                    &&& 0 <= i < excludes.len()
                    &&& (#[trigger] excludes[i]).origin == found.origin
                    &&& excludes[i].name == found.name
                    &&& excludes[i].version is None || found.version is None || excludes[i].version
                        == found.version
                    &&& excludes[i].release is None || found.release is None || excludes[i].release
                        == found.release
                })
                &&& !(exists|i: int|
                {
                    &&& 0 <= i < loaded.len()
                    &&& (#[trigger] loaded[i]).origin == found.origin
                    &&& loaded[i].name == found.name
                    &&& loaded[i].version is None || found.version is None || loaded[i].version
                        == found.version
                    &&& loaded[i].release is None || found.release is None || loaded[i].release
                        == found.release
                })
            };
            &&& list.contains(EffectView::RemoveFromGraph(package)) == (goes && package
                == deps[dep as int])
            &&& list.contains(EffectView::Delete(package)) == (goes && package == found
                && plan.strategy == ExecutionStrategy::Run)
            &&& !target_deleted(plan, stage, event)
        }),
{
    let stage = StageView::LoadingDependency { at, ident, deps, dep, unneeded };
    let list = respond(plan, stage, EventView::Loaded(found)).1;
    law_found_dependency_is_dealt_with(plan, at, ident, deps, dep, unneeded, found);
    assert(list.len() > 1 ==> list.contains(list[1]));
    assert(list.len() > 2 ==> list.contains(list[2]));
}

/// Only the answer that a stage waits for does anything, and nothing does once a package is refused
/// or the run is over.
pub proof fn law_only_the_awaited_answer_counts(plan: PlanView, stage: StageView, event: EventView)
    requires
        match stage {
            StageView::Loading { at } => !(event is Loaded),
            StageView::LookingUp { at, ident } => !(event is InGraph),
            StageView::Counting { at, ident, deps, dep, unneeded } => !(event is Dependents),
            StageView::LoadingDependency { at, ident, deps, dep, unneeded } => !(event is Loaded),
            _ => true,
        },
    ensures
        respond(plan, stage, event).0 == stage,
        respond(plan, stage, event).1.len() == 0,
        !target_deleted(plan, stage, event),
{
}

/// The first package is asked for first and each other one after the one before it, and with none
/// left the run is over.
pub proof fn law_packages_are_asked_for_in_turn(plan: PlanView, at: nat)
    ensures
        at < plan.idents.len() ==> request(plan, next_package(plan, at)) == RequestView::Load(
            plan.idents[at as int],
        ),
        at >= plan.idents.len() ==> next_package(plan, at) == StageView::Finished,
        request(plan, StageView::Finished) == RequestView::Finished,
{
}

} // verus!
