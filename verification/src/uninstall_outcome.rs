//! What a run that uninstalls packages has done when it is over.

use crate::deletion::{verdict, EffectView, Status, Verdict};
use crate::ident::Ident;
use crate::text::decimal;
use crate::uninstall::{
    dependency_turn, next_package, not_in_graph, respond, target_turn, EventView, PlanView, Scope,
    StageView,
};
use crate::uninstall_laws::{
    course, in_graph, law_every_package_is_closed, lemma_concat_contains, lemma_met_grows,
    lemma_met_last, met, named, packages_done, Graph,
};
use vstd::prelude::*;

verus! {

/// All effects of a run so far.
pub open spec fn effects_of(plan: PlanView, graph: Graph, events: Seq<EventView>) -> Seq<
    EffectView,
> {
    course(plan, next_package(plan, 0), graph, events).effects
}

/// Each effect of the list is among the effects.
pub open spec fn holds_all(effects: Seq<EffectView>, list: Seq<EffectView>) -> bool {
    forall|e: EffectView| #[trigger] list.contains(e) ==> effects.contains(e)
}

/// The package that the run was to uninstall at `at` was found as `ident`, the graph told its
/// dependencies and dependents, and the package was dealt with: where the graph did not know it
/// there was a warning, and otherwise nothing depended on it and it had its turn.
pub open spec fn target_done(
    plan: PlanView,
    graph: Graph,
    events: Seq<EventView>,
    at: nat,
    ident: Ident,
    deps: Seq<Ident>,
    dependents: Option<nat>,
) -> bool {
    let effects = effects_of(plan, graph, events);
    &&& named(plan, graph, events, at, ident)
    &&& met(
        plan,
        graph,
        events,
        StageView::LookingUp { at, ident },
        in_graph(deps, dependents),
    )
    &&& match dependents {
        None => effects.contains(not_in_graph(ident)),
        Some(c) => c == 0 && holds_all(effects, target_turn(plan, ident)),
    }
}

/// The dependents of the dependency at `i` of the package at `at` were counted.
pub open spec fn counted(
    plan: PlanView,
    graph: Graph,
    events: Seq<EventView>,
    at: nat,
    ident: Ident,
    deps: Seq<Ident>,
    i: nat,
    unneeded: nat,
    dependents: Option<nat>,
) -> bool {
    met(
        plan,
        graph,
        events,
        StageView::Counting { at, ident, deps, dep: i, unneeded },
        EventView::Dependents(dependents),
    )
}

/// The dependency at `i` of the package at `at` was found as `found`, and had its turn.
pub open spec fn dependency_taken(
    plan: PlanView,
    graph: Graph,
    events: Seq<EventView>,
    at: nat,
    ident: Ident,
    deps: Seq<Ident>,
    i: nat,
    unneeded: nat,
    found: Ident,
) -> bool {
    &&& met(
        plan,
        graph,
        events,
        StageView::LoadingDependency { at, ident, deps, dep: i, unneeded },
        EventView::Loaded(found),
    )
    &&& holds_all(
        effects_of(plan, graph, events),
        dependency_turn(plan, deps[i as int], found),
    )
}

/// The line that a dependency is skipped because so many packages depend on it.
pub open spec fn still_needed(package: Ident, dependents: nat) -> EffectView {
    EffectView::Status(
        Status::Skipping,
        package.text() + ". It is a dependency of "@ + decimal(dependents) + " packages"@,
    )
}

/// The dependents of the dependency at `i` of the package at `at` were counted, and it was dealt
/// with: where the graph did not know it there was a warning, where something depended on it it was
/// skipped, and otherwise it had its turn.
pub open spec fn dependency_done(
    plan: PlanView,
    graph: Graph,
    events: Seq<EventView>,
    at: nat,
    ident: Ident,
    deps: Seq<Ident>,
    i: nat,
) -> bool {
    exists|unneeded: nat, dependents: Option<nat>| #[trigger]
        counted(plan, graph, events, at, ident, deps, i, unneeded, dependents) && match dependents {
            None => effects_of(plan, graph, events).contains(not_in_graph(deps[i as int])),
            Some(c) => if c == 0 {
                exists|found: Ident|
                    dependency_taken(plan, graph, events, at, ident, deps, i, unneeded, found)
            } else {
                effects_of(plan, graph, events).contains(still_needed(deps[i as int], c))
            },
        }
}

/// The package that the run was to uninstall at `at` was dealt with, and where dependencies are
/// uninstalled too, so was each that the graph gave of it.
pub open spec fn package_done(
    plan: PlanView,
    graph: Graph,
    events: Seq<EventView>,
    at: nat,
) -> bool {
    exists|ident: Ident, deps: Seq<Ident>, dependents: Option<nat>| #[trigger]
        target_done(plan, graph, events, at, ident, deps, dependents) && (plan.scope
            == Scope::PackageAndDependencies ==> dependencies_done(
            plan,
            graph,
            events,
            at,
            ident,
            deps,
            deps.len(),
        ))
}

/// The first dependencies of the package at `at`, so many of them, were dealt with.
pub open spec fn dependencies_done(
    plan: PlanView,
    graph: Graph,
    events: Seq<EventView>,
    at: nat,
    ident: Ident,
    deps: Seq<Ident>,
    dep: nat,
) -> bool {
    forall|i: nat|
        i < dep ==> #[trigger] dependency_done(plan, graph, events, at, ident, deps, i)
}

proof fn lemma_effects_last(
    plan: PlanView,
    graph: Graph,
    events: Seq<EventView>,
    e: EffectView,
)
    requires
        events.len() > 0,
    ensures
        effects_of(plan, graph, events).contains(e) == (effects_of(
            plan,
            graph,
            events.drop_last(),
        ).contains(e) || respond(
            plan,
            course(plan, next_package(plan, 0), graph, events.drop_last()).stage,
            events.last(),
        ).1.contains(e)),
{
    let before = course(plan, next_package(plan, 0), graph, events.drop_last());
    lemma_concat_contains(
        before.effects,
        respond(plan, before.stage, events.last()).1,
        e,
    );
}

proof fn lemma_holds_all_grows(
    plan: PlanView,
    graph: Graph,
    events: Seq<EventView>,
    list: Seq<EffectView>,
)
    requires
        events.len() > 0,
        holds_all(effects_of(plan, graph, events.drop_last()), list),
    ensures
        holds_all(effects_of(plan, graph, events), list),
{
    assert forall|e: EffectView| #[trigger] list.contains(e) implies effects_of(
        plan,
        graph,
        events,
    ).contains(e) by {
        lemma_effects_last(plan, graph, events, e);
    }
}

proof fn lemma_target_done_grows(
    plan: PlanView,
    graph: Graph,
    events: Seq<EventView>,
    at: nat,
    ident: Ident,
    deps: Seq<Ident>,
    dependents: Option<nat>,
)
    requires
        events.len() > 0,
        target_done(plan, graph, events.drop_last(), at, ident, deps, dependents),
    ensures
        target_done(plan, graph, events, at, ident, deps, dependents),
{
    lemma_met_grows(
        plan,
        graph,
        events,
        StageView::Loading { at },
        EventView::Loaded(ident),
    );
    lemma_met_grows(
        plan,
        graph,
        events,
        StageView::LookingUp { at, ident },
        in_graph(deps, dependents),
    );
    if dependents is Some {
        lemma_holds_all_grows(plan, graph, events, target_turn(plan, ident));
    } else {
        lemma_effects_last(plan, graph, events, not_in_graph(ident));
    }
}

proof fn lemma_dependency_done_grows(
    plan: PlanView,
    graph: Graph,
    events: Seq<EventView>,
    at: nat,
    ident: Ident,
    deps: Seq<Ident>,
    i: nat,
)
    requires
        events.len() > 0,
        dependency_done(plan, graph, events.drop_last(), at, ident, deps, i),
    ensures
        dependency_done(plan, graph, events, at, ident, deps, i),
{
    let earlier = events.drop_last();
    let package = deps[i as int];
    let (unneeded, dependents) = choose|unneeded: nat, dependents: Option<nat>| #[trigger]
        counted(plan, graph, earlier, at, ident, deps, i, unneeded, dependents)
            && match dependents {
            None => effects_of(plan, graph, earlier).contains(not_in_graph(deps[i as int])),
            Some(c) => if c == 0 {
                exists|found: Ident|
                    dependency_taken(plan, graph, earlier, at, ident, deps, i, unneeded, found)
            } else {
                effects_of(plan, graph, earlier).contains(still_needed(deps[i as int], c))
            },
        };
    lemma_met_grows(
        plan,
        graph,
        events,
        StageView::Counting { at, ident, deps, dep: i, unneeded },
        EventView::Dependents(dependents),
    );
    match dependents {
        None => {
            lemma_effects_last(plan, graph, events, not_in_graph(package));
        },
        Some(c) => {
            if c == 0 {
                let found = choose|found: Ident|
                    dependency_taken(plan, graph, earlier, at, ident, deps, i, unneeded, found);
                lemma_met_grows(
                    plan,
                    graph,
                    events,
                    StageView::LoadingDependency { at, ident, deps, dep: i, unneeded },
                    EventView::Loaded(found),
                );
                lemma_holds_all_grows(
                    plan,
                    graph,
                    events,
                    dependency_turn(plan, package, found),
                );
                assert(dependency_taken(plan, graph, events, at, ident, deps, i, unneeded, found));
            } else {
                lemma_effects_last(plan, graph, events, still_needed(package, c));
            }
        },
    }
    assert(counted(plan, graph, events, at, ident, deps, i, unneeded, dependents));
}

proof fn lemma_dependencies_done_grow(
    plan: PlanView,
    graph: Graph,
    events: Seq<EventView>,
    at: nat,
    ident: Ident,
    deps: Seq<Ident>,
    dep: nat,
)
    requires
        events.len() > 0,
        dependencies_done(plan, graph, events.drop_last(), at, ident, deps, dep),
    ensures
        dependencies_done(plan, graph, events, at, ident, deps, dep),
{
    assert forall|i: nat| i < dep implies #[trigger] dependency_done(
        plan,
        graph,
        events,
        at,
        ident,
        deps,
        i,
    ) by {
        lemma_dependency_done_grows(plan, graph, events, at, ident, deps, i);
    }
}

proof fn lemma_package_done_grows(
    plan: PlanView,
    graph: Graph,
    events: Seq<EventView>,
    at: nat,
)
    requires
        events.len() > 0,
        package_done(plan, graph, events.drop_last(), at),
    ensures
        package_done(plan, graph, events, at),
{
    let earlier = events.drop_last();
    let (ident, deps, dependents) = choose|
        ident: Ident,
        deps: Seq<Ident>,
        dependents: Option<nat>,
    | #[trigger]
        target_done(plan, graph, earlier, at, ident, deps, dependents) && (plan.scope
            == Scope::PackageAndDependencies ==> dependencies_done(
            plan,
            graph,
            earlier,
            at,
            ident,
            deps,
            deps.len(),
        ));
    lemma_target_done_grows(plan, graph, events, at, ident, deps, dependents);
    if plan.scope == Scope::PackageAndDependencies {
        lemma_dependencies_done_grow(plan, graph, events, at, ident, deps, deps.len());
    }
}

/// The package at `at` was dealt with, and its first dependencies, so many of them.
#[verifier::opaque]
spec fn partly_done(
    plan: PlanView,
    graph: Graph,
    events: Seq<EventView>,
    at: nat,
    ident: Ident,
    deps: Seq<Ident>,
    dep: nat,
) -> bool {
    &&& exists|dependents: Option<nat>|
        target_done(plan, graph, events, at, ident, deps, dependents)
    &&& dependencies_done(plan, graph, events, at, ident, deps, dep)
}

proof fn lemma_partly_done_grows(
    plan: PlanView,
    graph: Graph,
    events: Seq<EventView>,
    at: nat,
    ident: Ident,
    deps: Seq<Ident>,
    dep: nat,
)
    requires
        events.len() > 0,
        partly_done(plan, graph, events.drop_last(), at, ident, deps, dep),
    ensures
        partly_done(plan, graph, events, at, ident, deps, dep),
{
    reveal(partly_done);
    let earlier = events.drop_last();
    let dependents = choose|dependents: Option<nat>|
        target_done(plan, graph, earlier, at, ident, deps, dependents);
    lemma_target_done_grows(plan, graph, events, at, ident, deps, dependents);
    lemma_dependencies_done_grow(plan, graph, events, at, ident, deps, dep);
}

proof fn lemma_partly_done_goes_on(
    plan: PlanView,
    graph: Graph,
    events: Seq<EventView>,
    at: nat,
    ident: Ident,
    deps: Seq<Ident>,
    dep: nat,
)
    requires
        partly_done(plan, graph, events, at, ident, deps, dep),
        dependency_done(plan, graph, events, at, ident, deps, dep),
    ensures
        partly_done(plan, graph, events, at, ident, deps, dep + 1),
{
    reveal(partly_done);
}

proof fn lemma_partly_done_to_the_end(
    plan: PlanView,
    graph: Graph,
    events: Seq<EventView>,
    at: nat,
    ident: Ident,
    deps: Seq<Ident>,
    dep: nat,
)
    requires
        partly_done(plan, graph, events, at, ident, deps, dep),
        dep >= deps.len() || plan.scope == Scope::Package,
    ensures
        package_done(plan, graph, events, at),
{
    reveal(partly_done);
    let dependents = choose|dependents: Option<nat>|
        target_done(plan, graph, events, at, ident, deps, dependents);
    assert(target_done(plan, graph, events, at, ident, deps, dependents));
}

/// The package that was found as `ident` has just had its turn, or was warned of.
proof fn lemma_target_just_done(
    plan: PlanView,
    graph: Graph,
    events: Seq<EventView>,
    at: nat,
    ident: Ident,
    deps: Seq<Ident>,
    dependents: Option<nat>,
)
    requires
        events.len() > 0,
        named(plan, graph, events.drop_last(), at, ident),
        course(plan, next_package(plan, 0), graph, events.drop_last()).stage
            == (StageView::LookingUp { at, ident }),
        events.last() == in_graph(deps, dependents),
        dependents is Some ==> dependents->0 == 0,
    ensures
        partly_done(plan, graph, events, at, ident, deps, 0),
{
    let stage = StageView::LookingUp { at, ident };
    let list = respond(plan, stage, events.last()).1;
    lemma_met_last(plan, graph, events);
    lemma_met_grows(
        plan,
        graph,
        events,
        StageView::Loading { at },
        EventView::Loaded(ident),
    );
    if dependents is Some {
        let shown = target_turn(plan, ident);
        assert forall|e: EffectView| #[trigger] shown.contains(e) implies effects_of(
            plan,
            graph,
            events,
        ).contains(e) by {
            let i = choose|i: int| 0 <= i < shown.len() && shown[i] == e;
            assert(list[i] == e);
            lemma_effects_last(plan, graph, events, e);
        }
    } else {
        assert(list[0] == not_in_graph(ident));
        lemma_effects_last(plan, graph, events, not_in_graph(ident));
    }
    assert(target_done(plan, graph, events, at, ident, deps, dependents));
    reveal(partly_done);
}

/// The dependents of a dependency have just been counted, and it is skipped or warned of.
proof fn lemma_dependency_just_passed(
    plan: PlanView,
    graph: Graph,
    events: Seq<EventView>,
    at: nat,
    ident: Ident,
    deps: Seq<Ident>,
    dep: nat,
    unneeded: nat,
    dependents: Option<nat>,
)
    requires
        events.len() > 0,
        course(plan, next_package(plan, 0), graph, events.drop_last()).stage
            == (StageView::Counting { at, ident, deps, dep, unneeded }),
        events.last() == EventView::Dependents(dependents),
        dependents != Some(0nat),
    ensures
        dependency_done(plan, graph, events, at, ident, deps, dep),
{
    let stage = StageView::Counting { at, ident, deps, dep, unneeded };
    let list = respond(plan, stage, events.last()).1;
    lemma_met_last(plan, graph, events);
    let line = match dependents {
        None => not_in_graph(deps[dep as int]),
        Some(c) => still_needed(deps[dep as int], c),
    };
    assert(list[0] == line);
    lemma_effects_last(plan, graph, events, line);
    assert(counted(plan, graph, events, at, ident, deps, dep, unneeded, dependents));
}

/// A dependency has just had its turn.
proof fn lemma_dependency_just_taken(
    plan: PlanView,
    graph: Graph,
    events: Seq<EventView>,
    at: nat,
    ident: Ident,
    deps: Seq<Ident>,
    dep: nat,
    unneeded: nat,
    found: Ident,
)
    requires
        events.len() > 0,
        course(plan, next_package(plan, 0), graph, events.drop_last()).stage
            == (StageView::LoadingDependency { at, ident, deps, dep, unneeded }),
        counted(
            plan,
            graph,
            events.drop_last(),
            at,
            ident,
            deps,
            dep,
            unneeded,
            Some(0nat),
        ),
        events.last() == EventView::Loaded(found),
    ensures
        dependency_done(plan, graph, events, at, ident, deps, dep),
{
    let stage = StageView::LoadingDependency { at, ident, deps, dep, unneeded };
    let list = respond(plan, stage, events.last()).1;
    let shown = dependency_turn(plan, deps[dep as int], found);
    lemma_met_last(plan, graph, events);
    lemma_met_grows(
        plan,
        graph,
        events,
        StageView::Counting { at, ident, deps, dep, unneeded },
        EventView::Dependents(Some(0nat)),
    );
    assert forall|e: EffectView| #[trigger] shown.contains(e) implies effects_of(
        plan,
        graph,
        events,
    ).contains(e) by {
        let i = choose|i: int| 0 <= i < shown.len() && shown[i] == e;
        assert(list[i] == e);
        lemma_effects_last(plan, graph, events, e);
    }
    assert(dependency_taken(plan, graph, events, at, ident, deps, dep, unneeded, found));
    assert(counted(plan, graph, events, at, ident, deps, dep, unneeded, Some(0nat)));
}

/// What has been done of the package that the run works on.
spec fn under_way(
    plan: PlanView,
    graph: Graph,
    events: Seq<EventView>,
    stage: StageView,
) -> bool {
    match stage {
        StageView::LookingUp { at, ident } => named(plan, graph, events, at, ident),
        StageView::Counting { at, ident, deps, dep, unneeded } => partly_done(
            plan,
            graph,
            events,
            at,
            ident,
            deps,
            dep,
        ),
        StageView::LoadingDependency { at, ident, deps, dep, unneeded } => {
            &&& partly_done(plan, graph, events, at, ident, deps, dep)
            &&& counted(plan, graph, events, at, ident, deps, dep, unneeded, Some(0nat))
        },
        _ => true,
    }
}

/// The response to the last answer leaves the work under way, or done.
proof fn lemma_step_under_way(plan: PlanView, graph: Graph, events: Seq<EventView>)
    requires
        events.len() > 0,
        under_way(
            plan,
            graph,
            events.drop_last(),
            course(plan, next_package(plan, 0), graph, events.drop_last()).stage,
        ),
        course(plan, next_package(plan, 0), graph, events.drop_last()).stage.well_formed(plan),
    ensures
        ({
            let before = course(plan, next_package(plan, 0), graph, events.drop_last()).stage;
            let now = course(plan, next_package(plan, 0), graph, events).stage;
            &&& under_way(plan, graph, events, now)
            &&& packages_done(plan, now) == packages_done(plan, before) || {
                &&& packages_done(plan, now) == packages_done(plan, before) + 1
                &&& package_done(plan, graph, events, packages_done(plan, before))
            }
        }),
{
    let before = course(plan, next_package(plan, 0), graph, events.drop_last()).stage;
    let event = events.last();
    lemma_met_last(plan, graph, events);
    match before {
        StageView::LookingUp { at, ident } => {
            lemma_met_grows(
                plan,
                graph,
                events,
                StageView::Loading { at },
                EventView::Loaded(ident),
            );
            if let EventView::InGraph { deps, dependents } = event {
                if !(dependents is Some && dependents->0 > 0) {
                    assert(event == in_graph(deps, dependents));
                    lemma_target_just_done(plan, graph, events, at, ident, deps, dependents);
                    if plan.scope == Scope::Package || deps.len() == 0 {
                        lemma_partly_done_to_the_end(plan, graph, events, at, ident, deps, 0);
                    }
                }
            }
        },
        StageView::Counting { at, ident, deps, dep, unneeded } => {
            lemma_partly_done_grows(plan, graph, events, at, ident, deps, dep);
            if let EventView::Dependents(dependents) = event {
                if dependents == Some(0nat) {
                    assert(counted(
                        plan,
                        graph,
                        events,
                        at,
                        ident,
                        deps,
                        dep,
                        unneeded,
                        Some(0nat),
                    ));
                } else {
                    lemma_dependency_just_passed(
                        plan,
                        graph,
                        events,
                        at,
                        ident,
                        deps,
                        dep,
                        unneeded,
                        dependents,
                    );
                    lemma_partly_done_goes_on(plan, graph, events, at, ident, deps, dep);
                    if dep + 1 >= deps.len() {
                        lemma_partly_done_to_the_end(
                            plan,
                            graph,
                            events,
                            at,
                            ident,
                            deps,
                            dep + 1,
                        );
                    }
                }
            }
        },
        StageView::LoadingDependency { at, ident, deps, dep, unneeded } => {
            lemma_partly_done_grows(plan, graph, events, at, ident, deps, dep);
            lemma_met_grows(
                plan,
                graph,
                events,
                StageView::Counting { at, ident, deps, dep, unneeded },
                EventView::Dependents(Some(0nat)),
            );
            if let EventView::Loaded(found) = event {
                lemma_dependency_just_taken(
                    plan,
                    graph,
                    events,
                    at,
                    ident,
                    deps,
                    dep,
                    unneeded,
                    found,
                );
                lemma_partly_done_goes_on(plan, graph, events, at, ident, deps, dep);
                if dep + 1 >= deps.len() {
                    lemma_partly_done_to_the_end(
                        plan,
                        graph,
                        events,
                        at,
                        ident,
                        deps,
                        dep + 1,
                    );
                }
            }
        },
        _ => {},
    }
}

/// Whatever the answers, each package that the run is done with was found on disk and looked up in
/// the graph, and had its turn unless the graph did not know it; and where dependencies are
/// uninstalled too, each that the graph gave of it had its turn, unless the graph did not know it
/// or something depended on it.
pub proof fn law_every_package_is_dealt_with(
    plan: PlanView,
    graph: Graph,
    events: Seq<EventView>,
)
    ensures
        ({
            let now = course(plan, next_package(plan, 0), graph, events);
            forall|at: nat|
                at < packages_done(plan, now.stage) ==> #[trigger] package_done(
                    plan,
                    graph,
                    events,
                    at,
                )
        }),
{
    lemma_every_package_is_dealt_with(plan, graph, events);
}

proof fn lemma_every_package_is_dealt_with(plan: PlanView, graph: Graph, events: Seq<EventView>)
    ensures
        ({
            let stage = course(plan, next_package(plan, 0), graph, events).stage;
            &&& under_way(plan, graph, events, stage)
            &&& forall|at: nat|
                at < packages_done(plan, stage) ==> #[trigger] package_done(
                    plan,
                    graph,
                    events,
                    at,
                )
        }),
    decreases events.len(),
{
    if events.len() > 0 {
        let earlier = events.drop_last();
        let before = course(plan, next_package(plan, 0), graph, earlier).stage;
        let now = course(plan, next_package(plan, 0), graph, events).stage;
        lemma_every_package_is_dealt_with(plan, graph, earlier);
        law_every_package_is_closed(plan, graph, earlier);
        lemma_step_under_way(plan, graph, events);
        assert forall|at: nat| at < packages_done(plan, now) implies #[trigger] package_done(
            plan,
            graph,
            events,
            at,
        ) by {
            if at < packages_done(plan, before) {
                lemma_package_done_grows(plan, graph, events, at);
            }
        }
    }
}

/// A run that is over has deleted every package that it was to uninstall, as it was found on disk,
/// but those that something or a dry run spares and those that the graph did not know.
pub proof fn law_finished_run_has_deleted_its_packages(
    plan: PlanView,
    graph: Graph,
    events: Seq<EventView>,
    at: nat,
)
    requires
        course(plan, next_package(plan, 0), graph, events).stage is Finished,
        at < plan.idents.len(),
    ensures
        exists|ident: Ident, deps: Seq<Ident>, dependents: Option<nat>|
            {
                &&& named(plan, graph, events, at, ident)
                &&& #[trigger] target_done(plan, graph, events, at, ident, deps, dependents)
                &&& {
                    ||| effects_of(plan, graph, events).contains(EffectView::Delete(ident))
                    ||| verdict(ident, plan.strategy, plan.excludes, plan.target_safety())
                        != Verdict::Delete
                    ||| dependents is None
                }
            },
{
    law_every_package_is_dealt_with(plan, graph, events);
    assert(package_done(plan, graph, events, at));
    let (ident, deps, dependents) = choose|
        ident: Ident,
        deps: Seq<Ident>,
        dependents: Option<nat>,
    | #[trigger]
        target_done(plan, graph, events, at, ident, deps, dependents) && (plan.scope
            == Scope::PackageAndDependencies ==> dependencies_done(
            plan,
            graph,
            events,
            at,
            ident,
            deps,
            deps.len(),
        ));
    if dependents is Some && verdict(ident, plan.strategy, plan.excludes, plan.target_safety())
        == Verdict::Delete {
        let shown = target_turn(plan, ident);
        assert(shown[1] == EffectView::Delete(ident));
        assert(shown.contains(EffectView::Delete(ident)));
    }
}

} // verus!
