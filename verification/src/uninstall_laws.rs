//! What holds of a whole run that uninstalls packages.

use crate::deletion::{
    spared, verdict, verdict_effects, EffectView, ExecutionStrategy, SafetyView, Status, Verdict,
};
use crate::ident::{any_satisfies, core_hab, Ident};
use crate::uninstall::{
    end_text, finish, go_on, next_package, not_in_graph, request, respond, target_deleted, uninstalling,
    EventView, PlanView, RequestView, Scope, StageView, UninstallSafety,
};
use vstd::prelude::*;

verus! {

/// A package graph: the packages, and for each the packages that it depends on.
pub ghost struct Graph {
    pub packages: Set<Ident>,
    pub needs: Set<(Ident, Ident)>,
}

impl Graph {
    /// The packages that depend on `package`.
    pub open spec fn dependents(self, package: Ident) -> Set<Ident> {
        self.packages.filter(|p: Ident| self.needs.contains((p, package)))
    }

    /// How many packages depend on `package`, or `None` where the graph does not know it.
    pub open spec fn count(self, package: Ident) -> Option<nat> {
        if self.packages.contains(package) {
            Some(self.dependents(package).len())
        } else {
            None
        }
    }

    /// The graph without `package`.
    pub open spec fn remove(self, package: Ident) -> Graph {
        Graph { packages: self.packages.remove(package), needs: self.needs }
    }

    /// The graph after the effects.
    pub open spec fn apply(self, list: Seq<EffectView>) -> Graph
        decreases list.len(),
    {
        if list.len() == 0 {
            self
        } else {
            match list.last() {
                EffectView::RemoveFromGraph(package) => self.apply(list.drop_last()).remove(
                    package,
                ),
                _ => self.apply(list.drop_last()),
            }
        }
    }

    /// There are finitely many packages, and none lacks a package that it depends on.
    pub open spec fn complete(self) -> bool {
        &&& self.packages.finite()
        &&& forall|p: Ident, q: Ident|
            self.packages.contains(p) && #[trigger] self.needs.contains((p, q))
                ==> self.packages.contains(q)
    }
}

/// Where a run has come to: its stage, the graph, all effects so far, and how many of the packages
/// that were to be uninstalled have been deleted.
pub ghost struct Course {
    pub stage: StageView,
    pub graph: Graph,
    pub effects: Seq<EffectView>,
    pub deleted: nat,
}

/// Where a run comes to that begins at `stage` and gets these answers, while its effects are
/// carried out on the graph.
pub open spec fn course(
    plan: PlanView,
    stage: StageView,
    graph: Graph,
    events: Seq<EventView>,
) -> Course
    decreases events.len(),
{
    if events.len() == 0 {
        Course { stage, graph, effects: seq![], deleted: 0 }
    } else {
        let before = course(plan, stage, graph, events.drop_last());
        let (next, list) = respond(plan, before.stage, events.last());
        Course {
            stage: next,
            graph: before.graph.apply(list),
            effects: before.effects + list,
            deleted: before.deleted + if target_deleted(plan, before.stage, events.last()) {
                1nat
            } else {
                0
            },
        }
    }
}

/// The answer says of the graph what is so.
pub open spec fn truthful_answer(stage: StageView, graph: Graph, event: EventView) -> bool {
    match (stage, event) {
        (StageView::LookingUp { at, ident }, EventView::InGraph { deps, dependents }) => {
            dependents == graph.count(ident)
        },
        (
            StageView::Counting { at, ident, deps, dep, unneeded },
            EventView::Dependents(dependents),
        ) => dependents == graph.count(deps[dep as int]),
        _ => true,
    }
}

/// Every answer says of the graph what is so at that time.
pub open spec fn truthful(
    plan: PlanView,
    stage: StageView,
    graph: Graph,
    events: Seq<EventView>,
) -> bool
    decreases events.len(),
{
    events.len() > 0 ==> {
        let before = course(plan, stage, graph, events.drop_last());
        &&& truthful(plan, stage, graph, events.drop_last())
        &&& truthful_answer(before.stage, before.graph, events.last())
    }
}

/// A dependency is found on disk under the identifier by which the graph lists it.
pub open spec fn found_as_listed(stage: StageView, event: EventView) -> bool {
    match (stage, event) {
        (
            StageView::LoadingDependency { at, ident, deps, dep, unneeded },
            EventView::Loaded(found),
        ) => found == deps[dep as int],
        _ => true,
    }
}

/// Every dependency is found on disk under the identifier by which the graph lists it.
pub open spec fn all_found_as_listed(
    plan: PlanView,
    stage: StageView,
    graph: Graph,
    events: Seq<EventView>,
) -> bool
    decreases events.len(),
{
    events.len() > 0 ==> {
        &&& all_found_as_listed(plan, stage, graph, events.drop_last())
        &&& found_as_listed(
            course(plan, stage, graph, events.drop_last()).stage,
            events.last(),
        )
    }
}

/// The package whose turn it is when `event` comes: nothing depends on it.
pub open spec fn having_turn(stage: StageView, event: EventView) -> Option<Ident> {
    match (stage, event) {
        (StageView::LookingUp { at, ident }, EventView::InGraph { deps, dependents }) => {
            if dependents == Some(0nat) {
                Some(ident)
            } else {
                None
            }
        },
        (
            StageView::LoadingDependency { at, ident, deps, dep, unneeded },
            EventView::Loaded(found),
        ) => Some(deps[dep as int]),
        _ => None,
    }
}

/// What the package whose turn it is was found as on disk.
pub open spec fn found_as(stage: StageView, event: EventView) -> Ident {
    match (stage, event) {
        (StageView::LookingUp { at, ident }, _) => ident,
        (_, EventView::Loaded(found)) => found,
        _ => arbitrary(),
    }
}

/// Whether the package whose turn it is is spared when it is loaded.
pub open spec fn safety_at(plan: PlanView, stage: StageView) -> SafetyView {
    if stage is LookingUp {
        plan.target_safety()
    } else {
        plan.dependency_safety()
    }
}

/// What becomes of the package whose turn it is.
pub open spec fn verdict_at(plan: PlanView, stage: StageView, event: EventView) -> Verdict {
    verdict(found_as(stage, event), plan.strategy, plan.excludes, safety_at(plan, stage))
}

/// The package whose turn it is when `event` comes, if it leaves the graph: nothing spares it,
/// unless this is a dry run.
pub open spec fn leaving(plan: PlanView, stage: StageView, event: EventView) -> Option<Ident> {
    if spared(verdict_at(plan, stage, event)) {
        None
    } else {
        having_turn(stage, event)
    }
}

/// What is shown and done of the package whose turn it is, and its removal if it leaves.
spec fn turn(plan: PlanView, stage: StageView, event: EventView) -> Seq<EffectView> {
    verdict_effects(found_as(stage, event), verdict_at(plan, stage, event)) + match leaving(
        plan,
        stage,
        event,
    ) {
        Some(package) => seq![EffectView::RemoveFromGraph(package)],
        None => seq![],
    }
}

/// A response begins with the turn of a package, if one has its turn.
spec fn turn_if_any(plan: PlanView, stage: StageView, event: EventView) -> Seq<EffectView> {
    if having_turn(stage, event) is Some {
        turn(plan, stage, event)
    } else {
        seq![]
    }
}

/// The effects neither delete a package, nor say so, nor change the graph.
spec fn plain(list: Seq<EffectView>) -> bool {
    forall|i: int|
        0 <= i < list.len() ==> match #[trigger] list[i] {
            EffectView::Delete(_) => false,
            EffectView::RemoveFromGraph(_) => false,
            EffectView::Status(status, _) => status != Status::Deleting && status
                != Status::DryRunDeleting,
            _ => true,
        }
}

/// What a response consists of after the turn of a package.
spec fn after_turn(plan: PlanView, stage: StageView, event: EventView) -> Seq<EffectView> {
    match (stage, event) {
        (StageView::LookingUp { at, ident }, EventView::InGraph { deps, dependents }) => {
            let warned = if dependents is None {
                seq![not_in_graph(ident)]
            } else {
                seq![]
            };
            if dependents is Some && dependents->0 > 0 {
                seq![]
            } else if plan.scope == Scope::Package {
                warned + seq![
                    EffectView::Status(Status::Skipping, "dependencies (--no-deps specified)"@),
                ] + finish(plan, at, ident, 0).1
            } else {
                warned + go_on(plan, at, ident, deps, 0, 0).1
            }
        },
        (
            StageView::LoadingDependency { at, ident, deps, dep, unneeded },
            EventView::Loaded(found),
        ) => go_on(plan, at, ident, deps, dep + 1, unneeded + 1).1,
        _ => respond(plan, stage, event).1,
    }
}

/// A response consists of the turn of a package, if one has its turn, and of plain effects.
proof fn lemma_response_shape(plan: PlanView, stage: StageView, event: EventView) -> (rest: Seq<
    EffectView,
>)
    ensures
        rest == after_turn(plan, stage, event),
        plain(rest),
        respond(plan, stage, event).1 == turn_if_any(plan, stage, event) + rest,
{
    let list = respond(plan, stage, event).1;
    let rest = after_turn(plan, stage, event);
    assert(list =~= turn_if_any(plan, stage, event) + rest);
    rest
}

proof fn lemma_apply_then_quiet(graph: Graph, first: Seq<EffectView>, then: Seq<EffectView>)
    requires
        forall|i: int| 0 <= i < then.len() ==> !(#[trigger] then[i] is RemoveFromGraph),
    ensures
        graph.apply(first + then) == graph.apply(first),
        removals(first + then) == removals(first),
    decreases then.len(),
{
    if then.len() == 0 {
        assert(first + then =~= first);
    } else {
        assert((first + then).drop_last() =~= first + then.drop_last());
        assert(!(then[then.len() - 1] is RemoveFromGraph));
        assert((first + then).last() == then.last());
        lemma_apply_then_quiet(graph, first, then.drop_last());
    }
}

/// A response takes out of the graph the package whose turn it is, unless it is spared, and no
/// other.
pub proof fn law_only_the_package_whose_turn_it_is_leaves(
    plan: PlanView,
    stage: StageView,
    event: EventView,
    graph: Graph,
)
    ensures
        graph.apply(respond(plan, stage, event).1) == (match leaving(plan, stage, event) {
            Some(package) => graph.remove(package),
            None => graph,
        }),
        removals(respond(plan, stage, event).1) == (if leaving(plan, stage, event) is Some {
            1nat
        } else {
            0nat
        }),
{
    let none = Seq::<EffectView>::empty();
    let rest = lemma_response_shape(plan, stage, event);
    let first = turn_if_any(plan, stage, event);
    lemma_apply_then_quiet(graph, first, rest);
    if having_turn(stage, event) is Some {
        let shown = verdict_effects(found_as(stage, event), verdict_at(plan, stage, event));
        assert(none + shown =~= shown);
        lemma_apply_then_quiet(graph, none, shown);
        match leaving(plan, stage, event) {
            Some(package) => {
                assert(first.drop_last() =~= shown);
            },
            None => {
                assert(first =~= shown);
            },
        }
    }
}

/// The dependency that is being loaded has no dependents left.
spec fn ready(stage: StageView, graph: Graph) -> bool {
    match stage {
        StageView::LoadingDependency { at, ident, deps, dep, unneeded } => graph.dependents(
            deps[dep as int],
        ) =~= Set::<Ident>::empty(),
        _ => true,
    }
}

proof fn lemma_remove_unneeded(graph: Graph, package: Ident)
    requires
        graph.complete(),
        graph.dependents(package) =~= Set::<Ident>::empty(),
    ensures
        graph.remove(package).complete(),
{
    let rest = graph.remove(package);
    assert forall|p: Ident, q: Ident|
        rest.packages.contains(p) && #[trigger] rest.needs.contains((p, q)) implies
        rest.packages.contains(q) by {
        assert(graph.packages.contains(q));
        if q == package {
            assert(graph.dependents(package).contains(p));
        }
    }
}

proof fn lemma_course_keeps_complete(
    plan: PlanView,
    stage: StageView,
    graph: Graph,
    events: Seq<EventView>,
)
    requires
        graph.complete(),
        ready(stage, graph),
        truthful(plan, stage, graph, events),
    ensures
        course(plan, stage, graph, events).graph.complete(),
        ready(
            course(plan, stage, graph, events).stage,
            course(plan, stage, graph, events).graph,
        ),
    decreases events.len(),
{
    if events.len() > 0 {
        lemma_course_keeps_complete(plan, stage, graph, events.drop_last());
        let before = course(plan, stage, graph, events.drop_last());
        let event = events.last();
        law_only_the_package_whose_turn_it_is_leaves(plan, before.stage, event, before.graph);
        match leaving(plan, before.stage, event) {
            Some(package) => {
                if before.stage is LookingUp {
                    before.graph.dependents(package).lemma_len0_is_empty();
                }
                lemma_remove_unneeded(before.graph, package);
            },
            None => {
                if respond(plan, before.stage, event).0 is LoadingDependency
                    && before.stage is Counting {
                    before.graph.dependents(
                        before.stage->Counting_deps[before.stage->Counting_dep as int],
                    ).lemma_len0_is_empty();
                }
            },
        }
    }
}

/// As long as the graph answers truthfully, no package that is left in it ever lacks a package
/// that it depends on: only what nothing depends on is taken out.
pub proof fn law_no_package_in_the_graph_loses_a_dependency(
    idents: Seq<Ident>,
    strategy: ExecutionStrategy,
    scope: Scope,
    excludes: Seq<Ident>,
    safety: UninstallSafety,
    loaded: Seq<Ident>,
    graph: Graph,
    events: Seq<EventView>,
)
    requires
        graph.complete(),
        ({
            let run = uninstalling(idents, strategy, scope, excludes, safety, loaded);
            truthful(run.plan, run.stage, graph, events)
        }),
    ensures
        ({
            let run = uninstalling(idents, strategy, scope, excludes, safety, loaded);
            course(run.plan, run.stage, graph, events).graph.complete()
        }),
{
    let run = uninstalling(idents, strategy, scope, excludes, safety, loaded);
    lemma_course_keeps_complete(run.plan, run.stage, graph, events);
}

/// The packages of the graph that are not deleted by the effects.
pub open spec fn still_installed(graph: Graph, list: Seq<EffectView>) -> Set<Ident> {
    graph.packages.filter(|p: Ident| !list.contains(EffectView::Delete(p)))
}

/// In a real run the graph holds just what is still installed.
proof fn lemma_graph_is_what_is_installed(
    plan: PlanView,
    stage: StageView,
    graph: Graph,
    events: Seq<EventView>,
)
    requires
        plan.strategy == ExecutionStrategy::Run,
        all_found_as_listed(plan, stage, graph, events),
    ensures
        ({
            let now = course(plan, stage, graph, events);
            &&& now.graph.packages == still_installed(graph, now.effects)
            &&& now.graph.needs == graph.needs
        }),
    decreases events.len(),
{
    let now = course(plan, stage, graph, events);
    if events.len() == 0 {
        assert(now.graph.packages =~= still_installed(graph, now.effects));
    } else {
        lemma_graph_is_what_is_installed(plan, stage, graph, events.drop_last());
        let before = course(plan, stage, graph, events.drop_last());
        let event = events.last();
        let list = respond(plan, before.stage, event).1;
        law_only_the_package_whose_turn_it_is_leaves(plan, before.stage, event, before.graph);
        assert forall|p: Ident|
            now.graph.packages.contains(p) == still_installed(graph, now.effects).contains(p) by {
            lemma_concat_contains(before.effects, list, EffectView::Delete(p));
            law_response_deletes_by_the_verdict(plan, before.stage, event, p);
        }
        assert(now.graph.packages =~= still_installed(graph, now.effects));
    }
}

/// No package that is still installed ever lacks a package that it depends on, whatever is spared:
/// only packages on which nothing that stays depends are deleted. This takes a graph that answers
/// truthfully, and dependencies that are found on disk under their own identifiers.
pub proof fn law_no_installed_package_loses_a_dependency(
    idents: Seq<Ident>,
    strategy: ExecutionStrategy,
    scope: Scope,
    excludes: Seq<Ident>,
    safety: UninstallSafety,
    loaded: Seq<Ident>,
    graph: Graph,
    events: Seq<EventView>,
)
    requires
        graph.complete(),
        ({
            let run = uninstalling(idents, strategy, scope, excludes, safety, loaded);
            &&& truthful(run.plan, run.stage, graph, events)
            &&& all_found_as_listed(run.plan, run.stage, graph, events)
        }),
    ensures
        ({
            let run = uninstalling(idents, strategy, scope, excludes, safety, loaded);
            let left = still_installed(
                graph,
                course(run.plan, run.stage, graph, events).effects,
            );
            forall|p: Ident, q: Ident|
                left.contains(p) && #[trigger] graph.needs.contains((p, q)) ==> left.contains(q)
        }),
{
    let run = uninstalling(idents, strategy, scope, excludes, safety, loaded);
    let now = course(run.plan, run.stage, graph, events);
    let left = still_installed(graph, now.effects);
    if strategy == ExecutionStrategy::Run {
        lemma_course_keeps_complete(run.plan, run.stage, graph, events);
        lemma_graph_is_what_is_installed(run.plan, run.stage, graph, events);
    } else {
        assert forall|p: Ident| graph.packages.contains(p) implies left.contains(p) by {
            law_dry_run_deletes_nothing(run.plan, run.stage, graph, events, p);
        }
    }
}

/// Nothing spares the package from the run: it is no dry run, the package is neither the `hab`
/// command nor excluded, and it is not loaded, unless loaded packages are uninstalled by force.
pub open spec fn deletable(plan: PlanView, package: Ident) -> bool {
    &&& plan.strategy == ExecutionStrategy::Run
    &&& !package.satisfies(core_hab())
    &&& !any_satisfies(plan.excludes, package)
    &&& plan.safety == UninstallSafety::Force || !any_satisfies(plan.loaded, package)
}

/// A response deletes the package whose turn it is, as it was found on disk, exactly where that is
/// the verdict on it, and no other.
pub proof fn law_response_deletes_by_the_verdict(
    plan: PlanView,
    stage: StageView,
    event: EventView,
    package: Ident,
)
    ensures
        respond(plan, stage, event).1.contains(EffectView::Delete(package)) == ({
            &&& having_turn(stage, event) is Some
            &&& verdict_at(plan, stage, event) == Verdict::Delete
            &&& package == found_as(stage, event)
        }),
{
    let rest = lemma_response_shape(plan, stage, event);
    let delete = EffectView::Delete(package);
    lemma_concat_contains(turn_if_any(plan, stage, event), rest, delete);
    if having_turn(stage, event) is Some {
        let shown = verdict_effects(found_as(stage, event), verdict_at(plan, stage, event));
        let removal = turn(plan, stage, event).skip(shown.len() as int);
        assert(turn(plan, stage, event) =~= shown + removal);
        lemma_concat_contains(shown, removal, delete);
        if verdict_at(plan, stage, event) == Verdict::Delete {
            assert(shown[1] == EffectView::Delete(found_as(stage, event)));
        }
    }
}

/// A response deletes at most the package whose turn it is, as it was found on disk, and deletes
/// it only if nothing spares it. A dependency that is loaded is spared even by force.
pub proof fn law_response_deletes_only_what_may_go(
    plan: PlanView,
    stage: StageView,
    event: EventView,
    package: Ident,
)
    requires
        respond(plan, stage, event).1.contains(EffectView::Delete(package)),
    ensures
        deletable(plan, package),
        leaving(plan, stage, event) is Some,
        stage matches StageView::LookingUp { at, ident } ==> package == ident,
        stage is LoadingDependency ==> event == EventView::Loaded(package) && !any_satisfies(
            plan.loaded,
            package,
        ),
{
    law_response_deletes_by_the_verdict(plan, stage, event, package);
}

/// Whatever the answers, a run deletes only packages that nothing spares.
pub proof fn law_run_deletes_only_what_may_go(
    plan: PlanView,
    stage: StageView,
    graph: Graph,
    events: Seq<EventView>,
    package: Ident,
)
    requires
        course(plan, stage, graph, events).effects.contains(EffectView::Delete(package)),
    ensures
        deletable(plan, package),
    decreases events.len(),
{
    if events.len() > 0 {
        let before = course(plan, stage, graph, events.drop_last());
        let list = respond(plan, before.stage, events.last()).1;
        let all = before.effects + list;
        let i = choose|i: int| 0 <= i < all.len() && all[i] == EffectView::Delete(package);
        if i < before.effects.len() {
            assert(before.effects[i] == EffectView::Delete(package));
            law_run_deletes_only_what_may_go(plan, stage, graph, events.drop_last(), package);
        } else {
            assert(list[i - before.effects.len()] == EffectView::Delete(package));
            law_response_deletes_only_what_may_go(plan, before.stage, events.last(), package);
        }
    }
}

/// A dry run deletes nothing, whatever the answers.
pub proof fn law_dry_run_deletes_nothing(
    plan: PlanView,
    stage: StageView,
    graph: Graph,
    events: Seq<EventView>,
    package: Ident,
)
    requires
        plan.strategy == ExecutionStrategy::DryRun,
    ensures
        !course(plan, stage, graph, events).effects.contains(EffectView::Delete(package)),
{
    if course(plan, stage, graph, events).effects.contains(EffectView::Delete(package)) {
        law_run_deletes_only_what_may_go(plan, stage, graph, events, package);
    }
}

/// The stage of a run when the answer at `k` comes.
pub open spec fn stage_at(
    plan: PlanView,
    graph: Graph,
    events: Seq<EventView>,
    k: int,
) -> StageView {
    course(plan, next_package(plan, 0), graph, events.take(k)).stage
}

/// At some point the run was at a stage and took an answer.
pub open spec fn met(
    plan: PlanView,
    graph: Graph,
    events: Seq<EventView>,
    stage: StageView,
    event: EventView,
) -> bool {
    exists|k: int|
        0 <= k < events.len() && #[trigger] events[k] == event && stage_at(plan, graph, events, k)
            == stage
}

/// The package that the run was to uninstall at `at` was found as `package`.
pub open spec fn named(
    plan: PlanView,
    graph: Graph,
    events: Seq<EventView>,
    at: nat,
    package: Ident,
) -> bool {
    &&& at < plan.idents.len()
    &&& met(plan, graph, events, StageView::Loading { at }, EventView::Loaded(package))
}

/// The graph gave `deps` as the dependencies of the package at `at`, which was found as `ident`.
pub open spec fn looked_up(
    plan: PlanView,
    graph: Graph,
    events: Seq<EventView>,
    at: nat,
    ident: Ident,
    deps: Seq<Ident>,
) -> bool {
    &&& named(plan, graph, events, at, ident)
    &&& exists|dependents: Option<nat>|
        met(
            plan,
            graph,
            events,
            StageView::LookingUp { at, ident },
            #[trigger] in_graph(deps, dependents),
        )
}

/// The answer that a package has these dependencies and so many dependents.
pub open spec fn in_graph(deps: Seq<Ident>, dependents: Option<nat>) -> EventView {
    EventView::InGraph { deps, dependents }
}

/// A dependency that the graph gave of one of the packages that the run was to uninstall was found
/// as `package`.
pub open spec fn listed(
    plan: PlanView,
    graph: Graph,
    events: Seq<EventView>,
    package: Ident,
) -> bool {
    exists|k: int|
        0 <= k < events.len() && #[trigger] events[k] == EventView::Loaded(package) && (stage_at(
            plan,
            graph,
            events,
            k,
        ) matches StageView::LoadingDependency { at, ident, deps, dep, unneeded } && dep
            < deps.len() && looked_up(plan, graph, events.take(k), at, ident, deps))
}

/// What a stage holds of a package and its dependencies was answered before.
spec fn traced(plan: PlanView, graph: Graph, events: Seq<EventView>, stage: StageView) -> bool {
    match stage {
        StageView::LookingUp { at, ident } => named(plan, graph, events, at, ident),
        StageView::Counting { at, ident, deps, dep, unneeded } => dep < deps.len() && looked_up(
            plan,
            graph,
            events,
            at,
            ident,
            deps,
        ),
        StageView::LoadingDependency { at, ident, deps, dep, unneeded } => dep < deps.len()
            && looked_up(plan, graph, events, at, ident, deps),
        _ => true,
    }
}

pub(crate) proof fn lemma_met_grows(
    plan: PlanView,
    graph: Graph,
    events: Seq<EventView>,
    stage: StageView,
    event: EventView,
)
    requires
        events.len() > 0,
        met(plan, graph, events.drop_last(), stage, event),
    ensures
        met(plan, graph, events, stage, event),
{
    let earlier = events.drop_last();
    let k = choose|k: int|
        0 <= k < earlier.len() && #[trigger] earlier[k] == event && stage_at(
            plan,
            graph,
            earlier,
            k,
        ) == stage;
    assert(earlier.take(k) =~= events.take(k));
    assert(events[k] == event);
}

pub(crate) proof fn lemma_met_last(plan: PlanView, graph: Graph, events: Seq<EventView>)
    requires
        events.len() > 0,
    ensures
        met(
            plan,
            graph,
            events,
            course(plan, next_package(plan, 0), graph, events.drop_last()).stage,
            events.last(),
        ),
{
    assert(events.take(events.len() - 1) =~= events.drop_last());
    assert(events[events.len() - 1] == events.last());
}

proof fn lemma_looked_up_grows(
    plan: PlanView,
    graph: Graph,
    events: Seq<EventView>,
    at: nat,
    ident: Ident,
    deps: Seq<Ident>,
)
    requires
        events.len() > 0,
        looked_up(plan, graph, events.drop_last(), at, ident, deps),
    ensures
        looked_up(plan, graph, events, at, ident, deps),
{
    let earlier = events.drop_last();
    let stage = StageView::LookingUp { at, ident };
    let dependents = choose|dependents: Option<nat>|
        met(plan, graph, earlier, stage, #[trigger] in_graph(deps, dependents));
    lemma_met_grows(
        plan,
        graph,
        events,
        StageView::Loading { at },
        EventView::Loaded(ident),
    );
    lemma_met_grows(plan, graph, events, stage, in_graph(deps, dependents));
}

proof fn lemma_traced(plan: PlanView, graph: Graph, events: Seq<EventView>)
    ensures
        traced(
            plan,
            graph,
            events,
            course(plan, next_package(plan, 0), graph, events).stage,
        ),
    decreases events.len(),
{
    if events.len() > 0 {
        let earlier = events.drop_last();
        lemma_traced(plan, graph, earlier);
        law_every_package_is_closed(plan, graph, earlier);
        lemma_met_last(plan, graph, events);
        match course(plan, next_package(plan, 0), graph, earlier).stage {
            StageView::LookingUp { at, ident } => {
                lemma_met_grows(
                    plan,
                    graph,
                    events,
                    StageView::Loading { at },
                    EventView::Loaded(ident),
                );
                if let EventView::InGraph { deps, dependents } = events.last() {
                    assert(events.last() == in_graph(deps, dependents));
                }
            },
            StageView::Counting { at, ident, deps, dep, unneeded } => {
                lemma_looked_up_grows(plan, graph, events, at, ident, deps);
            },
            StageView::LoadingDependency { at, ident, deps, dep, unneeded } => {
                lemma_looked_up_grows(plan, graph, events, at, ident, deps);
            },
            _ => {},
        }
    }
}

/// The package was asked for, by name or as a listed dependency.
#[verifier::opaque]
spec fn named_or_listed(
    plan: PlanView,
    graph: Graph,
    events: Seq<EventView>,
    package: Ident,
) -> bool {
    (exists|at: nat| named(plan, graph, events, at, package)) || listed(
        plan,
        graph,
        events,
        package,
    )
}

proof fn lemma_listed_grows(
    plan: PlanView,
    graph: Graph,
    events: Seq<EventView>,
    package: Ident,
)
    requires
        events.len() > 0,
        listed(plan, graph, events.drop_last(), package),
    ensures
        listed(plan, graph, events, package),
{
    let earlier = events.drop_last();
    let k = choose|k: int|
        0 <= k < earlier.len() && #[trigger] earlier[k] == EventView::Loaded(package) && (stage_at(
            plan,
            graph,
            earlier,
            k,
        ) matches StageView::LoadingDependency { at, ident, deps, dep, unneeded } && dep
            < deps.len() && looked_up(plan, graph, earlier.take(k), at, ident, deps));
    assert(earlier.take(k) =~= events.take(k));
    assert(events[k] == EventView::Loaded(package));
}

proof fn lemma_last_deletion(
    plan: PlanView,
    graph: Graph,
    events: Seq<EventView>,
    package: Ident,
)
    requires
        events.len() > 0,
        respond(
            plan,
            course(plan, next_package(plan, 0), graph, events.drop_last()).stage,
            events.last(),
        ).1.contains(EffectView::Delete(package)),
    ensures
        named_or_listed(plan, graph, events, package),
{
    reveal(named_or_listed);
    let stage = course(plan, next_package(plan, 0), graph, events.drop_last()).stage;
    law_response_deletes_by_the_verdict(plan, stage, events.last(), package);
    lemma_traced(plan, graph, events.drop_last());
    match stage {
        StageView::LookingUp { at, ident } => {
            lemma_met_grows(
                plan,
                graph,
                events,
                StageView::Loading { at },
                EventView::Loaded(ident),
            );
            assert(named(plan, graph, events, at, package));
        },
        _ => {
            let last = events.len() - 1;
            assert(events.take(last) =~= events.drop_last());
            assert(events[last] == EventView::Loaded(package));
        },
    }
}

proof fn lemma_named_or_listed_grows(
    plan: PlanView,
    graph: Graph,
    events: Seq<EventView>,
    package: Ident,
)
    requires
        events.len() > 0,
        named_or_listed(plan, graph, events.drop_last(), package),
    ensures
        named_or_listed(plan, graph, events, package),
{
    reveal(named_or_listed);
    let earlier = events.drop_last();
    if listed(plan, graph, earlier, package) {
        lemma_listed_grows(plan, graph, events, package);
    } else {
        let at = choose|at: nat| named(plan, graph, earlier, at, package);
        lemma_met_grows(
            plan,
            graph,
            events,
            StageView::Loading { at },
            EventView::Loaded(package),
        );
        assert(named(plan, graph, events, at, package));
    }
}

proof fn lemma_deletes_only_named_or_listed(
    plan: PlanView,
    graph: Graph,
    events: Seq<EventView>,
    package: Ident,
)
    requires
        course(plan, next_package(plan, 0), graph, events).effects.contains(
            EffectView::Delete(package),
        ),
    ensures
        named_or_listed(plan, graph, events, package),
    decreases events.len(),
{
    if events.len() > 0 {
        let before = course(plan, next_package(plan, 0), graph, events.drop_last());
        let list = respond(plan, before.stage, events.last()).1;
        let delete = EffectView::Delete(package);
        lemma_concat_contains(before.effects, list, delete);
        if before.effects.contains(delete) {
            lemma_deletes_only_named_or_listed(plan, graph, events.drop_last(), package);
            lemma_named_or_listed_grows(plan, graph, events, package);
        } else {
            lemma_last_deletion(plan, graph, events, package);
        }
    }
}

/// Whatever the answers, a run deletes only packages that it was asked to uninstall and
/// dependencies that the graph gave of these, each as it was found on disk.
pub proof fn law_run_deletes_only_named_packages_and_their_dependencies(
    plan: PlanView,
    graph: Graph,
    events: Seq<EventView>,
    package: Ident,
)
    requires
        course(plan, next_package(plan, 0), graph, events).effects.contains(
            EffectView::Delete(package),
        ),
    ensures
        (exists|at: nat| named(plan, graph, events, at, package)) || listed(
            plan,
            graph,
            events,
            package,
        ),
{
    lemma_deletes_only_named_or_listed(plan, graph, events, package);
    reveal(named_or_listed);
}

/// The deletions among the effects.
pub open spec fn deletions(list: Seq<EffectView>) -> nat
    decreases list.len(),
{
    if list.len() == 0 {
        0
    } else {
        deletions(list.drop_last()) + if list.last() is Delete {
            1nat
        } else {
            0nat
        }
    }
}

proof fn lemma_deletions_concat(first: Seq<EffectView>, then: Seq<EffectView>)
    ensures
        deletions(first + then) == deletions(first) + deletions(then),
    decreases then.len(),
{
    if then.len() == 0 {
        assert(first + then =~= first);
    } else {
        assert((first + then).drop_last() =~= first + then.drop_last());
        lemma_deletions_concat(first, then.drop_last());
    }
}

proof fn lemma_deletes_nothing(list: Seq<EffectView>)
    requires
        forall|i: int| 0 <= i < list.len() ==> !(#[trigger] list[i] is Delete),
    ensures
        deletions(list) == 0,
    decreases list.len(),
{
    if list.len() > 0 {
        lemma_deletes_nothing(list.drop_last());
    }
}

proof fn lemma_response_deletions(plan: PlanView, stage: StageView, event: EventView)
    ensures
        deletions(respond(plan, stage, event).1) == (if having_turn(stage, event) is Some
            && verdict_at(plan, stage, event) == Verdict::Delete {
            1nat
        } else {
            0nat
        }),
{
    let rest = lemma_response_shape(plan, stage, event);
    let first = turn_if_any(plan, stage, event);
    lemma_deletions_concat(first, rest);
    lemma_deletes_nothing(rest);
    if having_turn(stage, event) is Some && verdict_at(plan, stage, event) == Verdict::Delete {
        assert(first =~= seq![first[0]] + (seq![first[1]] + seq![first[2]]));
        lemma_deletions_concat(seq![first[0]], seq![first[1]] + seq![first[2]]);
        lemma_deletions_concat(seq![first[1]], seq![first[2]]);
        reveal_with_fuel(deletions, 2);
    } else {
        lemma_deletes_nothing(first);
    }
}

/// The number of deleted packages that a run tells goes up by one exactly with a response that
/// deletes a package that was to be uninstalled, not with one that deletes a dependency.
pub proof fn law_deleted_package_is_counted(plan: PlanView, stage: StageView, event: EventView)
    ensures
        target_deleted(plan, stage, event) == (stage matches StageView::LookingUp { at, ident }
            && respond(plan, stage, event).1.contains(EffectView::Delete(ident))),
{
    if let StageView::LookingUp { at, ident } = stage {
        law_response_deletes_by_the_verdict(plan, stage, event, ident);
    }
}

/// The number of deleted packages that a run tells never exceeds the number of packages that it
/// was to uninstall, nor the number of deletions, to which it is equal where dependencies are left
/// alone.
pub proof fn law_deleted_packages_are_counted(
    plan: PlanView,
    graph: Graph,
    events: Seq<EventView>,
)
    ensures
        ({
            let now = course(plan, next_package(plan, 0), graph, events);
            &&& now.deleted <= plan.idents.len()
            &&& now.deleted <= deletions(now.effects)
            &&& plan.scope == Scope::Package ==> now.deleted == deletions(now.effects)
        }),
{
    lemma_deleted(plan, graph, events);
    law_every_package_is_closed(plan, graph, events);
}

proof fn lemma_deleted(plan: PlanView, graph: Graph, events: Seq<EventView>)
    ensures
        ({
            let now = course(plan, next_package(plan, 0), graph, events);
            &&& now.deleted <= packages_done(plan, now.stage) + if now.stage is Counting
                || now.stage is LoadingDependency {
                1nat
            } else {
                0
            }
            &&& now.deleted <= deletions(now.effects)
            &&& plan.scope == Scope::Package ==> {
                &&& now.deleted == deletions(now.effects)
                &&& !(now.stage is Counting)
                &&& !(now.stage is LoadingDependency)
            }
        }),
    decreases events.len(),
{
    if events.len() > 0 {
        let before = course(plan, next_package(plan, 0), graph, events.drop_last());
        lemma_deleted(plan, graph, events.drop_last());
        law_every_package_is_closed(plan, graph, events.drop_last());
        lemma_response_deletions(plan, before.stage, events.last());
        lemma_deletions_concat(
            before.effects,
            respond(plan, before.stage, events.last()).1,
        );
    }
}

/// The same plan, to be carried out in another way.
pub open spec fn with_strategy(plan: PlanView, strategy: ExecutionStrategy) -> PlanView {
    PlanView { strategy, ..plan }
}

/// The effects without the deletions.
pub open spec fn without_deletions(list: Seq<EffectView>) -> Seq<EffectView>
    decreases list.len(),
{
    if list.len() == 0 {
        seq![]
    } else if list.last() is Delete {
        without_deletions(list.drop_last())
    } else {
        without_deletions(list.drop_last()).push(list.last())
    }
}

/// The effect of a dry run that stands for an effect of the real run: a package that is deleted is
/// said to be one that would be, the line that closes the work on a package is that of a dry run
/// with the same number, and everything else is the same.
pub open spec fn stands_for(dry: EffectView, earnest: EffectView) -> bool {
    match earnest {
        EffectView::Status(Status::Deleting, text) => dry == EffectView::Status(
            Status::DryRunDeleting,
            text,
        ),
        EffectView::Status(Status::DryRunDeleting, _) => false,
        EffectView::Delete(_) => false,
        EffectView::End(text) => exists|ident: Ident, unneeded: nat|
            dry == EffectView::End(
                #[trigger] end_text(ident, ExecutionStrategy::DryRun, unneeded),
            ) && text == end_text(ident, ExecutionStrategy::Run, unneeded),
        _ => dry == earnest,
    }
}

/// The effects of a dry run stand for those of the real run, one for one and in that order.
pub open spec fn foretells(dry: Seq<EffectView>, earnest: Seq<EffectView>) -> bool {
    &&& dry.len() == earnest.len()
    &&& forall|i: int| 0 <= i < dry.len() ==> stands_for(#[trigger] dry[i], earnest[i])
}

proof fn lemma_without_deletions_concat(first: Seq<EffectView>, then: Seq<EffectView>)
    ensures
        without_deletions(first + then) == without_deletions(first) + without_deletions(then),
    decreases then.len(),
{
    if then.len() == 0 {
        assert(first + then =~= first);
        assert(without_deletions(first) + without_deletions(then) =~= without_deletions(first));
    } else {
        assert((first + then).drop_last() =~= first + then.drop_last());
        lemma_without_deletions_concat(first, then.drop_last());
        assert(without_deletions(first + then) =~= without_deletions(first) + without_deletions(
            then,
        ));
    }
}

proof fn lemma_no_deletions(list: Seq<EffectView>)
    requires
        forall|i: int| 0 <= i < list.len() ==> !(#[trigger] list[i] is Delete),
    ensures
        without_deletions(list) == list,
    decreases list.len(),
{
    if list.len() > 0 {
        lemma_no_deletions(list.drop_last());
        assert(list.drop_last().push(list.last()) =~= list);
    }
}

proof fn lemma_turn_without_deletions(plan: PlanView, stage: StageView, event: EventView)
    requires
        having_turn(stage, event) is Some,
    ensures
        ({
            let first = turn(plan, stage, event);
            without_deletions(first) == (if verdict_at(plan, stage, event) == Verdict::Delete {
                seq![first[0], first[2]]
            } else {
                first
            })
        }),
{
    let first = turn(plan, stage, event);
    if verdict_at(plan, stage, event) == Verdict::Delete {
        let a = seq![first[0]];
        let b = seq![first[1]];
        let c = seq![first[2]];
        assert(first =~= a + (b + c));
        lemma_without_deletions_concat(a, b + c);
        lemma_without_deletions_concat(b, c);
        lemma_no_deletions(a);
        lemma_no_deletions(c);
        reveal_with_fuel(without_deletions, 2);
        assert(without_deletions(b) =~= Seq::<EffectView>::empty());
        assert(without_deletions(first) =~= seq![first[0], first[2]]);
    } else {
        lemma_no_deletions(first);
    }
}

proof fn lemma_turn_foretold(plan: PlanView, stage: StageView, event: EventView)
    ensures
        foretells(
            turn_if_any(with_strategy(plan, ExecutionStrategy::DryRun), stage, event),
            without_deletions(
                turn_if_any(with_strategy(plan, ExecutionStrategy::Run), stage, event),
            ),
        ),
{
    if having_turn(stage, event) is Some {
        lemma_turn_without_deletions(
            with_strategy(plan, ExecutionStrategy::Run),
            stage,
            event,
        );
    }
}

proof fn lemma_rest_foretold(plan: PlanView, stage: StageView, event: EventView)
    ensures
        foretells(
            after_turn(with_strategy(plan, ExecutionStrategy::DryRun), stage, event),
            after_turn(with_strategy(plan, ExecutionStrategy::Run), stage, event),
        ),
{
}

proof fn lemma_response_foretold(plan: PlanView, stage: StageView, event: EventView)
    ensures
        ({
            let dry = respond(with_strategy(plan, ExecutionStrategy::DryRun), stage, event);
            let earnest = respond(with_strategy(plan, ExecutionStrategy::Run), stage, event);
            &&& dry.0 == earnest.0
            &&& foretells(dry.1, without_deletions(earnest.1))
        }),
{
    let dry_plan = with_strategy(plan, ExecutionStrategy::DryRun);
    let earnest_plan = with_strategy(plan, ExecutionStrategy::Run);
    let dry_rest = lemma_response_shape(dry_plan, stage, event);
    let earnest_rest = lemma_response_shape(earnest_plan, stage, event);
    let dry_first = turn_if_any(dry_plan, stage, event);
    let earnest_first = turn_if_any(earnest_plan, stage, event);
    lemma_without_deletions_concat(earnest_first, earnest_rest);
    lemma_no_deletions(earnest_rest);
    lemma_turn_foretold(plan, stage, event);
    lemma_rest_foretold(plan, stage, event);
    lemma_foretells_concat(
        dry_first,
        without_deletions(earnest_first),
        dry_rest,
        earnest_rest,
    );
}

proof fn lemma_foretells_concat(
    dry: Seq<EffectView>,
    earnest: Seq<EffectView>,
    dry_then: Seq<EffectView>,
    earnest_then: Seq<EffectView>,
)
    requires
        foretells(dry, earnest),
        foretells(dry_then, earnest_then),
    ensures
        foretells(dry + dry_then, earnest + earnest_then),
{
    let all = dry + dry_then;
    assert forall|i: int| 0 <= i < all.len() implies stands_for(
        #[trigger] all[i],
        (earnest + earnest_then)[i],
    ) by {
        if i < dry.len() {
            assert(stands_for(dry[i], earnest[i]));
        } else {
            assert(stands_for(dry_then[i - dry.len()], earnest_then[i - dry.len()]));
        }
    }
}

/// A dry run shows what the real run would do: given the same answers it goes through the same
/// stages, leaves the same graph, and, but for the deletions themselves, shows and does the same
/// in the same order: it says of the same packages that it would delete them where the real run
/// says that it does, and closes the work on each package with the same number.
pub proof fn law_dry_run_foretells_the_run(
    plan: PlanView,
    stage: StageView,
    graph: Graph,
    events: Seq<EventView>,
)
    ensures
        ({
            let dry = course(with_strategy(plan, ExecutionStrategy::DryRun), stage, graph, events);
            let earnest = course(with_strategy(plan, ExecutionStrategy::Run), stage, graph, events);
            &&& dry.stage == earnest.stage
            &&& dry.graph == earnest.graph
            &&& foretells(dry.effects, without_deletions(earnest.effects))
        }),
    decreases events.len(),
{
    let dry_plan = with_strategy(plan, ExecutionStrategy::DryRun);
    let earnest_plan = with_strategy(plan, ExecutionStrategy::Run);
    if events.len() > 0 {
        law_dry_run_foretells_the_run(plan, stage, graph, events.drop_last());
        let dry = course(dry_plan, stage, graph, events.drop_last());
        let earnest = course(earnest_plan, stage, graph, events.drop_last());
        let event = events.last();
        lemma_response_foretold(plan, dry.stage, event);
        law_only_the_package_whose_turn_it_is_leaves(dry_plan, dry.stage, event, dry.graph);
        law_only_the_package_whose_turn_it_is_leaves(earnest_plan, dry.stage, event, dry.graph);
        let dry_list = respond(dry_plan, dry.stage, event).1;
        let earnest_list = respond(earnest_plan, dry.stage, event).1;
        lemma_without_deletions_concat(earnest.effects, earnest_list);
        lemma_foretells_concat(
            dry.effects,
            without_deletions(earnest.effects),
            dry_list,
            without_deletions(earnest_list),
        );
    }
}

pub(crate) proof fn lemma_concat_contains(a: Seq<EffectView>, b: Seq<EffectView>, x: EffectView)
    ensures
        (a + b).contains(x) == (a.contains(x) || b.contains(x)),
{
    let all = a + b;
    if a.contains(x) {
        let i = choose|i: int| 0 <= i < a.len() && a[i] == x;
        assert(all[i] == x);
    }
    if b.contains(x) {
        let i = choose|i: int| 0 <= i < b.len() && b[i] == x;
        assert(all[a.len() + i] == x);
    }
    if all.contains(x) {
        let i = choose|i: int| 0 <= i < all.len() && all[i] == x;
        if i < a.len() {
            assert(a[i] == x);
        } else {
            assert(b[i - a.len()] == x);
        }
    }
}

proof fn lemma_package_scope(
    plan: PlanView,
    graph: Graph,
    events: Seq<EventView>,
    package: Ident,
)
    requires
        plan.scope == Scope::Package,
    ensures
        ({
            let now = course(plan, next_package(plan, 0), graph, events);
            &&& !(now.stage is Counting)
            &&& !(now.stage is LoadingDependency)
            &&& now.stage matches StageView::LookingUp { at, ident } ==> events.contains(
                EventView::Loaded(ident),
            )
            &&& now.effects.contains(EffectView::RemoveFromGraph(package)) ==> events.contains(
                EventView::Loaded(package),
            )
        }),
    decreases events.len(),
{
    if events.len() > 0 {
        let earlier = events.drop_last();
        lemma_package_scope(plan, graph, earlier, package);
        let before = course(plan, next_package(plan, 0), graph, earlier);
        let event = events.last();
        let rest = lemma_response_shape(plan, before.stage, event);
        let first = turn_if_any(plan, before.stage, event);
        let removal = EffectView::RemoveFromGraph(package);
        let list = respond(plan, before.stage, event).1;
        lemma_concat_contains(before.effects, list, removal);
        assert(events[events.len() - 1] == event);
        assert forall|e: EventView| earlier.contains(e) implies events.contains(e) by {
            let i = choose|i: int| 0 <= i < earlier.len() && earlier[i] == e;
            assert(events[i] == e);
        }
        lemma_concat_contains(first, rest, removal);
    }
}

/// A run without the dependencies takes nothing out of the graph but packages that it was asked
/// to uninstall, as they were found on disk, and asks nothing about a dependency.
pub proof fn law_package_scope_spares_dependencies(
    plan: PlanView,
    graph: Graph,
    events: Seq<EventView>,
    package: Ident,
)
    requires
        plan.scope == Scope::Package,
    ensures
        ({
            let now = course(plan, next_package(plan, 0), graph, events);
            &&& request(plan, now.stage) matches RequestView::Load(asked) ==> exists|at: nat|
                now.stage == (StageView::Loading { at }) && asked == #[trigger] plan.idents[at as int]
            &&& !(request(plan, now.stage) is CountDependents)
            &&& now.effects.contains(EffectView::RemoveFromGraph(package)) ==> events.contains(
                EventView::Loaded(package),
            )
        }),
{
    lemma_package_scope(plan, graph, events, package);
    let now = course(plan, next_package(plan, 0), graph, events);
    if request(plan, now.stage) is Load {
        assert(now.stage == (StageView::Loading { at: now.stage->Loading_at }));
    }
}

/// A package on which others depend is refused with their number. Nothing is done to it, and the
/// run stays refused, whatever is answered to it.
pub proof fn law_needed_package_is_refused(
    plan: PlanView,
    at: nat,
    ident: Ident,
    deps: Seq<Ident>,
    dependents: nat,
    later: EventView,
)
    requires
        dependents > 0,
    ensures
        ({
            let (stage, list) = respond(
                plan,
                StageView::LookingUp { at, ident },
                EventView::InGraph { deps, dependents: Some(dependents) },
            );
            &&& list.len() == 0
            &&& request(plan, stage) == RequestView::CannotRemovePackage(ident, dependents)
            &&& respond(plan, stage, later) == (stage, Seq::<EffectView>::empty())
        }),
{
}

/// The packages that effects take out of the graph.
pub open spec fn removals(list: Seq<EffectView>) -> nat
    decreases list.len(),
{
    if list.len() == 0 {
        0
    } else {
        removals(list.drop_last()) + if list.last() is RemoveFromGraph {
            1nat
        } else {
            0nat
        }
    }
}

/// The number in the line that closes the work on a package counts the dependencies on which
/// nothing depended when their turn came, spared or not: it is zero when the package itself has
/// had its turn, and each dependency that has its turn adds one. Of these, the ones that are not
/// spared leave the graph.
pub proof fn law_unneeded_dependencies_are_counted(
    plan: PlanView,
    at: nat,
    ident: Ident,
    deps: Seq<Ident>,
    dep: nat,
    unneeded: nat,
    dependents: Option<nat>,
    found: Ident,
)
    requires
        plan.scope == Scope::PackageAndDependencies,
        dependents is Some ==> dependents->0 == 0,
    ensures
        ({
            let r = respond(
                plan,
                StageView::LookingUp { at, ident },
                EventView::InGraph { deps, dependents },
            );
            r.0 == go_on(plan, at, ident, deps, 0, 0).0
        }),
        ({
            let r = respond(
                plan,
                StageView::Counting { at, ident, deps, dep, unneeded },
                EventView::Dependents(dependents),
            );
            &&& removals(r.1) == 0
            &&& r.0 == (if dependents is Some {
                StageView::LoadingDependency { at, ident, deps, dep, unneeded }
            } else {
                go_on(plan, at, ident, deps, dep + 1, unneeded).0
            })
        }),
        ({
            let r = respond(
                plan,
                StageView::LoadingDependency { at, ident, deps, dep, unneeded },
                EventView::Loaded(found),
            );
            &&& removals(r.1) == (if spared(
                verdict(found, plan.strategy, plan.excludes, plan.dependency_safety()),
            ) {
                0nat
            } else {
                1nat
            })
            &&& r.0 == go_on(plan, at, ident, deps, dep + 1, unneeded + 1).0
        }),
{
    law_only_the_package_whose_turn_it_is_leaves(
        plan,
        StageView::Counting { at, ident, deps, dep, unneeded },
        EventView::Dependents(dependents),
        arbitrary(),
    );
    law_only_the_package_whose_turn_it_is_leaves(
        plan,
        StageView::LoadingDependency { at, ident, deps, dep, unneeded },
        EventView::Loaded(found),
        arbitrary(),
    );
}

/// None of the packages depends on itself or on one before it.
pub open spec fn in_order(graph: Graph, deps: Seq<Ident>) -> bool {
    forall|i: int, j: int|
        0 <= i <= j < deps.len() ==> !graph.needs.contains((#[trigger] deps[j], #[trigger] deps[i]))
}

/// The package is not in the graph, or something depends on it, or it is spared as a dependency.
pub open spec fn settled(plan: PlanView, graph: Graph, package: Ident) -> bool {
    ||| graph.count(package) != Some(0nat)
    ||| spared(verdict(package, plan.strategy, plan.excludes, plan.dependency_safety()))
}

/// The dependencies of the package at `at` are having their turns.
pub open spec fn at_dependencies(stage: StageView, at: nat) -> bool {
    match stage {
        StageView::Counting { at: a, ident, deps, dep, unneeded } => a == at,
        StageView::LoadingDependency { at: a, ident, deps, dep, unneeded } => a == at,
        _ => false,
    }
}

/// The dependency at `i` is settled, or was while a later one of the dependencies still needed it
/// that has since left the graph.
pub open spec fn accounted_for(
    plan: PlanView,
    start: Graph,
    graph: Graph,
    deps: Seq<Ident>,
    i: int,
) -> bool {
    ||| settled(plan, graph, deps[i])
    ||| exists|j: int|
        i < j < deps.len() && start.needs.contains((#[trigger] deps[j], deps[i]))
            && start.packages.contains(deps[j]) && !graph.packages.contains(deps[j])
}

/// The dependencies before `dep` are accounted for.
spec fn accounted_before(
    plan: PlanView,
    start: Graph,
    graph: Graph,
    deps: Seq<Ident>,
    dep: nat,
) -> bool {
    forall|i: int| 0 <= i < dep ==> accounted_for(plan, start, graph, deps, i)
}

/// The dependencies that have had their turn are accounted for, or the work on them is over.
spec fn settling(
    plan: PlanView,
    start: Graph,
    graph: Graph,
    stage: StageView,
    at: nat,
    deps: Seq<Ident>,
) -> bool {
    &&& graph.needs == start.needs
    &&& graph.packages.subset_of(start.packages)
    &&& match stage {
        StageView::Loading { at: a } => a > at,
        StageView::LookingUp { at: a, ident } => a > at,
        StageView::Counting { at: a, ident, deps: d, dep, unneeded } => a > at || {
            &&& a == at && d == deps && dep < deps.len()
            &&& accounted_before(plan, start, graph, deps, dep)
        },
        StageView::LoadingDependency { at: a, ident, deps: d, dep, unneeded } => a > at || {
            &&& a == at && d == deps && dep < deps.len()
            &&& graph.packages.contains(deps[dep as int])
            &&& accounted_before(plan, start, graph, deps, dep)
        },
        StageView::Refused { at: a, ident, dependents } => a > at,
        StageView::Finished => true,
    }
}

proof fn lemma_stays_settled(plan: PlanView, graph: Graph, gone: Ident, package: Ident)
    requires
        settled(plan, graph, package),
        !graph.needs.contains((gone, package)),
    ensures
        settled(plan, graph.remove(gone), package),
{
    assert(graph.remove(gone).dependents(package) =~= graph.dependents(package));
}

proof fn lemma_settling_step(
    plan: PlanView,
    start: Graph,
    stage: StageView,
    event: EventView,
    graph: Graph,
    at: nat,
    deps: Seq<Ident>,
)
    requires
        settling(plan, start, graph, stage, at, deps),
        truthful_answer(stage, graph, event),
        found_as_listed(stage, event),
    ensures
        ({
            let (next, list) = respond(plan, stage, event);
            let left = graph.apply(list);
            &&& settling(plan, start, left, next, at, deps)
            &&& at_dependencies(stage, at) && !at_dependencies(next, at) ==> accounted_before(
                plan,
                start,
                left,
                deps,
                deps.len(),
            )
        }),
{
    law_only_the_package_whose_turn_it_is_leaves(plan, stage, event, graph);
    let left = graph.apply(respond(plan, stage, event).1);
    if at_dependencies(stage, at) {
        if leaving(plan, stage, event) is Some {
            let gone = leaving(plan, stage, event)->0;
            let dep = stage->LoadingDependency_dep;
            assert(gone == deps[dep as int]);
            assert forall|i: int| 0 <= i < dep implies accounted_for(
                plan,
                start,
                left,
                deps,
                i,
            ) by {
                assert(accounted_for(plan, start, graph, deps, i));
                if settled(plan, graph, deps[i]) {
                    if graph.needs.contains((deps[dep as int], deps[i])) {
                        assert(start.packages.contains(deps[dep as int]));
                    } else {
                        lemma_stays_settled(plan, graph, gone, deps[i]);
                    }
                } else {
                    let j = choose|j: int|
                        i < j < deps.len() && start.needs.contains((#[trigger] deps[j], deps[i]))
                            && start.packages.contains(deps[j]) && !graph.packages.contains(
                            deps[j],
                        );
                    assert(!left.packages.contains(deps[j]));
                }
            }
            assert(settled(plan, left, deps[dep as int]));
            assert(accounted_before(plan, start, left, deps, dep + 1));
        } else {
            assert(left == graph);
        }
    }
}

proof fn lemma_settling(
    plan: PlanView,
    start: Graph,
    stage: StageView,
    graph: Graph,
    events: Seq<EventView>,
    at: nat,
    deps: Seq<Ident>,
)
    requires
        settling(plan, start, graph, stage, at, deps),
        truthful(plan, stage, graph, events),
        all_found_as_listed(plan, stage, graph, events),
    ensures
        ({
            let now = course(plan, stage, graph, events);
            settling(plan, start, now.graph, now.stage, at, deps)
        }),
    decreases events.len(),
{
    if events.len() > 0 {
        lemma_settling(plan, start, stage, graph, events.drop_last(), at, deps);
        let before = course(plan, stage, graph, events.drop_last());
        lemma_settling_step(plan, start, before.stage, events.last(), before.graph, at, deps);
    }
}

/// What is left of the dependencies of a package when they have had their turns, in whatever order
/// they came: each of them is gone from the graph, or something depends on it, or it is the `hab`
/// command, loaded or excluded, or one that came later needed it and has left since. This takes
/// dependencies that are found on disk under their own identifiers, and a graph that answers
/// truthfully.
pub proof fn law_every_dependency_is_accounted_for(
    plan: PlanView,
    at: nat,
    ident: Ident,
    deps: Seq<Ident>,
    graph: Graph,
    events: Seq<EventView>,
)
    requires
        deps.len() > 0,
        events.len() > 0,
        ({
            let start = StageView::Counting { at, ident, deps, dep: 0, unneeded: 0 };
            &&& truthful(plan, start, graph, events)
            &&& all_found_as_listed(plan, start, graph, events)
            &&& at_dependencies(course(plan, start, graph, events.drop_last()).stage, at)
            &&& !at_dependencies(course(plan, start, graph, events).stage, at)
        }),
    ensures
        ({
            let start = StageView::Counting { at, ident, deps, dep: 0, unneeded: 0 };
            forall|i: int|
                0 <= i < deps.len() ==> accounted_for(
                    plan,
                    graph,
                    course(plan, start, graph, events).graph,
                    deps,
                    i,
                )
        }),
{
    let start = StageView::Counting { at, ident, deps, dep: 0, unneeded: 0 };
    let before = course(plan, start, graph, events.drop_last());
    lemma_settling(plan, graph, start, graph, events.drop_last(), at, deps);
    lemma_settling_step(plan, graph, before.stage, events.last(), before.graph, at, deps);
}

/// No dependency is left over that nothing uses, but for those that are spared: when the
/// dependencies of a package have had their turns, each of them is gone from the graph, or
/// something depends on it, or it is the `hab` command, loaded or excluded. This takes dependencies
/// that come in an order in which none depends on one before it and are found on disk under their
/// own identifiers, and a graph that answers truthfully.
pub proof fn law_no_unused_dependency_is_left(
    plan: PlanView,
    at: nat,
    ident: Ident,
    deps: Seq<Ident>,
    graph: Graph,
    events: Seq<EventView>,
)
    requires
        in_order(graph, deps),
        deps.len() > 0,
        events.len() > 0,
        ({
            let start = StageView::Counting { at, ident, deps, dep: 0, unneeded: 0 };
            &&& truthful(plan, start, graph, events)
            &&& all_found_as_listed(plan, start, graph, events)
            &&& at_dependencies(course(plan, start, graph, events.drop_last()).stage, at)
            &&& !at_dependencies(course(plan, start, graph, events).stage, at)
        }),
    ensures
        ({
            let start = StageView::Counting { at, ident, deps, dep: 0, unneeded: 0 };
            forall|i: int|
                0 <= i < deps.len() ==> settled(
                    plan,
                    course(plan, start, graph, events).graph,
                    #[trigger] deps[i],
                )
        }),
{
    let start = StageView::Counting { at, ident, deps, dep: 0, unneeded: 0 };
    let now = course(plan, start, graph, events);
    law_every_dependency_is_accounted_for(plan, at, ident, deps, graph, events);
    assert forall|i: int| 0 <= i < deps.len() implies settled(
        plan,
        now.graph,
        #[trigger] deps[i],
    ) by {
        assert(accounted_for(plan, graph, now.graph, deps, i));
    }
}

/// The lines among the effects that close the work on a package.
pub open spec fn closings(list: Seq<EffectView>) -> nat
    decreases list.len(),
{
    if list.len() == 0 {
        0
    } else {
        closings(list.drop_last()) + if list.last() is End {
            1nat
        } else {
            0nat
        }
    }
}

/// The packages that are done.
pub open spec fn packages_done(plan: PlanView, stage: StageView) -> nat {
    match stage {
        StageView::Loading { at } => at,
        StageView::LookingUp { at, ident } => at,
        StageView::Counting { at, ident, deps, dep, unneeded } => at,
        StageView::LoadingDependency { at, ident, deps, dep, unneeded } => at,
        StageView::Refused { at, ident, dependents } => at,
        StageView::Finished => plan.idents.len(),
    }
}

proof fn lemma_closings_concat(first: Seq<EffectView>, then: Seq<EffectView>)
    ensures
        closings(first + then) == closings(first) + closings(then),
    decreases then.len(),
{
    if then.len() == 0 {
        assert(first + then =~= first);
    } else {
        assert((first + then).drop_last() =~= first + then.drop_last());
        lemma_closings_concat(first, then.drop_last());
    }
}

proof fn lemma_no_closings(list: Seq<EffectView>)
    requires
        forall|i: int| 0 <= i < list.len() ==> !(#[trigger] list[i] is End),
    ensures
        closings(list) == 0,
    decreases list.len(),
{
    if list.len() > 0 {
        lemma_no_closings(list.drop_last());
    }
}

proof fn lemma_closing(plan: PlanView, stage: StageView, event: EventView)
    requires
        stage.well_formed(plan),
    ensures
        ({
            let (next, list) = respond(plan, stage, event);
            &&& next.well_formed(plan)
            &&& closings(list) == packages_done(plan, next) - packages_done(plan, stage)
        }),
{
    let rest = lemma_response_shape(plan, stage, event);
    let first = turn_if_any(plan, stage, event);
    lemma_closings_concat(first, rest);
    lemma_no_closings(first);
    if rest.len() > 0 {
        lemma_no_closings(rest.drop_last());
    }
}

/// A run closes the work on its packages one by one, so that a run that is over has closed as
/// many as it was given.
pub proof fn law_every_package_is_closed(plan: PlanView, graph: Graph, events: Seq<EventView>)
    ensures
        ({
            let now = course(plan, next_package(plan, 0), graph, events);
            &&& now.stage.well_formed(plan)
            &&& closings(now.effects) == packages_done(plan, now.stage)
            &&& now.stage is Finished ==> closings(now.effects) == plan.idents.len()
        }),
    decreases events.len(),
{
    if events.len() > 0 {
        law_every_package_is_closed(plan, graph, events.drop_last());
        let before = course(plan, next_package(plan, 0), graph, events.drop_last());
        lemma_closing(plan, before.stage, events.last());
        lemma_closings_concat(before.effects, respond(plan, before.stage, events.last()).1);
    }
}

/// The event is of the kind that the stage waits for.
pub open spec fn fits(stage: StageView, event: EventView) -> bool {
    match stage {
        StageView::Loading { at } => event is Loaded,
        StageView::LookingUp { at, ident } => event is InGraph,
        StageView::Counting { at, ident, deps, dep, unneeded } => event is Dependents,
        StageView::LoadingDependency { at, ident, deps, dep, unneeded } => event is Loaded,
        StageView::Refused { at, ident, dependents } => false,
        StageView::Finished => false,
    }
}

/// How much is left: the packages, the part of the work on the current one, and its dependencies.
pub open spec fn left(plan: PlanView, stage: StageView) -> (int, int, int) {
    let packages = plan.idents.len();
    match stage {
        StageView::Loading { at } => (packages - at, 3, 0),
        StageView::LookingUp { at, ident } => (packages - at, 2, 0),
        StageView::Counting { at, ident, deps, dep, unneeded } => (
            packages - at,
            1,
            2 * (deps.len() - dep) + 1,
        ),
        StageView::LoadingDependency { at, ident, deps, dep, unneeded } => (
            packages - at,
            1,
            2 * (deps.len() - dep),
        ),
        StageView::Refused { at, ident, dependents } => (packages - at, 0, 0),
        StageView::Finished => (0, 0, 0),
    }
}

/// Every answer of the kind that is waited for brings the run nearer to its end, so that a run
/// that is answered ends: `left` goes down in lexicographic order, and never below zero.
pub proof fn law_answers_bring_the_end(plan: PlanView, stage: StageView, event: EventView)
    requires
        stage.well_formed(plan),
        fits(stage, event),
    ensures
        respond(plan, stage, event).0.well_formed(plan),
        ({
            let a = left(plan, stage);
            let b = left(plan, respond(plan, stage, event).0);
            &&& b.0 < a.0 || b.0 == a.0 && (b.1 < a.1 || b.1 == a.1 && b.2 < a.2)
            &&& 0 <= b.0 && 0 <= b.1 && 0 <= b.2
        }),
{
}

/// An answer of another kind changes nothing.
pub proof fn law_other_answers_change_nothing(plan: PlanView, stage: StageView, event: EventView)
    requires
        !fits(stage, event),
    ensures
        respond(plan, stage, event) == (stage, Seq::<EffectView>::empty()),
{
}

} // verus!
