//! Uninstalling packages together with the dependencies that nothing else needs.
//!
//! A run goes through the packages one by one. What it must know of the disk and of the package
//! graph it asks for with a [`Request`]; the answer is an [`Event`], to which it responds with
//! [`Effect`]s. The graph is asked again before every package, after the effects so far have been
//! carried out on it, so that each package is judged by what depends on it at that time.

use crate::deletion::{
    effects, maybe_delete, spared, verdict, verdict_effects, Effect, EffectView,
    ExecutionStrategy, SafetyView, Status, UninstallSafetyImpl, Verdict,
};
use crate::ident::{idents, Ident, PackageIdent};
use crate::text::{decimal, decimal_text};
use vstd::prelude::*;

verus! {

/// Whether the dependencies of a package are uninstalled with it.
#[derive(Clone, Copy, Debug, PartialEq, Eq, Structural)]
pub enum Scope {
    Package,
    PackageAndDependencies,
}

/// `Force` indicates that the package should be uninstalled even if it is loaded by the
/// supervisor. This only applies to the packages that are to be uninstalled. It does not apply to
/// their dependencies.
#[derive(Clone, Copy, Debug, PartialEq, Eq, Structural)]
pub enum UninstallSafety {
    Safe,
    Force,
}

/// What a run is to do. It stays the same throughout the run.
#[derive(Debug)]
struct Plan {
    idents: Vec<PackageIdent>,
    strategy: ExecutionStrategy,
    scope: Scope,
    excludes: Vec<PackageIdent>,
    safety: UninstallSafety,
    loaded: Vec<PackageIdent>,
}

/// What a run is to do, as mathematical values.
pub ghost struct PlanView {
    /// The packages to uninstall, each possibly given loosely.
    pub idents: Seq<Ident>,
    pub strategy: ExecutionStrategy,
    pub scope: Scope,
    /// The packages that the user wants to keep.
    pub excludes: Seq<Ident>,
    pub safety: UninstallSafety,
    /// The services that the supervisor has loaded.
    pub loaded: Seq<Ident>,
}

impl PlanView {
    /// Whether a package that is to be uninstalled is spared when it is loaded.
    pub open spec fn target_safety(self) -> SafetyView {
        match self.safety {
            UninstallSafety::Safe => SafetyView::SkipIfLoaded(self.loaded),
            UninstallSafety::Force => SafetyView::Force,
        }
    }

    /// A dependency is spared when it is loaded, whatever the safety.
    pub open spec fn dependency_safety(self) -> SafetyView {
        SafetyView::SkipIfLoaded(self.loaded)
    }
}

impl View for Plan {
    type V = PlanView;

    closed spec fn view(&self) -> PlanView {
        PlanView {
            idents: idents(self.idents@),
            strategy: self.strategy,
            scope: self.scope,
            excludes: idents(self.excludes@),
            safety: self.safety,
            loaded: idents(self.loaded@),
        }
    }
}

/// How far a run has come. `at` counts the packages that are done, and `unneeded` the dependencies
/// so far that nothing depended on when their turn came.
#[derive(Debug)]
enum Stage {
    Loading { at: usize },
    LookingUp { at: usize, ident: PackageIdent },
    Counting {
        at: usize,
        ident: PackageIdent,
        deps: Vec<PackageIdent>,
        dep: usize,
        unneeded: usize,
    },
    LoadingDependency {
        at: usize,
        ident: PackageIdent,
        deps: Vec<PackageIdent>,
        dep: usize,
        unneeded: usize,
    },
    Refused { at: usize, ident: PackageIdent, dependents: usize },
    Finished,
}

/// How far a run has come, as mathematical values. `at` counts the packages that are done, and
/// `unneeded` the dependencies so far that nothing depended on when their turn came.
pub ghost enum StageView {
    /// The package at `at` is to be found on disk.
    Loading { at: nat },
    /// The installed package `ident` is to be looked up in the graph.
    LookingUp { at: nat, ident: Ident },
    /// The dependents of the dependency at `dep` are to be counted.
    Counting { at: nat, ident: Ident, deps: Seq<Ident>, dep: nat, unneeded: nat },
    /// The dependency at `dep`, on which nothing depends any more, is to be found on disk.
    LoadingDependency { at: nat, ident: Ident, deps: Seq<Ident>, dep: nat, unneeded: nat },
    /// The package at `at` cannot be uninstalled: that many packages depend on it.
    Refused { at: nat, ident: Ident, dependents: nat },
    /// Every package is done.
    Finished,
}

impl View for Stage {
    type V = StageView;

    closed spec fn view(&self) -> StageView {
        match *self {
            Stage::Loading { at } => StageView::Loading { at: at as nat },
            Stage::LookingUp { at, ident } => StageView::LookingUp { at: at as nat, ident: ident@ },
            Stage::Counting { at, ident, deps, dep, unneeded } => StageView::Counting {
                at: at as nat,
                ident: ident@,
                deps: idents(deps@),
                dep: dep as nat,
                unneeded: unneeded as nat,
            },
            Stage::LoadingDependency { at, ident, deps, dep, unneeded } =>
                StageView::LoadingDependency {
                at: at as nat,
                ident: ident@,
                deps: idents(deps@),
                dep: dep as nat,
                unneeded: unneeded as nat,
            },
            Stage::Refused { at, ident, dependents } => StageView::Refused {
                at: at as nat,
                ident: ident@,
                dependents: dependents as nat,
            },
            Stage::Finished => StageView::Finished,
        }
    }
}

impl StageView {
    /// The counters of the stage lie within what they count.
    pub open spec fn well_formed(self, plan: PlanView) -> bool {
        match self {
            StageView::Loading { at } => at < plan.idents.len(),
            StageView::LookingUp { at, ident } => at < plan.idents.len(),
            StageView::Counting { at, ident, deps, dep, unneeded } => {
                &&& at < plan.idents.len()
                &&& dep < deps.len()
                &&& unneeded <= dep
            },
            StageView::LoadingDependency { at, ident, deps, dep, unneeded } => {
                &&& at < plan.idents.len()
                &&& dep < deps.len()
                &&& unneeded <= dep
            },
            StageView::Refused { at, ident, dependents } => {
                &&& at < plan.idents.len()
                &&& dependents > 0
            },
            StageView::Finished => true,
        }
    }
}

/// What a run waits for.
#[derive(Debug, PartialEq, Eq)]
pub enum Request {
    /// Find the package on disk. Answered by [`Event::Loaded`].
    Load(PackageIdent),
    /// Look the package up in the graph. Answered by [`Event::InGraph`].
    LookUp(PackageIdent),
    /// Count the packages that depend on the package. Answered by [`Event::Dependents`].
    CountDependents(PackageIdent),
    /// Nothing: the package cannot be removed, since that many packages depend on it.
    CannotRemovePackage(PackageIdent, usize),
    /// Nothing: the run is over.
    Finished,
}

/// What a run waits for, as mathematical values.
pub ghost enum RequestView {
    Load(Ident),
    LookUp(Ident),
    CountDependents(Ident),
    CannotRemovePackage(Ident, nat),
    Finished,
}

impl View for Request {
    type V = RequestView;

    open spec fn view(&self) -> RequestView {
        match *self {
            Request::Load(ident) => RequestView::Load(ident@),
            Request::LookUp(ident) => RequestView::LookUp(ident@),
            Request::CountDependents(ident) => RequestView::CountDependents(ident@),
            Request::CannotRemovePackage(ident, dependents) => RequestView::CannotRemovePackage(
                ident@,
                dependents as nat,
            ),
            Request::Finished => RequestView::Finished,
        }
    }
}

/// The answer to a request.
#[derive(Debug, PartialEq, Eq)]
pub enum Event {
    /// The package was found on disk, under this identifier.
    Loaded(PackageIdent),
    /// What the graph holds of the package: its dependencies in the order of a breadth-first
    /// walk, and how many packages depend on it, or `None` where the graph does not know it.
    InGraph { deps: Vec<PackageIdent>, dependents: Option<usize> },
    /// How many packages depend on the package, or `None` where the graph does not know it.
    Dependents(Option<usize>),
}

/// The answer to a request, as mathematical values.
pub ghost enum EventView {
    Loaded(Ident),
    InGraph { deps: Seq<Ident>, dependents: Option<nat> },
    Dependents(Option<nat>),
}

/// An optional number, as a mathematical value.
pub open spec fn opt_nat(n: Option<usize>) -> Option<nat> {
    match n {
        Some(n) => Some(n as nat),
        None => None,
    }
}

impl View for Event {
    type V = EventView;

    open spec fn view(&self) -> EventView {
        match *self {
            Event::Loaded(ident) => EventView::Loaded(ident@),
            Event::InGraph { deps, dependents } => EventView::InGraph {
                deps: idents(deps@),
                dependents: opt_nat(dependents),
            },
            Event::Dependents(dependents) => EventView::Dependents(opt_nat(dependents)),
        }
    }
}

/// The request of a stage.
pub open spec fn request(plan: PlanView, stage: StageView) -> RequestView {
    match stage {
        StageView::Loading { at } => RequestView::Load(plan.idents[at as int]),
        StageView::LookingUp { at, ident } => RequestView::LookUp(ident),
        StageView::Counting { at, ident, deps, dep, unneeded } => RequestView::CountDependents(
            deps[dep as int],
        ),
        StageView::LoadingDependency { at, ident, deps, dep, unneeded } => RequestView::Load(
            deps[dep as int],
        ),
        StageView::Refused { at, ident, dependents } => RequestView::CannotRemovePackage(
            ident,
            dependents,
        ),
        StageView::Finished => RequestView::Finished,
    }
}

/// The warning about a package that the graph does not know.
pub open spec fn not_in_graph(ident: Ident) -> EffectView {
    EffectView::Warn(
        "Tried to find dependant packages of "@ + ident.text()
            + " but it wasn't in graph.  Maybe another uninstall command was run at the same time?"@,
    )
}

/// The line that closes the work on a package.
pub open spec fn end_text(ident: Ident, strategy: ExecutionStrategy, unneeded: nat) -> Seq<char> {
    match strategy {
        ExecutionStrategy::DryRun => "Would uninstall "@ + ident.text() + " and "@ + decimal(
            unneeded,
        ) + " dependencies (Dry run)"@,
        ExecutionStrategy::Run => "Uninstall of "@ + ident.text() + " and "@ + decimal(unneeded)
            + " dependencies complete"@,
    }
}

/// The stage in which the package at `at` is to be found, or the end of the run.
pub open spec fn next_package(plan: PlanView, at: nat) -> StageView {
    if at < plan.idents.len() {
        StageView::Loading { at }
    } else {
        StageView::Finished
    }
}

/// The package at `at` is done. Of its dependencies, `unneeded` had nothing left that depended on
/// them when their turn came.
pub open spec fn finish(plan: PlanView, at: nat, ident: Ident, unneeded: nat) -> (
    StageView,
    Seq<EffectView>,
) {
    (
        next_package(plan, at + 1),
        seq![EffectView::End(end_text(ident, plan.strategy, unneeded))],
    )
}

/// Goes on with the dependency at `dep`, if there is one.
pub open spec fn go_on(
    plan: PlanView,
    at: nat,
    ident: Ident,
    deps: Seq<Ident>,
    dep: nat,
    unneeded: nat,
) -> (StageView, Seq<EffectView>) {
    if dep < deps.len() {
        (StageView::Counting { at, ident, deps, dep, unneeded }, seq![])
    } else {
        finish(plan, at, ident, unneeded)
    }
}

/// The same response, with effects before it.
pub open spec fn after(first: Seq<EffectView>, then: (StageView, Seq<EffectView>)) -> (
    StageView,
    Seq<EffectView>,
) {
    (then.0, first + then.1)
}

/// The turn of `package`, found on disk as `found`, on which nothing depends. It leaves the graph
/// where it is deleted, or would be if this were no dry run; a package that is spared stays in the
/// graph, and goes on to need its dependencies.
pub open spec fn package_turn(
    plan: PlanView,
    package: Ident,
    found: Ident,
    safety: SafetyView,
) -> Seq<EffectView> {
    let v = verdict(found, plan.strategy, plan.excludes, safety);
    verdict_effects(found, v) + if spared(v) {
        seq![]
    } else {
        seq![EffectView::RemoveFromGraph(package)]
    }
}

/// The turn of the package that is to be uninstalled, on which nothing depends.
pub open spec fn target_turn(plan: PlanView, ident: Ident) -> Seq<EffectView> {
    package_turn(plan, ident, ident, plan.target_safety())
}

/// The turn of the dependency `dep`, found on disk as `ident`, on which nothing depends.
pub open spec fn dependency_turn(plan: PlanView, dep: Ident, ident: Ident) -> Seq<EffectView> {
    package_turn(plan, dep, ident, plan.dependency_safety())
}

/// The answer is that nothing depends on a package that is to be uninstalled, and it is deleted.
pub open spec fn target_deleted(plan: PlanView, stage: StageView, event: EventView) -> bool {
    match (stage, event) {
        (StageView::LookingUp { at, ident }, EventView::InGraph { deps, dependents }) => {
            &&& dependents == Some(0nat)
            &&& verdict(ident, plan.strategy, plan.excludes, plan.target_safety())
                == Verdict::Delete
        },
        _ => false,
    }
}

/// What a run does when an answer comes: its next stage, and the effects. An answer that is not
/// the one that the stage waits for changes nothing.
pub open spec fn respond(plan: PlanView, stage: StageView, event: EventView) -> (
    StageView,
    Seq<EffectView>,
) {
    match (stage, event) {
        (StageView::Loading { at }, EventView::Loaded(ident)) => (
            StageView::LookingUp { at, ident },
            seq![EffectView::Begin("Uninstalling "@ + ident.text())],
        ),
        (StageView::LookingUp { at, ident }, EventView::InGraph { deps, dependents }) => {
            if dependents is Some && dependents->0 > 0 {
                (StageView::Refused { at, ident, dependents: dependents->0 }, seq![])
            } else {
                let own = if dependents is Some {
                    target_turn(plan, ident)
                } else {
                    seq![not_in_graph(ident)]
                };
                match plan.scope {
                    Scope::Package => after(
                        own + seq![
                            EffectView::Status(
                                Status::Skipping,
                                "dependencies (--no-deps specified)"@,
                            ),
                        ],
                        finish(plan, at, ident, 0),
                    ),
                    Scope::PackageAndDependencies => after(
                        own,
                        go_on(plan, at, ident, deps, 0, 0),
                    ),
                }
            }
        },
        (
            StageView::Counting { at, ident, deps, dep, unneeded },
            EventView::Dependents(dependents),
        ) => {
            let package = deps[dep as int];
            match dependents {
                None => after(
                    seq![not_in_graph(package)],
                    go_on(plan, at, ident, deps, dep + 1, unneeded),
                ),
                Some(c) => if c == 0 {
                    (StageView::LoadingDependency { at, ident, deps, dep, unneeded }, seq![])
                } else {
                    after(
                        seq![
                            EffectView::Status(
                                Status::Skipping,
                                package.text() + ". It is a dependency of "@ + decimal(c)
                                    + " packages"@,
                            ),
                        ],
                        go_on(plan, at, ident, deps, dep + 1, unneeded),
                    )
                },
            }
        },
        (
            StageView::LoadingDependency { at, ident, deps, dep, unneeded },
            EventView::Loaded(found),
        ) => after(
            dependency_turn(plan, deps[dep as int], found),
            go_on(plan, at, ident, deps, dep + 1, unneeded + 1),
        ),
        _ => (stage, seq![]),
    }
}

/// The lines that tell of the loaded services, where there are any.
pub open spec fn services_found(loaded: Seq<Ident>) -> Seq<EffectView> {
    if loaded.len() == 0 {
        seq![]
    } else {
        seq![EffectView::Status(Status::Determining, "list of loaded services in supervisor"@)]
            + loaded.map_values(
            |s: Ident| EffectView::Status(Status::Found, "loaded service "@ + s.text()),
        )
    }
}

/// A run at its start.
pub open spec fn uninstalling(
    idents: Seq<Ident>,
    strategy: ExecutionStrategy,
    scope: Scope,
    excludes: Seq<Ident>,
    safety: UninstallSafety,
    loaded: Seq<Ident>,
) -> RunView {
    let plan = PlanView { idents, strategy, scope, excludes, safety, loaded };
    RunView { plan, stage: next_package(plan, 0), deleted: 0 }
}

/// A run that uninstalls packages.
#[derive(Debug)]
pub struct UninstallRun {
    plan: Plan,
    stage: Stage,
    deleted: usize,
}

/// A run, as mathematical values.
pub ghost struct RunView {
    pub plan: PlanView,
    pub stage: StageView,
    /// How many of the packages that were to be uninstalled have been deleted.
    pub deleted: nat,
}

impl View for UninstallRun {
    type V = RunView;

    closed spec fn view(&self) -> RunView {
        RunView { plan: self.plan@, stage: self.stage@, deleted: self.deleted as nat }
    }
}

fn next_stage(plan: &Plan, at: usize) -> (stage: Stage)
    requires
        at < plan@.idents.len(),
    ensures
        stage@ == next_package(plan@, at as nat + 1),
{
    let len: usize = plan.idents.len();
    if at + 1 < len {
        Stage::Loading { at: at + 1 }
    } else {
        Stage::Finished
    }
}

fn end_line(ident: &PackageIdent, strategy: ExecutionStrategy, unneeded: usize) -> (text: String)
    ensures
        text@ == end_text(ident@, strategy, unneeded as nat),
{
    let count = decimal_text(unneeded);
    match strategy {
        ExecutionStrategy::DryRun => "Would uninstall ".to_owned().concat(
            ident.to_string().as_str(),
        ).concat(" and ").concat(count.as_str()).concat(" dependencies (Dry run)"),
        ExecutionStrategy::Run => "Uninstall of ".to_owned().concat(
            ident.to_string().as_str(),
        ).concat(" and ").concat(count.as_str()).concat(" dependencies complete"),
    }
}

fn not_in_graph_warning(ident: &PackageIdent) -> (effect: Effect)
    ensures
        effect@ == not_in_graph(ident@),
{
    Effect::Warn(
        "Tried to find dependant packages of ".to_owned().concat(
            ident.to_string().as_str(),
        ).concat(
            " but it wasn't in graph.  Maybe another uninstall command was run at the same time?",
        ),
    )
}

/// Closes the work on a package.
fn finish_package(
    plan: &Plan,
    at: usize,
    ident: &PackageIdent,
    unneeded: usize,
    list: &mut Vec<Effect>,
) -> (stage: Stage)
    requires
        at < plan@.idents.len(),
    ensures
        (stage@, effects(final(list)@)) == after(
            effects(old(list)@),
            finish(plan@, at as nat, ident@, unneeded as nat),
        ),
{
    list.push(Effect::End(end_line(ident, plan.strategy, unneeded)));
    assert(effects(list@) =~= effects(old(list)@) + seq![
        EffectView::End(end_text(ident@, plan@.strategy, unneeded as nat)),
    ]);
    next_stage(plan, at)
}

/// Goes on with the dependency at `dep`, or closes the work on the package.
fn go_on_with(
    plan: &Plan,
    at: usize,
    ident: PackageIdent,
    deps: Vec<PackageIdent>,
    dep: usize,
    unneeded: usize,
    list: &mut Vec<Effect>,
) -> (stage: Stage)
    requires
        at < plan@.idents.len(),
    ensures
        (stage@, effects(final(list)@)) == after(
            effects(old(list)@),
            go_on(plan@, at as nat, ident@, idents(deps@), dep as nat, unneeded as nat),
        ),
{
    if dep < deps.len() {
        assert(effects(list@) =~= effects(old(list)@) + Seq::<EffectView>::empty());
        Stage::Counting { at, ident, deps, dep, unneeded }
    } else {
        finish_package(plan, at, &ident, unneeded, list)
    }
}

/// The turn of a package on which nothing depends: it is deleted and leaves the graph, unless
/// something spares it. Tells also whether it is deleted.
fn take_turn(
    plan: &Plan,
    package: &PackageIdent,
    found: &PackageIdent,
    safety: UninstallSafetyImpl,
) -> (turn: (Vec<Effect>, bool))
    ensures
        effects(turn.0@) == package_turn(plan@, package@, found@, safety@),
        turn.1 == (verdict(found@, plan@.strategy, plan@.excludes, safety@) == Verdict::Delete),
{
    let deletion = maybe_delete(found, plan.strategy, plan.excludes.as_slice(), safety);
    let mut list = deletion.effects;
    let ghost shown = effects(list@);
    if !deletion.spared {
        list.push(Effect::RemoveFromGraph(package.clone()));
        assert(effects(list@) =~= shown + seq![EffectView::RemoveFromGraph(package@)]);
    } else {
        assert(effects(list@) =~= shown + Seq::<EffectView>::empty());
    }
    (list, deletion.deleted)
}

/// How many of the packages can have been deleted at a stage.
spec fn turns_taken(plan: PlanView, stage: StageView) -> nat {
    match stage {
        StageView::Loading { at } => at,
        StageView::LookingUp { at, ident } => at,
        StageView::Counting { at, ident, deps, dep, unneeded } => at + 1,
        StageView::LoadingDependency { at, ident, deps, dep, unneeded } => at + 1,
        StageView::Refused { at, ident, dependents } => at,
        StageView::Finished => plan.idents.len(),
    }
}

impl UninstallRun {
    #[verifier::type_invariant]
    spec fn well_formed(self) -> bool {
        &&& self.stage@.well_formed(self.plan@)
        &&& self.deleted <= turns_taken(self.plan@, self.stage@)
    }

    /// What the run waits for.
    pub fn request(&self) -> (asked: Request)
        ensures
            asked@ == request(self@.plan, self@.stage),
    {
        proof {
            use_type_invariant(self);
        }
        match &self.stage {
            Stage::Loading { at } => Request::Load(self.plan.idents[*at].clone()),
            Stage::LookingUp { ident, .. } => Request::LookUp(ident.clone()),
            Stage::Counting { deps, dep, .. } => Request::CountDependents(deps[*dep].clone()),
            Stage::LoadingDependency { deps, dep, .. } => Request::Load(deps[*dep].clone()),
            Stage::Refused { ident, dependents, .. } => Request::CannotRemovePackage(
                ident.clone(),
                *dependents,
            ),
            Stage::Finished => Request::Finished,
        }
    }

    /// How many of the packages that were to be uninstalled have been deleted so far. Packages that
    /// were spared do not count, nor do dependencies; a dry run deletes none.
    pub fn deleted(&self) -> (count: usize)
        ensures
            count == self@.deleted,
    {
        self.deleted
    }

    /// Takes the answer to the request.
    pub fn step(&mut self, event: Event) -> (list: Vec<Effect>)
        ensures
            final(self)@.plan == old(self)@.plan,
            (final(self)@.stage, effects(list@)) == respond(
                old(self)@.plan,
                old(self)@.stage,
                event@,
            ),
            final(self)@.deleted == old(self)@.deleted + if target_deleted(
                old(self)@.plan,
                old(self)@.stage,
                event@,
            ) {
                1int
            } else {
                0
            },
    {
        proof {
            use_type_invariant(&*self);
        }
        let mut deleted: usize = self.deleted;
        let mut stage = Stage::Finished;
        std::mem::swap(&mut stage, &mut self.stage);
        let mut list: Vec<Effect> = Vec::new();
        assert(effects(list@) =~= seq![]);
        let next = match (stage, event) {
            (Stage::Loading { at }, Event::Loaded(ident)) => {
                list.push(
                    Effect::Begin("Uninstalling ".to_owned().concat(ident.to_string().as_str())),
                );
                Stage::LookingUp { at, ident }
            },
            (Stage::LookingUp { at, ident }, Event::InGraph { deps, dependents }) => {
                let refused: usize = match dependents {
                    Some(c) => c,
                    None => 0,
                };
                if refused > 0 {
                    Stage::Refused { at, ident, dependents: refused }
                } else {
                    if dependents.is_some() {
                        let safety = match self.plan.safety {
                            UninstallSafety::Safe => UninstallSafetyImpl::SkipIfLoaded(
                                self.plan.loaded.as_slice(),
                            ),
                            UninstallSafety::Force => UninstallSafetyImpl::Force,
                        };
                        let turn = take_turn(&self.plan, &ident, &ident, safety);
                        list = turn.0;
                        assert(deleted <= at && at < self.plan.idents.len());
                        if turn.1 {
                            deleted = deleted + 1;
                        }
                    } else {
                        list.push(not_in_graph_warning(&ident));
                    }
                    match self.plan.scope {
                        Scope::Package => {
                            list.push(
                                Effect::Status(
                                    Status::Skipping,
                                    "dependencies (--no-deps specified)".to_owned(),
                                ),
                            );
                            finish_package(&self.plan, at, &ident, 0, &mut list)
                        },
                        Scope::PackageAndDependencies => {
                            go_on_with(&self.plan, at, ident, deps, 0, 0, &mut list)
                        },
                    }
                }
            },
            (
                Stage::Counting { at, ident, deps, dep, unneeded },
                Event::Dependents(dependents),
            ) => {
                assert(dep < deps.len());
                match dependents {
                    None => {
                        list.push(not_in_graph_warning(&deps[dep]));
                        go_on_with(&self.plan, at, ident, deps, dep + 1, unneeded, &mut list)
                    },
                    Some(c) => {
                        if c == 0 {
                            Stage::LoadingDependency { at, ident, deps, dep, unneeded }
                        } else {
                            list.push(
                                Effect::Status(
                                    Status::Skipping,
                                    deps[dep].to_string().concat(
                                        ". It is a dependency of ",
                                    ).concat(decimal_text(c).as_str()).concat(" packages"),
                                ),
                            );
                            go_on_with(&self.plan, at, ident, deps, dep + 1, unneeded, &mut list)
                        }
                    },
                }
            },
            (
                Stage::LoadingDependency { at, ident, deps, dep, unneeded },
                Event::Loaded(found),
            ) => {
                assert(dep < deps.len());
                let safety = UninstallSafetyImpl::SkipIfLoaded(self.plan.loaded.as_slice());
                let turn = take_turn(&self.plan, &deps[dep], &found, safety);
                list = turn.0;
                go_on_with(&self.plan, at, ident, deps, dep + 1, unneeded + 1, &mut list)
            },
            (stage, _) => stage,
        };
        self.deleted = deleted;
        self.stage = next;
        list
    }
}

/// Uninstalls packages and all their dependencies that no other package uses.
///
/// The run first shows which services the supervisor has loaded. Of each package it then
/// 1. finds the installed package, and its dependencies in the order of a breadth-first walk;
/// 2. refuses to go on if other packages depend on it;
/// 3. deletes it from disk and takes it out of the graph, unless something spares it;
/// 4. does the same with each dependency on which nothing depends any more.
pub fn uninstall_many(
    idents: Vec<PackageIdent>,
    execution_strategy: ExecutionStrategy,
    scope: Scope,
    excludes: Vec<PackageIdent>,
    safety: UninstallSafety,
    loaded_services: Vec<PackageIdent>,
) -> (started: (UninstallRun, Vec<Effect>))
    ensures
        started.0@ == uninstalling(
            crate::ident::idents(idents@),
            execution_strategy,
            scope,
            crate::ident::idents(excludes@),
            safety,
            crate::ident::idents(loaded_services@),
        ),
        effects(started.1@) == services_found(crate::ident::idents(loaded_services@)),
{
    let ghost services = crate::ident::idents(loaded_services@);
    let ghost all = services_found(services);
    let mut list: Vec<Effect> = Vec::new();
    if loaded_services.len() > 0 {
        list.push(
            Effect::Status(
                Status::Determining,
                "list of loaded services in supervisor".to_owned(),
            ),
        );
        assert(effects(list@) =~= all.take(1));
        let mut i: usize = 0;
        while i < loaded_services.len()
            invariant
                0 < loaded_services.len(),
                services == crate::ident::idents(loaded_services@),
                all == services_found(services),
                i <= loaded_services.len(),
                effects(list@) == all.take(i + 1),
            decreases loaded_services.len() - i,
        {
            let ghost shown = list@;
            list.push(
                Effect::Status(
                    Status::Found,
                    "loaded service ".to_owned().concat(loaded_services[i].to_string().as_str()),
                ),
            );
            assert(list@.last()@ == all[i + 1]);
            assert(effects(list@) =~= effects(shown).push(list@.last()@));
            assert(all.take(i + 2) =~= all.take(i + 1).push(all[i + 1]));
            i = i + 1;
        }
        assert(all.take(loaded_services.len() + 1) =~= all);
    }
    assert(effects(list@) =~= all);
    let stage = if idents.len() > 0 {
        Stage::Loading { at: 0 }
    } else {
        Stage::Finished
    };
    let plan = Plan {
        idents,
        strategy: execution_strategy,
        scope,
        excludes,
        safety,
        loaded: loaded_services,
    };
    (UninstallRun { plan, stage, deleted: 0 }, list)
}

/// Uninstalls one package and all its dependencies that no other package uses.
pub fn uninstall(
    ident: PackageIdent,
    execution_strategy: ExecutionStrategy,
    scope: Scope,
    excludes: Vec<PackageIdent>,
    safety: UninstallSafety,
    loaded_services: Vec<PackageIdent>,
) -> (started: (UninstallRun, Vec<Effect>))
    ensures
        started.0@ == uninstalling(
            seq![ident@],
            execution_strategy,
            scope,
            idents(excludes@),
            safety,
            idents(loaded_services@),
        ),
        effects(started.1@) == services_found(idents(loaded_services@)),
{
    let mut list: Vec<PackageIdent> = Vec::new();
    list.push(ident);
    assert(idents(list@) =~= seq![ident@]);
    uninstall_many(list, execution_strategy, scope, excludes, safety, loaded_services)
}

} // verus!
