//! Uninstalling all but the latest releases of a package.

use crate::deletion::{effects, Effect, EffectView, ExecutionStrategy, Status};
use crate::ident::{idents, Ident, PackageIdent};
use crate::text::{decimal, decimal_text};
use crate::uninstall::{
    request, services_found, uninstall_many, uninstalling, RequestView, RunView, Scope, UninstallRun, UninstallSafety,
};
use vstd::prelude::*;

verus! {

/// An installed package and its place among the others: the later one has the higher rank.
#[derive(Debug, PartialEq, Eq)]
pub struct Installed {
    pub ident: PackageIdent,
    pub rank: usize,
}

impl View for Installed {
    type V = (Ident, nat);

    open spec fn view(&self) -> (Ident, nat) {
        (self.ident@, self.rank as nat)
    }
}

/// What a list of installed packages says.
pub open spec fn ranked(list: Seq<Installed>) -> Seq<(Ident, nat)> {
    list.map_values(|p: Installed| p@)
}

/// No package stands before a later one.
pub open spec fn latest_first(order: Seq<(Ident, nat)>) -> bool {
    forall|i: int, j: int| 0 <= i <= j < order.len() ==> order[i].1 >= order[j].1
}

/// The same packages, the latest first.
pub open spec fn orders(order: Seq<(Ident, nat)>, installed: Seq<(Ident, nat)>) -> bool {
    &&& latest_first(order)
    &&& order.to_multiset() == installed.to_multiset()
}

/// The packages without their ranks.
pub open spec fn unranked(order: Seq<(Ident, nat)>) -> Seq<Ident> {
    order.map_values(|p: (Ident, nat)| p.0)
}

/// Puts the latest packages first.
pub fn sort_latest_first(installed: Vec<Installed>) -> (sorted: Vec<Installed>)
    ensures
        orders(ranked(sorted@), ranked(installed@)),
{
    let ghost all = ranked(installed@);
    let mut left = installed;
    let mut sorted: Vec<Installed> = Vec::new();
    assert(ranked(sorted@) =~= seq![]);
    proof {
        lemma_no_packages();
        assert(ranked(left@) =~= all);
        assert(all.to_multiset() =~= ranked(left@).to_multiset().add(
            ranked(sorted@).to_multiset(),
        ));
    }
    while left.len() > 0
        invariant
            latest_first(ranked(sorted@)),
            all.to_multiset() == ranked(left@).to_multiset().add(ranked(sorted@).to_multiset()),
        decreases left.len(),
    {
        let ghost before = ranked(left@);
        let ghost done = ranked(sorted@);
        match left.pop() {
            Some(package) => {
                proof {
                    assert(before =~= ranked(left@).push(package@));
                    vstd::seq_lib::to_multiset_build(ranked(left@), package@);
                }
                let mut at: usize = 0;
                while at < sorted.len() && sorted[at].rank >= package.rank
                    invariant
                        at <= sorted.len(),
                        latest_first(ranked(sorted@)),
                        forall|i: int|
                            0 <= i < at ==> (#[trigger] ranked(sorted@)[i]).1 >= package@.1,
                    decreases sorted.len() - at,
                {
                    assert(ranked(sorted@)[at as int].1 >= package@.1);
                    at = at + 1;
                }
                assert(at < sorted.len() ==> ranked(sorted@)[at as int].1 < package@.1);
                sorted.insert(at, package);
                proof {
                    assert(ranked(sorted@) =~= done.insert(at as int, package@));
                    vstd::seq_lib::to_multiset_insert(done, at as int, package@);
                    assert(all.to_multiset() =~= ranked(left@).to_multiset().add(
                        ranked(sorted@).to_multiset(),
                    ));
                    assert(latest_first(ranked(sorted@)));
                }
            },
            None => {},
        }
    }
    proof {
        lemma_no_packages();
        assert(ranked(left@) =~= seq![]);
        assert(ranked(sorted@).to_multiset() =~= all.to_multiset());
    }
    sorted
}

proof fn lemma_no_packages()
    ensures
        Seq::<(Ident, nat)>::empty().to_multiset() =~= vstd::multiset::Multiset::<
            (Ident, nat),
        >::empty(),
{
    vstd::seq_lib::to_multiset_len(Seq::<(Ident, nat)>::empty());
}

/// How many of the packages are marked.
pub open spec fn marked(row: Seq<bool>) -> nat
    decreases row.len(),
{
    if row.len() == 0 {
        0
    } else {
        marked(row.drop_last()) + if row.last() {
            1nat
        } else {
            0
        }
    }
}

/// Ranks packages: each has as its rank the number of packages that are earlier. For each package
/// `earlier` marks those that are.
pub fn ranks(earlier: &Vec<Vec<bool>>) -> (r: Vec<usize>)
    ensures
        r.len() == earlier.len(),
        forall|i: int| 0 <= i < r.len() ==> #[trigger] r[i] == marked(earlier[i]@),
{
    let mut r: Vec<usize> = Vec::new();
    let mut i: usize = 0;
    while i < earlier.len()
        invariant
            i <= earlier.len(),
            r.len() == i,
            forall|k: int| 0 <= k < r.len() ==> #[trigger] r[k] == marked(earlier[k]@),
        decreases earlier.len() - i,
    {
        let row = &earlier[i];
        let mut rank: usize = 0;
        let mut j: usize = 0;
        while j < row.len()
            invariant
                j <= row.len(),
                rank == marked(row@.take(j as int)),
                rank <= j,
            decreases row.len() - j,
        {
            assert(row@.take(j + 1).drop_last() =~= row@.take(j as int));
            if row[j] {
                rank = rank + 1;
            }
            j = j + 1;
        }
        assert(row@.take(j as int) =~= row@);
        r.push(rank);
        i = i + 1;
    }
    r
}

/// What becomes of a request to uninstall all but the latest packages.
#[derive(Debug)]
pub enum AllButLatest {
    /// There are no more packages than are to be kept.
    Kept { effects: Vec<Effect> },
    /// The run uninstalls the earlier packages.
    Started { run: UninstallRun, effects: Vec<Effect> },
}

/// What becomes of a request to uninstall all but the latest packages, as mathematical values.
pub ghost enum OutcomeView {
    Kept { effects: Seq<EffectView> },
    Started { run: RunView, effects: Seq<EffectView> },
}

impl View for AllButLatest {
    type V = OutcomeView;

    open spec fn view(&self) -> OutcomeView {
        match *self {
            AllButLatest::Kept { effects: list } => OutcomeView::Kept { effects: effects(list@) },
            AllButLatest::Started { run, effects: list } => OutcomeView::Started {
                run: run@,
                effects: effects(list@),
            },
        }
    }
}

/// The outcome is one that a request to uninstall all but the `keep` latest packages can have.
pub open spec fn possible_outcome(
    ident: Ident,
    installed: Seq<(Ident, nat)>,
    keep: nat,
    strategy: ExecutionStrategy,
    scope: Scope,
    excludes: Seq<Ident>,
    safety: UninstallSafety,
    loaded: Seq<Ident>,
    outcome: OutcomeView,
) -> bool {
    match outcome {
        OutcomeView::Kept { effects: list } => keep >= installed.len() && list == all_kept(
            ident,
            installed.len(),
        ),
        OutcomeView::Started { run, effects: list } => {
            &&& keep < installed.len()
            &&& list == services_found(loaded)
            &&& exists|order: Seq<(Ident, nat)>|
                orders(order, installed) && run == uninstalling(
                    unranked(order).skip(keep as int),
                    strategy,
                    scope,
                    excludes,
                    safety,
                    loaded,
                )
        },
    }
}

/// What is shown where there are no more packages than are to be kept.
pub open spec fn all_kept(ident: Ident, installed: nat) -> Seq<EffectView> {
    seq![
        EffectView::Begin("Uninstalling "@ + ident.text()),
        EffectView::Status(
            Status::Skipping,
            "Only "@ + decimal(installed) + " packages installed"@,
        ),
        EffectView::End("Uninstall of "@ + ident.text() + " complete"@),
    ]
}

/// Uninstalls all but the `number_latest_to_keep` latest of the packages that `ident` names and
/// that are `installed`.
///
/// The number of packages that were uninstalled is what the run tells at its end with
/// [`UninstallRun::deleted`]; where all are kept it is zero.
pub fn uninstall_all_but_latest(
    ident: &PackageIdent,
    installed: Vec<Installed>,
    number_latest_to_keep: usize,
    execution_strategy: ExecutionStrategy,
    scope: Scope,
    excludes: Vec<PackageIdent>,
    safety: UninstallSafety,
    loaded_services: Vec<PackageIdent>,
) -> (outcome: AllButLatest)
    ensures
        outcome is Kept == (number_latest_to_keep >= installed.len()),
        outcome matches AllButLatest::Kept { effects: list } ==> effects(list@) == all_kept(
            ident@,
            installed@.len(),
        ),
        outcome matches AllButLatest::Started { run, effects: list } ==> {
            &&& effects(list@) == services_found(idents(loaded_services@))
            &&& exists|order: Seq<(Ident, nat)>|
                orders(order, ranked(installed@)) && run@ == uninstalling(
                    unranked(order).skip(number_latest_to_keep as int),
                    execution_strategy,
                    scope,
                    idents(excludes@),
                    safety,
                    idents(loaded_services@),
                )
        },
        possible_outcome(
            ident@,
            ranked(installed@),
            number_latest_to_keep as nat,
            execution_strategy,
            scope,
            idents(excludes@),
            safety,
            idents(loaded_services@),
            outcome@,
        ),
{
    let total: usize = installed.len();
    if number_latest_to_keep >= total {
        let mut list: Vec<Effect> = Vec::new();
        list.push(Effect::Begin("Uninstalling ".to_owned().concat(ident.to_string().as_str())));
        list.push(
            Effect::Status(
                Status::Skipping,
                "Only ".to_owned().concat(decimal_text(total).as_str()).concat(
                    " packages installed",
                ),
            ),
        );
        list.push(
            Effect::End(
                "Uninstall of ".to_owned().concat(ident.to_string().as_str()).concat(" complete"),
            ),
        );
        assert(effects(list@) =~= all_kept(ident@, installed@.len()));
        return AllButLatest::Kept { effects: list };
    }
    let sorted = sort_latest_first(installed);
    let ghost order = ranked(sorted@);
    proof {
        vstd::seq_lib::to_multiset_len(order);
        vstd::seq_lib::to_multiset_len(ranked(installed@));
    }
    let mut to_uninstall: Vec<PackageIdent> = Vec::new();
    let mut i: usize = number_latest_to_keep;
    while i < sorted.len()
        invariant
            order == ranked(sorted@),
            number_latest_to_keep <= i <= sorted.len(),
            idents(to_uninstall@) == unranked(order).subrange(
                number_latest_to_keep as int,
                i as int,
            ),
        decreases sorted.len() - i,
    {
        let ghost taken = to_uninstall@;
        to_uninstall.push(sorted[i].ident.clone());
        assert(idents(to_uninstall@) =~= idents(taken).push(unranked(order)[i as int]));
        assert(unranked(order).subrange(number_latest_to_keep as int, i + 1) =~= unranked(
            order,
        ).subrange(number_latest_to_keep as int, i as int).push(unranked(order)[i as int]));
        i = i + 1;
    }
    assert(idents(to_uninstall@) =~= unranked(order).skip(number_latest_to_keep as int));
    let (run, list) = uninstall_many(
        to_uninstall,
        execution_strategy,
        scope,
        excludes,
        safety,
        loaded_services,
    );
    AllButLatest::Started { run, effects: list }
}

/// What is kept is not earlier than what goes, and there is as much of it as was asked for.
pub proof fn law_the_latest_are_kept(
    order: Seq<(Ident, nat)>,
    installed: Seq<(Ident, nat)>,
    keep: nat,
)
    requires
        orders(order, installed),
        keep <= installed.len(),
    ensures
        order.take(keep as int).len() == keep,
        order.skip(keep as int).len() == installed.len() - keep,
        order.take(keep as int).to_multiset().add(order.skip(keep as int).to_multiset())
            == installed.to_multiset(),
        forall|i: int, j: int|
            0 <= i < keep && 0 <= j < installed.len() - keep ==> (#[trigger] order.take(
                keep as int,
            )[i]).1 >= (#[trigger] order.skip(keep as int)[j]).1,
{
    vstd::seq_lib::to_multiset_len(order);
    vstd::seq_lib::to_multiset_len(installed);
    assert(order.take(keep as int) + order.skip(keep as int) =~= order);
    vstd::seq_lib::lemma_multiset_commutative(order.take(keep as int), order.skip(keep as int));
}

/// Where no two packages have the same rank, there is one order with the latest first, so that
/// it is settled which packages are kept.
pub proof fn law_distinct_ranks_settle_the_order(
    a: Seq<(Ident, nat)>,
    b: Seq<(Ident, nat)>,
    installed: Seq<(Ident, nat)>,
)
    requires
        orders(a, installed),
        orders(b, installed),
        forall|i: int, j: int|
            0 <= i < j < installed.len() ==> installed[i].1 != installed[j].1,
    ensures
        a == b,
    decreases a.len(),
{
    broadcast use vstd::seq_lib::group_to_multiset_ensures;

    vstd::seq_lib::to_multiset_len(a);
    vstd::seq_lib::to_multiset_len(b);
    vstd::seq_lib::to_multiset_len(installed);
    if a.len() > 0 {
        assert(a.contains(a[0]) && b.contains(b[0]));
        vstd::seq_lib::to_multiset_contains(a, a[0]);
        vstd::seq_lib::to_multiset_contains(a, b[0]);
        vstd::seq_lib::to_multiset_contains(b, a[0]);
        vstd::seq_lib::to_multiset_contains(b, b[0]);
        vstd::seq_lib::to_multiset_contains(installed, a[0]);
        vstd::seq_lib::to_multiset_contains(installed, b[0]);
        assert(installed.contains(a[0]));
        assert(installed.contains(b[0]));
        assert(b.contains(a[0]));
        assert(a.contains(b[0]));
        assert(a[0].1 == b[0].1);
        assert(a[0] == b[0]);
        let k = choose|k: int| 0 <= k < installed.len() && installed[k] == a[0];
        let rest = installed.remove(k);
        assert(a.remove(0).to_multiset() =~= rest.to_multiset());
        assert(b.remove(0).to_multiset() =~= rest.to_multiset());
        law_distinct_ranks_settle_the_order(a.remove(0), b.remove(0), rest);
        assert(a =~= seq![a[0]] + a.remove(0));
        assert(b =~= seq![b[0]] + b.remove(0));
    } else {
        assert(a =~= b);
    }
}

/// The marks say of packages which is earlier than which, as an order does in which packages can
/// stand side by side: `earlier[b][a]` where the package at `a` is earlier than that at `b`.
pub open spec fn is_order(earlier: Seq<Seq<bool>>) -> bool {
    &&& forall|i: int| 0 <= i < earlier.len() ==> (#[trigger] earlier[i]).len() == earlier.len()
    &&& forall|i: int| 0 <= i < earlier.len() ==> !#[trigger] earlier[i][i]
    &&& forall|a: int, b: int, c: int|
        0 <= a < earlier.len() && 0 <= b < earlier.len() && 0 <= c < earlier.len()
            && #[trigger] earlier[b][a] && #[trigger] earlier[c][b] ==> earlier[c][a]
    &&& forall|a: int, b: int, c: int|
        0 <= a < earlier.len() && 0 <= b < earlier.len() && 0 <= c < earlier.len()
            && !#[trigger] earlier[b][a] && !#[trigger] earlier[c][b] ==> !earlier[c][a]
}

proof fn lemma_marked_grows(a: Seq<bool>, b: Seq<bool>)
    requires
        a.len() == b.len(),
        forall|i: int| 0 <= i < a.len() && #[trigger] a[i] ==> b[i],
    ensures
        marked(a) <= marked(b),
        (exists|i: int| 0 <= i < a.len() && !a[i] && #[trigger] b[i]) ==> marked(a) < marked(b),
    decreases a.len(),
{
    if a.len() > 0 {
        assert forall|i: int| 0 <= i < a.drop_last().len() && #[trigger] a.drop_last()[i] implies
            b.drop_last()[i] by {
            assert(a[i]);
        }
        lemma_marked_grows(a.drop_last(), b.drop_last());
        assert(a[a.len() - 1] ==> b[a.len() - 1]);
        if exists|i: int| 0 <= i < a.len() && !a[i] && #[trigger] b[i] {
            let i = choose|i: int| 0 <= i < a.len() && !a[i] && #[trigger] b[i];
            if i < a.len() - 1 {
                assert(!a.drop_last()[i] && b.drop_last()[i]);
            }
        }
    }
}

/// The ranks go by the order of the packages: the earlier of two has the lower rank, and where
/// neither is earlier the ranks are the same.
pub proof fn law_ranks_follow_the_order(earlier: Seq<Seq<bool>>, a: int, b: int)
    requires
        is_order(earlier),
        0 <= a < earlier.len(),
        0 <= b < earlier.len(),
    ensures
        earlier[b][a] == (marked(earlier[a]) < marked(earlier[b])),
{
    if earlier[b][a] {
        lemma_lower_rank(earlier, a, b);
    } else if earlier[a][b] {
        lemma_lower_rank(earlier, b, a);
    } else {
        assert(earlier[a] =~= earlier[b]) by {
            assert forall|k: int| 0 <= k < earlier.len() implies earlier[a][k] == earlier[b][k] by {
                if earlier[a][k] && !earlier[b][k] {
                    assert(!earlier[a][b]);
                }
                if earlier[b][k] && !earlier[a][k] {
                    assert(!earlier[b][a]);
                }
            }
        }
    }
}

proof fn lemma_lower_rank(earlier: Seq<Seq<bool>>, a: int, b: int)
    requires
        is_order(earlier),
        0 <= a < earlier.len(),
        0 <= b < earlier.len(),
        earlier[b][a],
    ensures
        marked(earlier[a]) < marked(earlier[b]),
{
    assert(!earlier[a][a]);
    lemma_marked_grows(earlier[a], earlier[b]);
}

/// An installed package says its identifier and its rank, and a list of them says each in its
/// place.
pub proof fn law_installed_says_ident_and_rank(list: Seq<Installed>)
    ensures
        ranked(list).len() == list.len(),
        forall|i: int|
            #![trigger ranked(list)[i]]
            0 <= i < list.len() ==> ranked(list)[i].0 == list[i].ident@ && ranked(list)[i].1
                == list[i].rank,
{
}

/// An order of the installed packages is these packages, each as often as it is installed, with
/// none before one of a higher rank.
pub proof fn law_order_puts_higher_ranks_first(
    order: Seq<(Ident, nat)>,
    installed: Seq<(Ident, nat)>,
)
    ensures
        orders(order, installed) == ({
            &&& order.to_multiset() == installed.to_multiset()
            &&& forall|i: int, j: int|
                0 <= i < j < order.len() ==> (#[trigger] order[i]).1 >= (#[trigger] order[j]).1
        }),
{
}

/// Of the installed packages those that the run is to uninstall and as many others as are to be
/// kept make up the whole, and none that goes has a higher rank than one that is kept; those that go
/// are asked for from the highest rank to the lowest. All else of the run is as it was asked for.
/// Nothing is uninstalled exactly where there are no more packages than are to be kept.
pub proof fn law_run_uninstalls_all_but_the_latest(
    ident: Ident,
    installed: Seq<(Ident, nat)>,
    keep: nat,
    strategy: ExecutionStrategy,
    scope: Scope,
    excludes: Seq<Ident>,
    safety: UninstallSafety,
    loaded: Seq<Ident>,
    outcome: OutcomeView,
)
    requires
        possible_outcome(
            ident,
            installed,
            keep,
            strategy,
            scope,
            excludes,
            safety,
            loaded,
            outcome,
        ),
    ensures
        outcome is Kept == (keep >= installed.len()),
        outcome matches OutcomeView::Kept { effects: list } ==> list == seq![
            EffectView::Begin("Uninstalling "@ + ident.text()),
            EffectView::Status(
                Status::Skipping,
                "Only "@ + decimal(installed.len()) + " packages installed"@,
            ),
            EffectView::End("Uninstall of "@ + ident.text() + " complete"@),
        ],
        outcome matches OutcomeView::Started { run, effects: list } ==> {
            &&& exists|kept: Seq<(Ident, nat)>, gone: Seq<(Ident, nat)>|
                {
                    &&& kept.len() == keep
                    &&& (#[trigger] kept.to_multiset()).add(#[trigger] gone.to_multiset())
                        == installed.to_multiset()
                    &&& run.plan.idents.len() == gone.len()
                    &&& forall|i: int|
                        0 <= i < gone.len() ==> run.plan.idents[i] == (#[trigger] gone[i]).0
                    &&& forall|i: int, j: int|
                        0 <= i < kept.len() && 0 <= j < gone.len() ==> (#[trigger] kept[i]).1 >= (
                        #[trigger] gone[j]).1
                    &&& forall|i: int, j: int|
                        0 <= i < j < gone.len() ==> (#[trigger] gone[i]).1 >= (#[trigger] gone[j]).1
                }
            &&& run.plan.strategy == strategy
            &&& run.plan.scope == scope
            &&& run.plan.excludes == excludes
            &&& run.plan.safety == safety
            &&& run.plan.loaded == loaded
            &&& run.deleted == 0
            &&& request(run.plan, run.stage) == RequestView::Load(run.plan.idents[0])
            &&& list.len() == if loaded.len() == 0 {
                0
            } else {
                loaded.len() + 1
            }
            &&& loaded.len() > 0 ==> list[0] == EffectView::Status(
                Status::Determining,
                "list of loaded services in supervisor"@,
            )
            &&& forall|i: int|
                0 <= i < loaded.len() ==> list[i + 1] == EffectView::Status(
                    Status::Found,
                    "loaded service "@ + (#[trigger] loaded[i]).text(),
                )
        },
{
    if let OutcomeView::Started { run, effects: list } = outcome {
        let order = choose|order: Seq<(Ident, nat)>|
            orders(order, installed) && run == uninstalling(
                unranked(order).skip(keep as int),
                strategy,
                scope,
                excludes,
                safety,
                loaded,
            );
        let kept = order.take(keep as int);
        let gone = order.skip(keep as int);
        vstd::seq_lib::to_multiset_len(order);
        vstd::seq_lib::to_multiset_len(installed);
        law_the_latest_are_kept(order, installed, keep);
        assert(kept.to_multiset().add(gone.to_multiset()) == installed.to_multiset());
        assert forall|i: int| 0 <= i < gone.len() implies run.plan.idents[i] == (
        #[trigger] gone[i]).0 by {
            assert(gone[i] == order[keep + i]);
        }
        assert forall|i: int, j: int| 0 <= i < j < gone.len() implies (#[trigger] gone[i]).1 >= (
        #[trigger] gone[j]).1 by {
            assert(gone[i] == order[keep + i]);
            assert(gone[j] == order[keep + j]);
        }
    }
}

/// The rank of a package is the number of marks in its row.
pub proof fn law_rank_is_the_number_of_marks(row: Seq<bool>)
    ensures
        marked(row) == row.to_multiset().count(true),
    decreases row.len(),
{
    broadcast use vstd::seq_lib::group_to_multiset_ensures;

    if row.len() > 0 {
        law_rank_is_the_number_of_marks(row.drop_last());
        assert(row =~= row.drop_last().push(row.last()));
    } else {
        vstd::seq_lib::to_multiset_len(row);
        assert(row =~= Seq::<bool>::empty());
    }
}

/// An outcome says what it holds.
pub proof fn law_outcome_says_what_it_holds(outcome: AllButLatest)
    ensures
        outcome matches AllButLatest::Kept { effects: list } ==> outcome@ == (OutcomeView::Kept {
            effects: effects(list@),
        }),
        outcome matches AllButLatest::Started { run, effects: list } ==> outcome@
            == (OutcomeView::Started { run: run@, effects: effects(list@) }),
{
}

} // verus!
