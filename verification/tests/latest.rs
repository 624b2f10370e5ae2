use hab::deletion::{Effect, ExecutionStrategy, Status};
use hab::ident::PackageIdent;
use hab::latest::{ranks, sort_latest_first, uninstall_all_but_latest, AllButLatest, Installed};
use hab::uninstall::{Event, Request, Scope, UninstallSafety};

fn release(release: &str) -> PackageIdent {
    PackageIdent {
        origin: "core".to_string(),
        name: "redis".to_string(),
        version: Some("1.1.0".to_string()),
        release: Some(release.to_string()),
    }
}

fn redis() -> PackageIdent {
    PackageIdent {
        origin: "core".to_string(),
        name: "redis".to_string(),
        version: None,
        release: None,
    }
}

fn installed() -> Vec<Installed> {
    vec![
        Installed { ident: release("1"), rank: 1 },
        Installed { ident: release("3"), rank: 3 },
        Installed { ident: release("0"), rank: 0 },
        Installed { ident: release("2"), rank: 2 },
    ]
}

fn all_but(keep: usize) -> AllButLatest {
    all_but_with(keep, ExecutionStrategy::Run, vec![])
}

fn all_but_with(
    keep: usize,
    strategy: ExecutionStrategy,
    excludes: Vec<PackageIdent>,
) -> AllButLatest {
    uninstall_all_but_latest(
        &redis(),
        installed(),
        keep,
        strategy,
        Scope::Package,
        excludes,
        UninstallSafety::Safe,
        vec![],
    )
}

/// The packages that the run asks for, and how many it deletes.
fn asked_for(outcome: AllButLatest) -> (Vec<PackageIdent>, usize) {
    match outcome {
        AllButLatest::Kept { .. } => panic!("nothing is uninstalled"),
        AllButLatest::Started { mut run, effects } => {
            assert_eq!(effects, vec![]);
            let mut asked = Vec::new();
            loop {
                match run.request() {
                    Request::Load(ident) => {
                        asked.push(ident.clone());
                        run.step(Event::Loaded(ident));
                    }
                    Request::LookUp(_) => {
                        run.step(Event::InGraph { deps: vec![], dependents: Some(0) });
                    }
                    _ => return (asked, run.deleted()),
                }
            }
        }
    }
}

#[test]
fn latest_packages_come_first() {
    let sorted = sort_latest_first(installed());
    let ranks: Vec<usize> = sorted.iter().map(|p| p.rank).collect();
    assert_eq!(ranks, vec![3, 2, 1, 0]);
    assert_eq!(sorted[0].ident, release("3"));
    assert_eq!(sort_latest_first(vec![]), vec![]);
}

#[test]
fn packages_of_one_rank_all_stay() {
    let sorted = sort_latest_first(vec![
        Installed { ident: release("a"), rank: 5 },
        Installed { ident: release("b"), rank: 5 },
        Installed { ident: release("c"), rank: 6 },
    ]);
    assert_eq!(sorted.len(), 3);
    assert_eq!(sorted[0].ident, release("c"));
    assert!(sorted.iter().any(|p| p.ident == release("a")));
    assert!(sorted.iter().any(|p| p.ident == release("b")));
}

#[test]
fn all_but_the_latest_are_asked_for() {
    assert_eq!(asked_for(all_but(1)), (vec![release("2"), release("1"), release("0")], 3));
    assert_eq!(asked_for(all_but(3)), (vec![release("0")], 1));
    assert_eq!(
        asked_for(all_but(0)),
        (vec![release("3"), release("2"), release("1"), release("0")], 4)
    );
}

#[test]
fn packages_that_stay_are_not_counted() {
    let (asked, deleted) = asked_for(all_but_with(1, ExecutionStrategy::Run, vec![redis()]));
    assert_eq!(asked, vec![release("2"), release("1"), release("0")]);
    assert_eq!(deleted, 0);
    let one = all_but_with(1, ExecutionStrategy::Run, vec![release("1")]);
    assert_eq!(asked_for(one).1, 2);
    let dry = all_but_with(1, ExecutionStrategy::DryRun, vec![]);
    assert_eq!(asked_for(dry).1, 0);
}

#[test]
fn ranks_count_the_earlier_packages() {
    let earlier = vec![
        vec![false, false, true],
        vec![true, false, true],
        vec![false, false, false],
    ];
    assert_eq!(ranks(&earlier), vec![1, 2, 0]);
    assert_eq!(ranks(&vec![]), Vec::<usize>::new());
    let even = vec![vec![false, false], vec![false, false]];
    assert_eq!(ranks(&even), vec![0, 0]);
}

#[test]
fn no_more_packages_than_are_kept() {
    for keep in [4, 5, usize::MAX] {
        match all_but(keep) {
            AllButLatest::Kept { effects } => assert_eq!(
                effects,
                vec![
                    Effect::Begin("Uninstalling core/redis".to_string()),
                    Effect::Status(
                        Status::Skipping,
                        "Only 4 packages installed".to_string()
                    ),
                    Effect::End("Uninstall of core/redis complete".to_string()),
                ]
            ),
            AllButLatest::Started { .. } => panic!("all are kept"),
        }
    }
}

#[test]
fn none_installed_and_none_kept() {
    let outcome = uninstall_all_but_latest(
        &redis(),
        vec![],
        0,
        ExecutionStrategy::Run,
        Scope::Package,
        vec![],
        UninstallSafety::Safe,
        vec![],
    );
    assert!(matches!(outcome, AllButLatest::Kept { .. }));
}

#[test]
fn loaded_services_are_shown_first() {
    let outcome = uninstall_all_but_latest(
        &redis(),
        installed(),
        2,
        ExecutionStrategy::DryRun,
        Scope::Package,
        vec![],
        UninstallSafety::Safe,
        vec![release("3")],
    );
    match outcome {
        AllButLatest::Started { run, effects } => {
            assert_eq!(run.deleted(), 0);
            assert_eq!(
                effects,
                vec![
                    Effect::Status(
                        Status::Determining,
                        "list of loaded services in supervisor".to_string()
                    ),
                    Effect::Status(
                        Status::Found,
                        "loaded service core/redis/1.1.0/3".to_string()
                    ),
                ]
            );
        }
        AllButLatest::Kept { .. } => panic!("two are to go"),
    }
}
