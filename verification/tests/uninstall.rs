use hab::deletion::{Effect, ExecutionStrategy, Status};
use hab::ident::PackageIdent;
use hab::uninstall::{
    uninstall, uninstall_many, Event, Request, Scope, UninstallRun, UninstallSafety,
};
use std::collections::{BTreeMap, VecDeque};

fn pkg(name: &str) -> PackageIdent {
    PackageIdent {
        origin: "core".to_string(),
        name: name.to_string(),
        version: Some("1.0.0".to_string()),
        release: Some("20200101000000".to_string()),
    }
}

fn loose(name: &str) -> PackageIdent {
    PackageIdent {
        origin: "core".to_string(),
        name: name.to_string(),
        version: None,
        release: None,
    }
}

fn text(name: &str) -> String {
    pkg(name).to_string()
}

/// A graph of packages by name, each with the packages that it depends on.
struct Packages {
    needs: BTreeMap<String, Vec<String>>,
}

impl Packages {
    fn new(list: &[(&str, &[&str])]) -> Packages {
        let mut needs = BTreeMap::new();
        for (name, deps) in list {
            needs.insert(
                name.to_string(),
                deps.iter().map(|d| d.to_string()).collect(),
            );
        }
        Packages { needs }
    }

    fn dependents(&self, ident: &PackageIdent) -> Option<usize> {
        if !self.needs.contains_key(&ident.name) {
            return None;
        }
        Some(
            self.needs
                .values()
                .filter(|deps| deps.contains(&ident.name))
                .count(),
        )
    }

    fn deps(&self, ident: &PackageIdent) -> Vec<PackageIdent> {
        let mut seen: Vec<String> = Vec::new();
        let mut queue: VecDeque<String> = VecDeque::new();
        queue.push_back(ident.name.clone());
        while let Some(name) = queue.pop_front() {
            for dep in self.needs.get(&name).into_iter().flatten() {
                if !seen.contains(dep) {
                    seen.push(dep.clone());
                    queue.push_back(dep.clone());
                }
            }
        }
        seen.iter().map(|name| pkg(name)).collect()
    }

    fn names(&self) -> Vec<&str> {
        self.needs.keys().map(|k| k.as_str()).collect()
    }
}

/// Runs to the end, and returns all effects and the last request.
fn drive(
    started: (UninstallRun, Vec<Effect>),
    packages: &mut Packages,
) -> (Vec<Effect>, Request) {
    let (mut run, mut effects) = started;
    loop {
        let event = match run.request() {
            Request::Load(ident) => Event::Loaded(pkg(&ident.name)),
            Request::LookUp(ident) => Event::InGraph {
                deps: packages.deps(&ident),
                dependents: packages.dependents(&ident),
            },
            Request::CountDependents(ident) => Event::Dependents(packages.dependents(&ident)),
            last => return (effects, last),
        };
        for effect in run.step(event) {
            if let Effect::RemoveFromGraph(ident) = &effect {
                packages.needs.remove(&ident.name);
            }
            effects.push(effect);
        }
    }
}

fn deleted(effects: &[Effect]) -> Vec<String> {
    effects
        .iter()
        .filter_map(|e| match e {
            Effect::Delete(ident) => Some(ident.name.clone()),
            _ => None,
        })
        .collect()
}

#[test]
fn package_goes_with_its_unused_dependencies() {
    let mut packages = Packages::new(&[
        ("redis", &["glibc", "openssl"]),
        ("nginx", &["glibc"]),
        ("openssl", &[]),
        ("glibc", &[]),
    ]);
    let (effects, last) = drive(
        uninstall(
            loose("redis"),
            ExecutionStrategy::Run,
            Scope::PackageAndDependencies,
            vec![],
            UninstallSafety::Safe,
            vec![],
        ),
        &mut packages,
    );
    assert_eq!(last, Request::Finished);
    assert_eq!(
        effects,
        vec![
            Effect::Begin(format!("Uninstalling {}", text("redis"))),
            Effect::Status(Status::Deleting, text("redis")),
            Effect::Delete(pkg("redis")),
            Effect::RemoveFromGraph(pkg("redis")),
            Effect::Status(
                Status::Skipping,
                format!("{}. It is a dependency of 1 packages", text("glibc"))
            ),
            Effect::Status(Status::Deleting, text("openssl")),
            Effect::Delete(pkg("openssl")),
            Effect::RemoveFromGraph(pkg("openssl")),
            Effect::End(format!(
                "Uninstall of {} and 1 dependencies complete",
                text("redis")
            )),
        ]
    );
    assert_eq!(packages.names(), vec!["glibc", "nginx"]);
}

#[test]
fn ordered_dependencies_leave_none_over() {
    let mut packages = Packages::new(&[("a", &["b"]), ("b", &["c"]), ("c", &[]), ("d", &[])]);
    let (effects, last) = drive(
        uninstall(
            loose("a"),
            ExecutionStrategy::Run,
            Scope::PackageAndDependencies,
            vec![],
            UninstallSafety::Safe,
            vec![],
        ),
        &mut packages,
    );
    assert_eq!(last, Request::Finished);
    assert_eq!(deleted(&effects), vec!["a", "b", "c"]);
    assert_eq!(packages.names(), vec!["d"]);
}

#[test]
fn dependency_with_a_later_dependent_is_left() {
    let mut packages = Packages::new(&[("a", &["b", "c"]), ("b", &[]), ("c", &["b"])]);
    let (effects, _) = drive(
        uninstall(
            loose("a"),
            ExecutionStrategy::Run,
            Scope::PackageAndDependencies,
            vec![],
            UninstallSafety::Safe,
            vec![],
        ),
        &mut packages,
    );
    assert_eq!(deleted(&effects), vec!["a", "c"]);
    assert_eq!(packages.names(), vec!["b"]);
}

#[test]
fn needed_package_is_refused() {
    let mut packages = Packages::new(&[("redis", &["glibc"]), ("nginx", &["glibc"]), ("glibc", &[])]);
    let (effects, last) = drive(
        uninstall(
            loose("glibc"),
            ExecutionStrategy::Run,
            Scope::PackageAndDependencies,
            vec![],
            UninstallSafety::Force,
            vec![],
        ),
        &mut packages,
    );
    assert_eq!(last, Request::CannotRemovePackage(pkg("glibc"), 2));
    assert_eq!(
        effects,
        vec![Effect::Begin(format!("Uninstalling {}", text("glibc")))]
    );
    assert_eq!(packages.names(), vec!["glibc", "nginx", "redis"]);
}

#[test]
fn refused_run_stays_refused() {
    let (mut run, _) = uninstall(
        loose("glibc"),
        ExecutionStrategy::Run,
        Scope::Package,
        vec![],
        UninstallSafety::Safe,
        vec![],
    );
    run.step(Event::Loaded(pkg("glibc")));
    run.step(Event::InGraph {
        deps: vec![],
        dependents: Some(3),
    });
    assert_eq!(run.step(Event::Dependents(Some(0))), vec![]);
    assert_eq!(run.step(Event::Loaded(pkg("glibc"))), vec![]);
    assert_eq!(run.request(), Request::CannotRemovePackage(pkg("glibc"), 3));
}

#[test]
fn first_packages_go_before_a_later_one_is_refused() {
    let mut packages = Packages::new(&[("redis", &[]), ("nginx", &["glibc"]), ("glibc", &[])]);
    let (effects, last) = drive(
        uninstall_many(
            vec![loose("redis"), loose("glibc"), loose("nginx")],
            ExecutionStrategy::Run,
            Scope::PackageAndDependencies,
            vec![],
            UninstallSafety::Safe,
            vec![],
        ),
        &mut packages,
    );
    assert_eq!(last, Request::CannotRemovePackage(pkg("glibc"), 1));
    assert_eq!(deleted(&effects), vec!["redis"]);
}

#[test]
fn graph_is_asked_again_for_each_package() {
    let mut packages = Packages::new(&[("nginx", &["glibc"]), ("glibc", &[])]);
    let (effects, last) = drive(
        uninstall_many(
            vec![loose("nginx"), loose("glibc")],
            ExecutionStrategy::Run,
            Scope::Package,
            vec![],
            UninstallSafety::Safe,
            vec![],
        ),
        &mut packages,
    );
    assert_eq!(last, Request::Finished);
    assert_eq!(deleted(&effects), vec!["nginx", "glibc"]);
    let ends = effects
        .iter()
        .filter(|e| matches!(e, Effect::End(_)))
        .count();
    assert_eq!(ends, 2);
}

#[test]
fn dry_run_foretells_the_run() {
    let list: &[(&str, &[&str])] = &[
        ("redis", &["glibc", "openssl"]),
        ("openssl", &[]),
        ("glibc", &[]),
    ];
    let go = |strategy: ExecutionStrategy| {
        let mut packages = Packages::new(list);
        drive(
            uninstall(
                loose("redis"),
                strategy,
                Scope::PackageAndDependencies,
                vec![loose("openssl")],
                UninstallSafety::Safe,
                vec![],
            ),
            &mut packages,
        )
        .0
    };
    let dry = go(ExecutionStrategy::DryRun);
    let earnest = go(ExecutionStrategy::Run);
    assert_eq!(deleted(&dry), Vec::<String>::new());
    assert_eq!(deleted(&earnest), vec!["redis", "glibc"]);
    let told: Vec<&String> = dry
        .iter()
        .filter_map(|e| match e {
            Effect::Status(Status::DryRunDeleting, text) => Some(text),
            _ => None,
        })
        .collect();
    assert_eq!(told, vec![&text("redis"), &text("glibc")]);
    assert_eq!(
        dry[dry.len() - 1],
        Effect::End(format!(
            "Would uninstall {} and 2 dependencies (Dry run)",
            text("redis")
        ))
    );
}

#[test]
fn package_scope_spares_dependencies() {
    let mut packages = Packages::new(&[("redis", &["glibc"]), ("glibc", &[])]);
    let (effects, last) = drive(
        uninstall(
            loose("redis"),
            ExecutionStrategy::Run,
            Scope::Package,
            vec![],
            UninstallSafety::Safe,
            vec![],
        ),
        &mut packages,
    );
    assert_eq!(last, Request::Finished);
    assert_eq!(
        effects,
        vec![
            Effect::Begin(format!("Uninstalling {}", text("redis"))),
            Effect::Status(Status::Deleting, text("redis")),
            Effect::Delete(pkg("redis")),
            Effect::RemoveFromGraph(pkg("redis")),
            Effect::Status(
                Status::Skipping,
                "dependencies (--no-deps specified)".to_string()
            ),
            Effect::End(format!(
                "Uninstall of {} and 0 dependencies complete",
                text("redis")
            )),
        ]
    );
    assert_eq!(packages.names(), vec!["glibc"]);
}

#[test]
fn unknown_package_is_warned_of() {
    let mut packages = Packages::new(&[]);
    let (effects, last) = drive(
        uninstall(
            loose("redis"),
            ExecutionStrategy::Run,
            Scope::PackageAndDependencies,
            vec![],
            UninstallSafety::Safe,
            vec![],
        ),
        &mut packages,
    );
    assert_eq!(last, Request::Finished);
    assert_eq!(
        effects[1],
        Effect::Warn(
            "Tried to find dependant packages of core/redis/1.0.0/20200101000000 but it wasn't \
             in graph.  Maybe another uninstall command was run at the same time?"
                .to_string()
        )
    );
    assert_eq!(effects.len(), 3);
}

#[test]
fn unknown_dependency_is_warned_of_and_not_counted() {
    let (mut run, _) = uninstall(
        loose("redis"),
        ExecutionStrategy::Run,
        Scope::PackageAndDependencies,
        vec![],
        UninstallSafety::Safe,
        vec![],
    );
    run.step(Event::Loaded(pkg("redis")));
    run.step(Event::InGraph {
        deps: vec![pkg("glibc")],
        dependents: Some(0),
    });
    assert_eq!(run.request(), Request::CountDependents(pkg("glibc")));
    let effects = run.step(Event::Dependents(None));
    assert!(matches!(effects[0], Effect::Warn(_)));
    assert_eq!(
        effects[1],
        Effect::End(format!(
            "Uninstall of {} and 0 dependencies complete",
            text("redis")
        ))
    );
}

#[test]
fn force_does_not_reach_loaded_dependencies() {
    let mut packages = Packages::new(&[("redis", &["glibc"]), ("glibc", &[])]);
    let (effects, _) = drive(
        uninstall(
            loose("redis"),
            ExecutionStrategy::Run,
            Scope::PackageAndDependencies,
            vec![],
            UninstallSafety::Force,
            vec![pkg("redis"), pkg("glibc")],
        ),
        &mut packages,
    );
    assert_eq!(deleted(&effects), vec!["redis"]);
    assert_eq!(
        effects[0..3],
        [
            Effect::Status(
                Status::Determining,
                "list of loaded services in supervisor".to_string()
            ),
            Effect::Status(Status::Found, format!("loaded service {}", text("redis"))),
            Effect::Status(Status::Found, format!("loaded service {}", text("glibc"))),
        ]
    );
    assert!(effects.contains(&Effect::Status(
        Status::Skipping,
        format!(
            "{}. It is currently loaded by the supervisor",
            text("glibc")
        )
    )));
}

#[test]
fn safe_run_spares_a_loaded_package() {
    let mut packages = Packages::new(&[("redis", &[])]);
    let (effects, last) = drive(
        uninstall(
            loose("redis"),
            ExecutionStrategy::Run,
            Scope::PackageAndDependencies,
            vec![],
            UninstallSafety::Safe,
            vec![loose("redis")],
        ),
        &mut packages,
    );
    assert_eq!(last, Request::Finished);
    assert_eq!(deleted(&effects), Vec::<String>::new());
}

#[test]
fn nothing_to_uninstall_is_finished_at_once() {
    let (run, effects) = uninstall_many(
        vec![],
        ExecutionStrategy::Run,
        Scope::Package,
        vec![],
        UninstallSafety::Safe,
        vec![],
    );
    assert_eq!(run.request(), Request::Finished);
    assert_eq!(effects, vec![]);
}

#[test]
fn answer_of_another_kind_changes_nothing() {
    let (mut run, _) = uninstall(
        loose("redis"),
        ExecutionStrategy::Run,
        Scope::Package,
        vec![],
        UninstallSafety::Safe,
        vec![],
    );
    assert_eq!(run.step(Event::Dependents(Some(0))), vec![]);
    assert_eq!(run.request(), Request::Load(loose("redis")));
}

/// What is deleted of `a`, which needs `b`, and what is left in the graph.
fn spared_package(
    excludes: Vec<PackageIdent>,
    loaded: Vec<PackageIdent>,
    strategy: ExecutionStrategy,
) -> (Vec<String>, Vec<String>, Vec<Effect>) {
    let mut packages = Packages::new(&[("a", &["b"]), ("b", &[])]);
    let (effects, last) = drive(
        uninstall(
            pkg("a"),
            strategy,
            Scope::PackageAndDependencies,
            excludes,
            UninstallSafety::Safe,
            loaded,
        ),
        &mut packages,
    );
    assert_eq!(last, Request::Finished);
    let left = packages.names().iter().map(|n| n.to_string()).collect();
    (deleted(&effects), left, effects)
}

#[test]
fn spared_package_keeps_its_dependencies() {
    for strategy in [ExecutionStrategy::Run, ExecutionStrategy::DryRun] {
        for (excludes, loaded) in [(vec![pkg("a")], vec![]), (vec![], vec![pkg("a")])] {
            let (gone, left, effects) = spared_package(excludes, loaded, strategy);
            assert_eq!(gone, Vec::<String>::new());
            assert_eq!(left, vec!["a", "b"]);
            assert!(effects.contains(&Effect::Status(
                Status::Skipping,
                format!("{}. It is a dependency of 1 packages", text("b"))
            )));
        }
    }
}

#[test]
fn hab_keeps_its_dependencies() {
    let mut packages = Packages::new(&[("hab", &["glibc"]), ("glibc", &[])]);
    let (effects, last) = drive(
        uninstall(
            pkg("hab"),
            ExecutionStrategy::Run,
            Scope::PackageAndDependencies,
            vec![],
            UninstallSafety::Force,
            vec![],
        ),
        &mut packages,
    );
    assert_eq!(last, Request::Finished);
    assert_eq!(deleted(&effects), Vec::<String>::new());
    assert_eq!(packages.names(), vec!["glibc", "hab"]);
}

#[test]
fn spared_dependency_keeps_its_dependencies() {
    let mut packages = Packages::new(&[("a", &["b"]), ("b", &["c"]), ("c", &[])]);
    let (effects, _) = drive(
        uninstall(
            pkg("a"),
            ExecutionStrategy::Run,
            Scope::PackageAndDependencies,
            vec![loose("b")],
            UninstallSafety::Safe,
            vec![],
        ),
        &mut packages,
    );
    assert_eq!(deleted(&effects), vec!["a"]);
    assert_eq!(packages.names(), vec!["b", "c"]);
    assert_eq!(
        effects[effects.len() - 1],
        Effect::End(format!(
            "Uninstall of {} and 1 dependencies complete",
            text("a")
        ))
    );
}

#[test]
fn deleted_packages_are_counted_without_dependencies() {
    let (mut run, _) = uninstall_many(
        vec![loose("a"), loose("c")],
        ExecutionStrategy::Run,
        Scope::PackageAndDependencies,
        vec![loose("c")],
        UninstallSafety::Safe,
        vec![],
    );
    assert_eq!(run.deleted(), 0);
    run.step(Event::Loaded(pkg("a")));
    run.step(Event::InGraph {
        deps: vec![pkg("b")],
        dependents: Some(0),
    });
    assert_eq!(run.deleted(), 1);
    run.step(Event::Dependents(Some(0)));
    run.step(Event::Loaded(pkg("b")));
    assert_eq!(run.deleted(), 1);
    run.step(Event::Loaded(pkg("c")));
    run.step(Event::InGraph {
        deps: vec![],
        dependents: Some(0),
    });
    assert_eq!(run.request(), Request::Finished);
    assert_eq!(run.deleted(), 1);
}

#[test]
fn finished_run_has_dealt_with_every_package() {
    let mut packages = Packages::new(&[("a", &[]), ("b", &[]), ("c", &["d"]), ("d", &[])]);
    let (effects, last) = drive(
        uninstall_many(
            vec![loose("a"), loose("b"), loose("gone"), loose("c")],
            ExecutionStrategy::Run,
            Scope::PackageAndDependencies,
            vec![loose("b")],
            UninstallSafety::Safe,
            vec![],
        ),
        &mut packages,
    );
    assert_eq!(last, Request::Finished);
    assert_eq!(deleted(&effects), vec!["a", "c", "d"]);
    let warnings = effects
        .iter()
        .filter(|e| matches!(e, Effect::Warn(_)))
        .count();
    assert_eq!(warnings, 1);
    assert!(effects.contains(&Effect::Status(
        Status::Skipping,
        format!("{}. It is on the exclusion list", text("b"))
    )));
}
