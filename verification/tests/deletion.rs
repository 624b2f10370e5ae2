use hab::deletion::{maybe_delete, Deletion, Effect, ExecutionStrategy, Status, UninstallSafetyImpl};
use hab::ident::PackageIdent;
use hab::text::decimal_text;

fn redis() -> PackageIdent {
    PackageIdent {
        origin: "core".to_string(),
        name: "redis".to_string(),
        version: Some("1.1.0".to_string()),
        release: Some("20180608091936".to_string()),
    }
}

fn loose(origin: &str, name: &str) -> PackageIdent {
    PackageIdent {
        origin: origin.to_string(),
        name: name.to_string(),
        version: None,
        release: None,
    }
}

fn skipped(text: &str) -> Deletion {
    Deletion {
        effects: vec![Effect::Status(Status::Skipping, text.to_string())],
        deleted: false,
        spared: true,
    }
}

#[test]
fn unspared_package_is_deleted() {
    let deletion = maybe_delete(
        &redis(),
        ExecutionStrategy::Run,
        &[loose("core", "nginx")],
        UninstallSafetyImpl::SkipIfLoaded(&[loose("core", "postgresql")]),
    );
    assert_eq!(
        deletion,
        Deletion {
            effects: vec![
                Effect::Status(
                    Status::Deleting,
                    "core/redis/1.1.0/20180608091936".to_string()
                ),
                Effect::Delete(redis()),
            ],
            deleted: true,
            spared: false,
        }
    );
}

#[test]
fn dry_run_only_shows() {
    let deletion = maybe_delete(
        &redis(),
        ExecutionStrategy::DryRun,
        &[],
        UninstallSafetyImpl::Force,
    );
    assert_eq!(
        deletion,
        Deletion {
            effects: vec![Effect::Status(
                Status::DryRunDeleting,
                "core/redis/1.1.0/20180608091936".to_string()
            )],
            deleted: false,
            spared: false,
        }
    );
}

#[test]
fn hab_is_spared_even_by_force() {
    let mut hab = PackageIdent::core_hab();
    hab.version = Some("1.5.0".to_string());
    hab.release = Some("20200101000000".to_string());
    assert_eq!(
        maybe_delete(
            &hab,
            ExecutionStrategy::Run,
            &[PackageIdent::core_hab()],
            UninstallSafetyImpl::Force
        ),
        skipped("core/hab/1.5.0/20200101000000. You can't uninstall core/hab")
    );
}

#[test]
fn loaded_package_is_spared_unless_forced() {
    let services = [loose("core", "nginx"), loose("core", "redis")];
    assert_eq!(
        maybe_delete(
            &redis(),
            ExecutionStrategy::Run,
            &[loose("core", "redis")],
            UninstallSafetyImpl::SkipIfLoaded(&services)
        ),
        skipped("core/redis/1.1.0/20180608091936. It is currently loaded by the supervisor")
    );
    assert!(UninstallSafetyImpl::SkipIfLoaded(&services).should_skip(&redis()));
    assert!(!UninstallSafetyImpl::Force.should_skip(&redis()));
    assert!(
        maybe_delete(
            &redis(),
            ExecutionStrategy::Run,
            &[],
            UninstallSafetyImpl::Force
        )
        .deleted
    );
}

#[test]
fn looser_exclude_covers_the_package() {
    assert_eq!(
        maybe_delete(
            &redis(),
            ExecutionStrategy::Run,
            &[loose("core", "nginx"), loose("core", "redis")],
            UninstallSafetyImpl::SkipIfLoaded(&[])
        ),
        skipped("core/redis/1.1.0/20180608091936. It is on the exclusion list")
    );
}

#[test]
fn numbers_are_written_in_decimal() {
    assert_eq!(decimal_text(0), "0");
    assert_eq!(decimal_text(9), "9");
    assert_eq!(decimal_text(10), "10");
    assert_eq!(decimal_text(1_234_567_890), "1234567890");
    assert_eq!(decimal_text(usize::MAX), usize::MAX.to_string());
}
