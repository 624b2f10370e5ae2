use hab::clean_delete::{do_clean_delete, CleanEvent, CleanStage};
use hab::path::{is_up, DirPath};

fn dir(absolute: bool, names: &[&str]) -> DirPath {
    DirPath {
        absolute,
        names: names.iter().map(|n| n.as_bytes().to_vec()).collect(),
    }
}

fn root() -> DirPath {
    dir(true, &["hab", "pkgs"])
}

fn install() -> DirPath {
    dir(true, &["hab", "pkgs", "core", "redis", "1.1.0", "20180608091936"])
}

#[test]
fn empty_directories_go_as_far_as_the_root() {
    let mut run = do_clean_delete(root(), install());
    assert_eq!(run.stage(), CleanStage::Discarding);
    run.step(CleanEvent::Discarded);
    for levels in 1..4 {
        assert_eq!(run.stage(), CleanStage::Counting { levels });
        run.step(CleanEvent::Entries(0));
        assert_eq!(run.stage(), CleanStage::Removing { levels });
        run.step(CleanEvent::Removed);
    }
    assert_eq!(run.stage(), CleanStage::Done);
}

#[test]
fn directory_with_entries_stops_the_traversal() {
    let mut run = do_clean_delete(root(), install());
    run.step(CleanEvent::Discarded);
    run.step(CleanEvent::Entries(0));
    run.step(CleanEvent::Removed);
    assert_eq!(run.stage(), CleanStage::Counting { levels: 2 });
    run.step(CleanEvent::Entries(1));
    assert_eq!(run.stage(), CleanStage::Done);
}

#[test]
fn package_right_below_the_root() {
    let mut run = do_clean_delete(root(), dir(true, &["hab", "pkgs", "redis"]));
    run.step(CleanEvent::Discarded);
    assert_eq!(run.stage(), CleanStage::Done);
}

#[test]
fn package_elsewhere_is_followed_to_the_top() {
    let mut run = do_clean_delete(root(), dir(true, &["opt", "redis"]));
    run.step(CleanEvent::Discarded);
    assert_eq!(run.stage(), CleanStage::Counting { levels: 1 });
    run.step(CleanEvent::Entries(0));
    run.step(CleanEvent::Removed);
    assert_eq!(run.stage(), CleanStage::Counting { levels: 2 });
    run.step(CleanEvent::Entries(0));
    run.step(CleanEvent::Removed);
    assert_eq!(run.stage(), CleanStage::Done);
}

#[test]
fn event_of_another_stage_changes_nothing() {
    let mut run = do_clean_delete(root(), install());
    run.step(CleanEvent::Removed);
    run.step(CleanEvent::Entries(0));
    assert_eq!(run.stage(), CleanStage::Discarding);
    run.step(CleanEvent::Discarded);
    run.step(CleanEvent::Discarded);
    assert_eq!(run.stage(), CleanStage::Counting { levels: 1 });
}

#[test]
fn directories_above() {
    assert!(is_up(&install(), 4, &root()));
    assert!(!is_up(&install(), 3, &root()));
    assert!(!is_up(&install(), 4, &dir(false, &["hab", "pkgs"])));
    assert!(!is_up(&install(), 4, &dir(true, &["hab", "pkgz"])));
    assert!(is_up(&install(), 6, &dir(true, &[])));
    assert!(is_up(&root(), 0, &root()));
}
