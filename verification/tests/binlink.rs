use hab::binlink::{binlink_is_on_path, set_binlink_path};
use hab::path::DirPath;

fn dir(names: &[&str]) -> DirPath {
    DirPath {
        absolute: true,
        names: names.iter().map(|n| n.as_bytes().to_vec()).collect(),
    }
}

#[test]
fn binlink_directory_is_looked_for() {
    let machine_path = Some(vec![dir(&["C:", "Windows"]), dir(&["C:", "hab", "bin"])]);
    assert!(binlink_is_on_path(&machine_path, &dir(&["C:", "hab", "bin"])));
    assert!(!binlink_is_on_path(&machine_path, &dir(&["C:", "hab"])));
    assert!(!binlink_is_on_path(&machine_path, &dir(&["C:", "hab", "bin", "x"])));
    assert!(!binlink_is_on_path(&Some(vec![]), &dir(&["C:", "hab", "bin"])));
    assert!(!binlink_is_on_path(&None, &dir(&["C:", "hab", "bin"])));
}

#[test]
fn binlink_directory_comes_first() {
    let binlink = dir(&["C:", "hab", "bin"]);
    assert_eq!(
        set_binlink_path(&Some(vec![]), &binlink, "bin", vec!["a", "b"]),
        Some(vec!["bin", "a", "b"])
    );
    assert_eq!(
        set_binlink_path(&None, &binlink, "bin", vec![]),
        Some(vec!["bin"])
    );
}

#[test]
fn binlink_directory_is_put_on_the_path_once() {
    let entries = || vec![dir(&["C:", "Windows"])];
    let binlink = || dir(&["C:", "hab", "bin"]);
    let new_path =
        set_binlink_path(&Some(entries()), &binlink(), binlink(), entries()).unwrap();
    assert_eq!(new_path, vec![binlink(), dir(&["C:", "Windows"])]);
    let machine_path = Some(new_path);
    assert!(binlink_is_on_path(&machine_path, &binlink()));
    assert_eq!(
        set_binlink_path(&machine_path, &binlink(), binlink(), entries()),
        None
    );
}
