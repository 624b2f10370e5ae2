use hab::ident::{any_of_satisfies, is_valid_origin_name, PackageIdent};

fn ident(origin: &str, name: &str, version: Option<&str>, release: Option<&str>) -> PackageIdent {
    PackageIdent {
        origin: origin.to_string(),
        name: name.to_string(),
        version: version.map(|v| v.to_string()),
        release: release.map(|r| r.to_string()),
    }
}

#[test]
fn core_hab_text() {
    assert_eq!(PackageIdent::core_hab().to_string(), "core/hab");
}

#[test]
fn ident_text_has_the_given_parts() {
    assert_eq!(ident("core", "redis", None, None).to_string(), "core/redis");
    assert_eq!(
        ident("core", "redis", Some("1.1.0"), None).to_string(),
        "core/redis/1.1.0"
    );
    assert_eq!(
        ident("core", "redis", Some("1.1.0"), Some("20180608091936")).to_string(),
        "core/redis/1.1.0/20180608091936"
    );
    assert_eq!(
        ident("core", "redis", None, Some("20180608091936")).to_string(),
        "core/redis"
    );
}

#[test]
fn loose_ident_satisfies_every_release() {
    let loose = ident("core", "redis", None, None);
    let full = ident("core", "redis", Some("1.1.0"), Some("20180608091936"));
    assert!(loose.satisfies(&full));
    assert!(full.satisfies(&loose));
    assert!(full.satisfies(&full));
}

#[test]
fn differing_parts_do_not_satisfy() {
    let full = ident("core", "redis", Some("1.1.0"), Some("20180608091936"));
    assert!(!ident("acme", "redis", None, None).satisfies(&full));
    assert!(!ident("core", "nginx", None, None).satisfies(&full));
    assert!(!ident("core", "redis", Some("1.2.0"), None).satisfies(&full));
    assert!(!ident("core", "redis", Some("1.1.0"), Some("20190101000000")).satisfies(&full));
    assert!(ident("core", "redis", Some("1.1.0"), None).satisfies(&full));
}

#[test]
fn any_of_satisfies_looks_at_every_ident() {
    let full = ident("core", "redis", Some("1.1.0"), Some("20180608091936"));
    let others = [
        ident("core", "nginx", None, None),
        ident("core", "redis", Some("2.0.0"), None),
    ];
    assert!(!any_of_satisfies(&others, &full));
    assert!(!any_of_satisfies(&[], &full));
    let with = [
        ident("core", "nginx", None, None),
        ident("core", "redis", None, None),
    ];
    assert!(any_of_satisfies(&with, &full));
}

#[test]
fn origin_names() {
    assert!(is_valid_origin_name("core"));
    assert!(is_valid_origin_name("0rigin_-x9"));
    assert!(is_valid_origin_name("a"));
    assert!(!is_valid_origin_name(""));
    assert!(!is_valid_origin_name("_core"));
    assert!(!is_valid_origin_name("-core"));
    assert!(!is_valid_origin_name("Core"));
    assert!(!is_valid_origin_name("core!"));
    assert!(!is_valid_origin_name("co re"));
    assert!(!is_valid_origin_name("core\n"));
    assert!(!is_valid_origin_name("\u{e9}tat"));
}

#[test]
fn origin_names_have_no_more_than_255_characters() {
    assert!(is_valid_origin_name(&"a".repeat(255)));
    assert!(!is_valid_origin_name(&"a".repeat(256)));
}
