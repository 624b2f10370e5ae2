use hab::ident::PackageIdent;
use hab::supervisor::{message_kind, supervisor_services, ListStage, MessageKind, Reply};

fn service(name: &str) -> PackageIdent {
    PackageIdent {
        origin: "core".to_string(),
        name: name.to_string(),
        version: Some("1.0.0".to_string()),
        release: Some("20200101000000".to_string()),
    }
}

#[test]
fn message_kinds() {
    assert_eq!(message_kind("ServiceStatus"), MessageKind::ServiceStatus);
    assert_eq!(message_kind("NetOk"), MessageKind::NetOk);
    assert_eq!(message_kind("NetErr"), MessageKind::NetErr);
    assert_eq!(message_kind("ConsoleLine"), MessageKind::Unexpected);
    assert_eq!(message_kind("netok"), MessageKind::Unexpected);
    assert_eq!(message_kind(""), MessageKind::Unexpected);
}

#[test]
fn services_with_a_status_are_listed_in_order() {
    let mut list = supervisor_services(true);
    assert_eq!(list.stage(), ListStage::Listening);
    assert!(!list.step(Reply::ServiceStatus(service("redis"))));
    assert!(!list.step(Reply::NetOk));
    assert!(list.step(Reply::Unexpected));
    assert!(!list.step(Reply::ServiceStatus(service("nginx"))));
    assert_eq!(list.stage(), ListStage::Listening);
    assert!(!list.step(Reply::End));
    assert_eq!(list.stage(), ListStage::Complete);
    assert_eq!(list.outcome(), Some(vec![service("redis"), service("nginx")]));
}

#[test]
fn an_error_is_the_outcome() {
    for error in [Reply::NetErr, Reply::Broken] {
        let mut list = supervisor_services(true);
        list.step(Reply::ServiceStatus(service("redis")));
        list.step(error);
        assert_eq!(list.stage(), ListStage::Failed);
        list.step(Reply::ServiceStatus(service("nginx")));
        assert!(!list.step(Reply::Unexpected));
        list.step(Reply::End);
        assert_eq!(list.stage(), ListStage::Failed);
        assert_eq!(list.into_services(), vec![service("redis")]);
    }
}

#[test]
fn no_launcher_no_services() {
    let mut list = supervisor_services(false);
    assert_eq!(list.stage(), ListStage::Complete);
    list.step(Reply::ServiceStatus(service("redis")));
    assert_eq!(list.outcome(), Some(vec![]));
}

#[test]
fn partial_list_is_no_outcome() {
    let mut list = supervisor_services(true);
    list.step(Reply::ServiceStatus(service("redis")));
    assert_eq!(list.outcome(), None);
    for error in [Reply::NetErr, Reply::Broken] {
        let mut list = supervisor_services(true);
        list.step(Reply::ServiceStatus(service("redis")));
        list.step(error);
        list.step(Reply::End);
        assert_eq!(list.outcome(), None);
    }
}
