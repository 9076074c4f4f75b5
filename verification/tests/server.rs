use conmon_server::child::Child;
use conmon_server::failure::RegistrationError;
use conmon_server::server::Server;
use conmon_server::version::{Version, VersionResponse};

fn child(id: &str, pid: i32, paths: &[&str]) -> Child {
    Child::new(id.to_string(), pid, paths.iter().map(|p| p.to_string()).collect())
}

#[test]
fn new_server_holds_no_child() {
    let server = Server::new("/usr/bin/runc".to_string());
    assert_eq!(server.runtime(), "/usr/bin/runc");
    assert_eq!(server.len(), 0);
    assert!(!server.contains("c1"));
    assert_eq!(server.get("c1"), None);
}

#[test]
fn insert_files_the_child_under_its_identifier() {
    let mut server = Server::new("runc".to_string());
    assert_eq!(server.insert(child("c1", 4242, &["/run/c1/exit"])), Ok(()));
    assert!(server.contains("c1"));
    assert!(!server.contains("c2"));
    assert!(!server.contains("C1"));
    assert!(!server.contains(""));
    assert_eq!(server.len(), 1);
    assert_eq!(server.get("c1"), Some(&child("c1", 4242, &["/run/c1/exit"])));
}

#[test]
fn insert_refuses_an_identifier_twice() {
    let mut server = Server::new("runc".to_string());
    assert_eq!(server.insert(child("c1", 4242, &["/run/c1/exit"])), Ok(()));
    assert_eq!(
        server.insert(child("c1", 5000, &["/elsewhere"])),
        Err(RegistrationError::DuplicateId)
    );
    assert_eq!(server.len(), 1);
    assert_eq!(server.get("c1"), Some(&child("c1", 4242, &["/run/c1/exit"])));
}

#[test]
fn insert_refuses_the_very_same_child_twice() {
    let mut server = Server::new("runc".to_string());
    assert_eq!(server.insert(child("c1", 1, &[])), Ok(()));
    assert_eq!(server.insert(child("c1", 1, &[])), Err(RegistrationError::DuplicateId));
    assert_eq!(server.len(), 1);
}

#[test]
fn insert_takes_children_of_other_identifiers() {
    let mut server = Server::new("runc".to_string());
    assert_eq!(server.insert(child("c1", 1, &[])), Ok(()));
    assert_eq!(server.insert(child("c2", 1, &[])), Ok(()));
    assert_eq!(server.insert(child("c3", 3, &["/e"])), Ok(()));
    assert_eq!(server.len(), 3);
    assert_eq!(server.get("c2").map(|c| c.pid()), Some(1));
    assert_eq!(server.get("c3").map(|c| c.pid()), Some(3));
    assert_eq!(server.get("c4"), None);
}

#[test]
fn registration_errors_have_words() {
    assert_eq!(RegistrationError::DuplicateId.message(), "container id is already registered");
    assert_eq!(RegistrationError::AlreadyWatched.message(), "process id is already watched");
}

#[test]
fn version_hands_out_the_facts_of_the_build() {
    let build = Version::new(
        "0.1.0".to_string(),
        "v0.1.0".to_string(),
        "abcdef0".to_string(),
        "2021-11-05".to_string(),
        "1.56.1".to_string(),
    );
    assert_eq!(build.version(), "0.1.0");
    assert_eq!(build.tag(), "v0.1.0");
    assert_eq!(build.commit(), "abcdef0");
    assert_eq!(build.build_date(), "2021-11-05");
    assert_eq!(build.rust_version(), "1.56.1");
    let server = Server::new("runc".to_string());
    assert_eq!(
        server.version(&build),
        VersionResponse {
            version: "0.1.0".to_string(),
            tag: "v0.1.0".to_string(),
            commit: "abcdef0".to_string(),
            build_date: "2021-11-05".to_string(),
            rust_version: "1.56.1".to_string(),
        }
    );
    assert_eq!(server.len(), 0);
}

#[test]
fn version_cannot_fail_on_empty_facts() {
    let build = Version::new(String::new(), String::new(), String::new(), String::new(), String::new());
    let server = Server::new(String::new());
    let response = server.version(&build);
    assert_eq!(response.version, "");
    assert_eq!(response.rust_version, "");
}
