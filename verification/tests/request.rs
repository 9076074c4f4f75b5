use conmon_server::failure::{Failure, FailureKind};
use conmon_server::request::{collect_paths, path_vec_from_text_list, pidfile_from_params, CreateContainerRequest};
use conmon_server::session::Stage;
use std::path::PathBuf;

fn request(bundle_path: &str) -> CreateContainerRequest {
    CreateContainerRequest {
        id: "c1".to_string(),
        terminal: false,
        bundle_path: bundle_path.to_string(),
        exit_paths: Vec::new(),
    }
}

fn joined_by_std(bundle_path: &str) -> String {
    let mut path = PathBuf::from(bundle_path);
    path.push("pidfile");
    path.to_str().unwrap().to_string()
}

#[test]
fn pidfile_stands_in_the_bundle() {
    assert_eq!(pidfile_from_params(&request("/run/c1")), "/run/c1/pidfile");
}

#[test]
fn pidfile_needs_no_second_separator() {
    assert_eq!(pidfile_from_params(&request("/run/c1/")), "/run/c1/pidfile");
    assert_eq!(pidfile_from_params(&request("/")), "/pidfile");
}

#[test]
fn pidfile_of_an_empty_bundle_path() {
    assert_eq!(pidfile_from_params(&request("")), "pidfile");
}

#[test]
fn pidfile_of_a_relative_bundle_path() {
    assert_eq!(pidfile_from_params(&request("bundle")), "bundle/pidfile");
    assert_eq!(pidfile_from_params(&request(".")), "./pidfile");
}

#[test]
fn pidfile_is_joined_as_a_path_buffer_joins() {
    for bundle in ["/run/c1", "/run/c1/", "", "/", "a", "a/b", "a/b/", "//", "/run//c1//", "\u{e9}t\u{e9}", "\u{e9}/"] {
        assert_eq!(pidfile_from_params(&request(bundle)), joined_by_std(bundle), "bundle {:?}", bundle);
    }
}

#[test]
fn collect_gives_every_text_in_order() {
    let entries = vec![Ok("/a".to_string()), Ok("/b".to_string()), Ok("/a".to_string())];
    assert_eq!(
        collect_paths(entries),
        Ok(vec!["/a".to_string(), "/b".to_string(), "/a".to_string()])
    );
}

#[test]
fn collect_of_nothing_is_nothing() {
    assert_eq!(collect_paths(Vec::new()), Ok(Vec::new()));
}

#[test]
fn collect_fails_with_the_first_unread_entry() {
    let entries = vec![
        Ok("/a".to_string()),
        Err("first".to_string()),
        Ok("/b".to_string()),
        Err("second".to_string()),
    ];
    assert_eq!(
        collect_paths(entries),
        Err(Failure { kind: FailureKind::Protocol, stage: Stage::Received, message: "first".to_string() })
    );
}

#[test]
fn collect_fails_on_a_single_unread_entry() {
    assert_eq!(
        collect_paths(vec![Err("bad".to_string())]),
        Err(Failure { kind: FailureKind::Protocol, stage: Stage::Received, message: "bad".to_string() })
    );
}

#[test]
fn text_list_gives_its_texts() {
    let mut message = capnp::message::Builder::new_default();
    {
        let root: capnp::any_pointer::Builder = message.init_root();
        let mut list: capnp::text_list::Builder = root.initn_as(3);
        list.set(0, "/run/c1/exit");
        list.set(1, "");
        list.set(2, "/tmp/\u{e9}xit");
    }
    let reader: capnp::text_list::Reader = message.get_root_as_reader().unwrap();
    assert_eq!(
        path_vec_from_text_list(reader),
        Ok(vec!["/run/c1/exit".to_string(), String::new(), "/tmp/\u{e9}xit".to_string()])
    );
}

#[test]
fn text_list_without_entries() {
    let mut message = capnp::message::Builder::new_default();
    {
        let root: capnp::any_pointer::Builder = message.init_root();
        let _list: capnp::text_list::Builder = root.initn_as(0);
    }
    let reader: capnp::text_list::Reader = message.get_root_as_reader().unwrap();
    assert_eq!(path_vec_from_text_list(reader), Ok(Vec::new()));
}

#[test]
fn text_list_with_an_entry_never_set() {
    let mut message = capnp::message::Builder::new_default();
    {
        let root: capnp::any_pointer::Builder = message.init_root();
        let mut list: capnp::text_list::Builder = root.initn_as(2);
        list.set(1, "/exit");
    }
    let reader: capnp::text_list::Reader = message.get_root_as_reader().unwrap();
    assert_eq!(path_vec_from_text_list(reader), Ok(vec![String::new(), "/exit".to_string()]));
}

#[test]
fn text_list_with_an_entry_that_is_no_text() {
    let mut message = capnp::message::Builder::new_default();
    {
        let root: capnp::any_pointer::Builder = message.init_root();
        let mut list: capnp::data_list::Builder = root.initn_as(3);
        list.set(0, b"/ok\0");
        list.set(1, &[0xff, 0xfe, 0x00]);
        list.set(2, b"/late\0");
    }
    let reader: capnp::text_list::Reader = message.get_root_as_reader().unwrap();
    match path_vec_from_text_list(reader) {
        Ok(paths) => panic!("read {:?}", paths),
        Err(failure) => {
            assert_eq!(failure.kind, FailureKind::Protocol);
            assert_eq!(failure.stage, Stage::Received);
            assert!(failure.message.contains("non-utf8"), "{}", failure.message);
        }
    }
}

#[test]
fn text_list_read_from_bytes_of_a_message() {
    let mut message = capnp::message::Builder::new_default();
    {
        let root: capnp::any_pointer::Builder = message.init_root();
        let mut list: capnp::text_list::Builder = root.initn_as(2);
        list.set(0, "/a");
        list.set(1, "/b");
    }
    let bytes = capnp::serialize::write_message_to_words(&message);
    let read =
        capnp::serialize::read_message(bytes.as_slice(), capnp::message::ReaderOptions::new())
            .unwrap();
    let reader: capnp::text_list::Reader = read.get_root().unwrap();
    assert_eq!(path_vec_from_text_list(reader), Ok(vec!["/a".to_string(), "/b".to_string()]));
}

#[test]
fn text_list_read_again_and_again_runs_into_the_read_limit() {
    let mut message = capnp::message::Builder::new_default();
    {
        let root: capnp::any_pointer::Builder = message.init_root();
        let mut list: capnp::text_list::Builder = root.initn_as(2);
        list.set(0, "/a/path/that/takes/more/than/one/word");
        list.set(1, "/another/path/of/several/words");
    }
    let segments = message.get_segments_for_output();
    let mut options = capnp::message::ReaderOptions::new();
    options.traversal_limit_in_words(Some(64));
    let read = capnp::message::Reader::new(capnp::message::SegmentArray::new(&segments), options);
    let reader: capnp::text_list::Reader = read.get_root().unwrap();
    assert_eq!(
        path_vec_from_text_list(reader),
        Ok(vec![
            "/a/path/that/takes/more/than/one/word".to_string(),
            "/another/path/of/several/words".to_string()
        ])
    );
    let mut refused = None;
    for _ in 0..64 {
        if let Err(failure) = path_vec_from_text_list(reader) {
            refused = Some(failure);
            break;
        }
    }
    let failure = refused.expect("the read limit was never reached");
    assert_eq!(failure.kind, FailureKind::Protocol);
    assert_eq!(failure.stage, Stage::Received);
    assert_eq!(failure.message, "read limit exceeded");
}
