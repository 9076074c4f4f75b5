use conmon_server::child::Child;
use conmon_server::failure::RegistrationError;
use conmon_server::reaper::{ChildReaper, ExitStatus, ExitWrite, WatchState};

/// The awaited processes, smallest first.
fn awaited(reaper: &ChildReaper) -> Vec<i32> {
    let mut pids = reaper.awaited();
    pids.sort();
    pids
}

fn child(id: &str, pid: i32, paths: &[&str]) -> Child {
    Child::new(id.to_string(), pid, paths.iter().map(|p| p.to_string()).collect())
}

fn write(path: &str, content: &str) -> ExitWrite {
    ExitWrite { path: path.to_string(), content: content.to_string() }
}

#[test]
fn exit_code_of_a_returned_code() {
    assert_eq!(ExitStatus::Exited { code: 0 }.exit_code(), 0);
    assert_eq!(ExitStatus::Exited { code: 1 }.exit_code(), 1);
    assert_eq!(ExitStatus::Exited { code: 255 }.exit_code(), 255);
    assert_eq!(ExitStatus::Exited { code: -1 }.exit_code(), -1);
}

#[test]
fn exit_code_of_a_signal_is_128_more() {
    assert_eq!(ExitStatus::Signaled { signal: 9 }.exit_code(), 137);
    assert_eq!(ExitStatus::Signaled { signal: 15 }.exit_code(), 143);
    assert_eq!(ExitStatus::Signaled { signal: 0 }.exit_code(), 128);
    assert_eq!(ExitStatus::Signaled { signal: i32::MAX }.exit_code(), 128 + i32::MAX as i64);
}

#[test]
fn exit_content_is_the_decimal_exit_code() {
    assert_eq!(ExitStatus::Exited { code: 0 }.content(), "0");
    assert_eq!(ExitStatus::Exited { code: 42 }.content(), "42");
    assert_eq!(ExitStatus::Exited { code: -3 }.content(), "-3");
    assert_eq!(ExitStatus::Signaled { signal: 9 }.content(), "137");
    assert_eq!(ExitStatus::Signaled { signal: i32::MAX }.content(), "2147483775");
}

#[test]
fn new_reaper_watches_nothing() {
    let mut reaper = ChildReaper::new();
    assert!(!reaper.is_watching(4242));
    assert_eq!(awaited(&reaper), Vec::<i32>::new());
    assert_eq!(reaper.exit_status(4242), None);
    assert_eq!(reaper.child_exited(4242, ExitStatus::Exited { code: 0 }), Vec::new());
}

#[test]
fn watch_registers_the_process() {
    let mut reaper = ChildReaper::new();
    assert_eq!(reaper.watch_grandchild(&child("c1", 4242, &["/run/c1/exit"])), Ok(()));
    assert!(reaper.is_watching(4242));
    assert!(!reaper.is_watching(4243));
    assert_eq!(awaited(&reaper), vec![4242]);
    assert_eq!(reaper.exit_status(4242), None);
}

#[test]
fn watch_refuses_a_process_that_is_filed() {
    let mut reaper = ChildReaper::new();
    assert_eq!(reaper.watch_grandchild(&child("c1", 4242, &["/run/c1/exit"])), Ok(()));
    assert_eq!(
        reaper.watch_grandchild(&child("c2", 4242, &["/run/c2/exit"])),
        Err(RegistrationError::AlreadyWatched)
    );
    assert_eq!(awaited(&reaper), vec![4242]);
    assert_eq!(
        reaper.child_exited(4242, ExitStatus::Exited { code: 3 }),
        vec![write("/run/c1/exit", "3")]
    );
}

#[test]
fn watch_refuses_a_process_that_has_ended() {
    let mut reaper = ChildReaper::new();
    assert_eq!(reaper.watch_grandchild(&child("c1", 10, &["/e1"])), Ok(()));
    assert_eq!(reaper.child_exited(10, ExitStatus::Exited { code: 0 }).len(), 1);
    assert_eq!(
        reaper.watch_grandchild(&child("c2", 10, &["/e2"])),
        Err(RegistrationError::AlreadyWatched)
    );
    assert_eq!(reaper.exit_status(10), Some(ExitStatus::Exited { code: 0 }));
}

#[test]
fn awaited_names_each_process_until_its_end_is_reported() {
    let mut reaper = ChildReaper::new();
    for (id, pid) in [("a", 30), ("b", 10), ("c", 20), ("d", 5)] {
        assert_eq!(reaper.watch_grandchild(&child(id, pid, &[])), Ok(()));
    }
    assert_eq!(awaited(&reaper), vec![5, 10, 20, 30]);
    assert_eq!(reaper.child_exited(10, ExitStatus::Exited { code: 0 }), Vec::new());
    assert_eq!(awaited(&reaper), vec![5, 20, 30]);
    assert_eq!(reaper.child_exited(30, ExitStatus::Signaled { signal: 9 }), Vec::new());
    assert_eq!(reaper.child_exited(5, ExitStatus::Exited { code: 1 }), Vec::new());
    assert_eq!(awaited(&reaper), vec![20]);
    assert!(reaper.is_watching(10));
}

#[test]
fn exit_is_written_to_every_path() {
    let mut reaper = ChildReaper::new();
    assert_eq!(reaper.watch_grandchild(&child("c1", 77, &["/a/exit", "/b/exit", "/c/exit"])), Ok(()));
    assert_eq!(
        reaper.child_exited(77, ExitStatus::Exited { code: 2 }),
        vec![write("/a/exit", "2"), write("/b/exit", "2"), write("/c/exit", "2")]
    );
    assert_eq!(reaper.exit_status(77), Some(ExitStatus::Exited { code: 2 }));
    assert_eq!(awaited(&reaper), Vec::<i32>::new());
}

#[test]
fn exit_by_signal_is_written_as_128_more() {
    let mut reaper = ChildReaper::new();
    assert_eq!(reaper.watch_grandchild(&child("c1", 77, &["/exit"])), Ok(()));
    assert_eq!(
        reaper.child_exited(77, ExitStatus::Signaled { signal: 15 }),
        vec![write("/exit", "143")]
    );
}

#[test]
fn exit_is_delivered_once() {
    let mut reaper = ChildReaper::new();
    assert_eq!(reaper.watch_grandchild(&child("c1", 4242, &["/run/c1/exit"])), Ok(()));
    assert_eq!(
        reaper.child_exited(4242, ExitStatus::Exited { code: 0 }),
        vec![write("/run/c1/exit", "0")]
    );
    assert_eq!(reaper.child_exited(4242, ExitStatus::Exited { code: 0 }), Vec::new());
    assert_eq!(reaper.child_exited(4242, ExitStatus::Exited { code: 1 }), Vec::new());
    assert_eq!(reaper.child_exited(4242, ExitStatus::Signaled { signal: 9 }), Vec::new());
    assert_eq!(reaper.exit_status(4242), Some(ExitStatus::Exited { code: 0 }));
}

#[test]
fn a_repeated_exit_path_is_written_once() {
    let mut reaper = ChildReaper::new();
    assert_eq!(reaper.watch_grandchild(&child("c1", 5, &["/x", "/y", "/x"])), Ok(()));
    assert_eq!(
        reaper.child_exited(5, ExitStatus::Exited { code: 9 }),
        vec![write("/x", "9"), write("/y", "9")]
    );
}

#[test]
fn exit_of_an_unwatched_process_is_left_alone() {
    let mut reaper = ChildReaper::new();
    assert_eq!(reaper.watch_grandchild(&child("c1", 4242, &["/run/c1/exit"])), Ok(()));
    assert_eq!(reaper.child_exited(4243, ExitStatus::Exited { code: 0 }), Vec::new());
    assert_eq!(reaper.child_exited(-1, ExitStatus::Exited { code: 0 }), Vec::new());
    assert!(!reaper.is_watching(4243));
    assert_eq!(awaited(&reaper), vec![4242]);
    assert_eq!(reaper.exit_status(4242), None);
}

#[test]
fn exit_reported_before_registration_is_found_by_the_next_poll() {
    let mut reaper = ChildReaper::new();
    assert_eq!(reaper.child_exited(50, ExitStatus::Exited { code: 4 }), Vec::new());
    assert_eq!(reaper.watch_grandchild(&child("c1", 50, &["/exit"])), Ok(()));
    assert_eq!(awaited(&reaper), vec![50]);
    assert_eq!(reaper.child_exited(50, ExitStatus::Exited { code: 4 }), vec![write("/exit", "4")]);
}

#[test]
fn exits_of_two_children_do_not_mix() {
    let mut reaper = ChildReaper::new();
    assert_eq!(reaper.watch_grandchild(&child("c1", 1, &["/one"])), Ok(()));
    assert_eq!(reaper.watch_grandchild(&child("c2", 2, &["/two"])), Ok(()));
    assert_eq!(reaper.child_exited(2, ExitStatus::Exited { code: 22 }), vec![write("/two", "22")]);
    assert_eq!(reaper.exit_status(1), None);
    assert_eq!(reaper.child_exited(1, ExitStatus::Exited { code: 11 }), vec![write("/one", "11")]);
    assert_eq!(reaper.exit_status(2), Some(ExitStatus::Exited { code: 22 }));
}

#[test]
fn watch_goes_through_its_states() {
    let mut reaper = ChildReaper::new();
    assert_eq!(reaper.state(8), None);
    assert_eq!(reaper.watch_grandchild(&child("c1", 8, &["/exit"])), Ok(()));
    assert_eq!(reaper.state(8), Some(WatchState::Awaited));
    let status = ExitStatus::Exited { code: 5 };
    assert_eq!(reaper.child_exited(8, status), vec![write("/exit", "5")]);
    assert_eq!(reaper.state(8), Some(WatchState::Exited { status }));
    assert!(reaper.exit_written(8));
    assert_eq!(reaper.state(8), Some(WatchState::Finished { status }));
    assert_eq!(reaper.exit_status(8), Some(status));
}

#[test]
fn watch_is_finished_once() {
    let mut reaper = ChildReaper::new();
    assert_eq!(reaper.watch_grandchild(&child("c1", 8, &["/exit"])), Ok(()));
    let status = ExitStatus::Signaled { signal: 2 };
    reaper.child_exited(8, status);
    assert!(reaper.exit_written(8));
    assert!(!reaper.exit_written(8));
    assert_eq!(reaper.state(8), Some(WatchState::Finished { status }));
    assert_eq!(reaper.child_exited(8, ExitStatus::Exited { code: 0 }), Vec::new());
    assert_eq!(reaper.state(8), Some(WatchState::Finished { status }));
}

#[test]
fn watch_is_not_finished_before_its_process_ended() {
    let mut reaper = ChildReaper::new();
    assert_eq!(reaper.watch_grandchild(&child("c1", 8, &["/exit"])), Ok(()));
    assert!(!reaper.exit_written(8));
    assert!(!reaper.exit_written(9));
    assert_eq!(reaper.state(8), Some(WatchState::Awaited));
    assert_eq!(reaper.state(9), None);
    assert_eq!(awaited(&reaper), vec![8]);
    assert_eq!(
        reaper.child_exited(8, ExitStatus::Exited { code: 0 }),
        vec![write("/exit", "0")]
    );
}

#[test]
fn states_tell_their_status() {
    let status = ExitStatus::Exited { code: 3 };
    assert_eq!(WatchState::Awaited.status(), None);
    assert_eq!(WatchState::Exited { status }.status(), Some(status));
    assert_eq!(WatchState::Finished { status }.status(), Some(status));
}
