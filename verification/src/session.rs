//! One call to create a container, as a machine that is driven from outside.
//!
//! The call itself does no work on the system. It says what is to be done
//! next (an `Action`), the caller does it and reports what came of it (an
//! `Event`), and the call moves on:
//!
//! `Received → IoAllocated → Spawned → (ConsoleConnected) → PidResolved →
//! Registered → Completed`, and from any of them to `Failed`.
//!
//! The first failure ends the call. Nothing that was done before it is
//! undone: the failure names the stage that was reached, and the caller
//! decides what to clean up. An event that the call does not wait for is
//! ignored, so a second connection to the console changes nothing. Reading
//! the pidfile, registering the child with the reaper and filing it in the
//! child table happen in one step, and either both tables take the child or
//! neither does.
//!
//! The caller waits for the console no longer than
//! `CONSOLE_TIMEOUT_SECONDS` and reports `ConsoleTimedOut` after that. After
//! a response it polls the processes that the reaper awaits, once, since the
//! container may have ended before it was registered.

use crate::child::{copy_texts, distinct, lemma_distinct, Child, ChildView};
use crate::decimal::{law_parse_accepts_numbers, parse_i32, spec_parse_i32, ParseIntError};
use crate::failure::{Failure, FailureKind, FailureView, RegistrationError};
use crate::reaper::{
    after_watch, deliveries, exit_content, exit_writes, first_report, law_exit_delivered_once,
    watches_wf, ChildReaper, ExitStatus, ExitWriteView, WatchState, WatchView,
};
use crate::request::{pidfile_from_params, spec_pidfile, CreateContainerRequest, RequestView};
use crate::server::{Server, ServerView};
use vstd::prelude::*;

verus! {

/// How long the caller waits for a peer to connect to the console.
pub const CONSOLE_TIMEOUT_SECONDS: u64 = 30;

/// How far a call has come.
#[derive(Debug, Clone, Copy, PartialEq, Eq, Structural)]
pub enum Stage {
    /// The request is accepted; a console or the pipes are being allocated.
    Received,
    /// The console is there, or the pipes are there and relaying.
    IoAllocated,
    /// The runtime was started.
    Spawned,
    /// A peer has connected to the console.
    ConsoleConnected,
    /// The pidfile gave the process identifier of the entrypoint. A call
    /// does not rest here: it goes on to `Completed` in the same step, or
    /// fails here because the child is refused.
    PidResolved,
    /// The reaper watches the entrypoint. A call does not rest here either:
    /// the child table takes what the reaper took.
    Registered,
    /// The child is filed and the caller has its answer.
    Completed,
    /// The call has failed.
    Failed,
}

/// What an `Event` stands for.
pub enum EventView {
    IoReady,
    IoFailed { cause: Seq<char> },
    Spawned,
    SpawnFailed { cause: Seq<char> },
    ConsoleConnected,
    ConsoleFailed { cause: Seq<char> },
    ConsoleTimedOut,
    PidfileRead { content: Seq<char> },
    PidfileUnreadable { cause: Seq<char> },
}

/// What came of the action that the call asked for.
#[derive(Debug, Clone, PartialEq, Eq)]
pub enum Event {
    /// The console is allocated, or the pipes are allocated and relaying.
    IoReady,
    /// The console or the pipes could not be had.
    IoFailed { cause: String },
    /// The runtime was started.
    Spawned,
    /// The arguments for the runtime could not be made, or it could not be started.
    SpawnFailed { cause: String },
    /// A peer has connected to the console.
    ConsoleConnected,
    /// Waiting for a peer failed.
    ConsoleFailed { cause: String },
    /// No peer connected in time.
    ConsoleTimedOut,
    /// The pidfile was read, and this is all that it holds.
    PidfileRead { content: String },
    /// The pidfile is not there or cannot be read.
    PidfileUnreadable { cause: String },
}

impl View for Event {
    type V = EventView;

    open spec fn view(&self) -> EventView {
        match *self {
            Event::IoReady => EventView::IoReady,
            Event::IoFailed { cause } => EventView::IoFailed { cause: cause@ },
            Event::Spawned => EventView::Spawned,
            Event::SpawnFailed { cause } => EventView::SpawnFailed { cause: cause@ },
            Event::ConsoleConnected => EventView::ConsoleConnected,
            Event::ConsoleFailed { cause } => EventView::ConsoleFailed { cause: cause@ },
            Event::ConsoleTimedOut => EventView::ConsoleTimedOut,
            Event::PidfileRead { content } => EventView::PidfileRead { content: content@ },
            Event::PidfileUnreadable { cause } => EventView::PidfileUnreadable { cause: cause@ },
        }
    }
}

/// What an `Action` stands for.
pub enum ActionView {
    AllocateConsole,
    StartIoStreams,
    Spawn { runtime: Seq<char>, pidfile: Seq<char> },
    WaitConsole { timeout_seconds: u64 },
    ReadPidfile { path: Seq<char> },
    Respond { container_pid: u32 },
    Fail { failure: FailureView },
    Ignore,
}

/// What the caller is to do next.
#[derive(Debug, Clone, PartialEq, Eq)]
pub enum Action {
    /// Allocate a console for the container.
    AllocateConsole,
    /// Allocate the three pipes of the container and start relaying them.
    StartIoStreams,
    /// Make the arguments for the runtime at `runtime`, which is to write
    /// the process identifier to `pidfile`, and start it.
    Spawn { runtime: String, pidfile: String },
    /// Wait until a peer connects to the console, no longer than this.
    WaitConsole { timeout_seconds: u64 },
    /// Read all of the file at `path`.
    ReadPidfile { path: String },
    /// Answer the request: the container's entrypoint runs as `container_pid`.
    Respond { container_pid: u32 },
    /// Answer the request with this failure.
    Fail { failure: Failure },
    /// Nothing: the call did not wait for this event.
    Ignore,
}

impl View for Action {
    type V = ActionView;

    open spec fn view(&self) -> ActionView {
        match *self {
            Action::AllocateConsole => ActionView::AllocateConsole,
            Action::StartIoStreams => ActionView::StartIoStreams,
            Action::Spawn { runtime, pidfile } => ActionView::Spawn {
                runtime: runtime@,
                pidfile: pidfile@,
            },
            Action::WaitConsole { timeout_seconds } => ActionView::WaitConsole { timeout_seconds },
            Action::ReadPidfile { path } => ActionView::ReadPidfile { path: path@ },
            Action::Respond { container_pid } => ActionView::Respond { container_pid },
            Action::Fail { failure } => ActionView::Fail { failure: failure@ },
            Action::Ignore => ActionView::Ignore,
        }
    }
}

/// What a `Session` stands for.
pub struct SessionView {
    pub request: RequestView,
    pub stage: Stage,
    /// The answer, once the call has completed.
    pub container_pid: Option<u32>,
}

/// One call to create a container.
#[derive(Debug)]
pub struct Session {
    request: CreateContainerRequest,
    stage: Stage,
    container_pid: Option<u32>,
}

impl View for Session {
    type V = SessionView;

    closed spec fn view(&self) -> SessionView {
        SessionView {
            request: self.request@,
            stage: self.stage,
            container_pid: self.container_pid,
        }
    }
}

/// All that a step of a call can read and change.
pub struct World {
    pub session: SessionView,
    pub server: ServerView,
    pub watches: Map<int, WatchView>,
}

/// What a step leaves behind and what it asks for.
pub struct Outcome {
    pub world: World,
    pub action: ActionView,
}

/// The process identifier as the answer carries it: unsigned, in 32 bits.
/// A negative number stands there as its two's complement.
pub open spec fn spec_container_pid(pid: int) -> u32 {
    if pid >= 0 {
        pid as u32
    } else {
        (pid + 0x1_0000_0000) as u32
    }
}

pub open spec fn awaits_io(s: SessionView) -> bool {
    s.stage == Stage::Received
}

pub open spec fn awaits_spawn(s: SessionView) -> bool {
    s.stage == Stage::IoAllocated
}

pub open spec fn awaits_console(s: SessionView) -> bool {
    s.stage == Stage::Spawned && s.request.terminal
}

pub open spec fn awaits_pidfile(s: SessionView) -> bool {
    (s.stage == Stage::Spawned && !s.request.terminal) || s.stage == Stage::ConsoleConnected
}

/// What stands before the cause in the message of a failed wait for the console.
pub open spec fn console_context() -> Seq<char> {
    "wait for console socket connection: "@
}

/// The cause that is told when no peer connected in time.
pub open spec fn timed_out() -> Seq<char> {
    "timed out"@
}

/// What is told of a request without an identifier.
pub open spec fn empty_id() -> Seq<char> {
    "container id is empty"@
}

/// The start of a call: a request without an identifier fails at once, any
/// other asks for a console or for pipes, whichever the request wants.
pub open spec fn spec_begin(request: RequestView) -> (SessionView, ActionView) {
    if request.id.len() == 0 {
        (
            SessionView { request, stage: Stage::Failed, container_pid: None },
            ActionView::Fail {
                failure: FailureView {
                    kind: FailureKind::Protocol,
                    stage: Stage::Received,
                    message: empty_id(),
                },
            },
        )
    } else {
        (
            SessionView { request, stage: Stage::Received, container_pid: None },
            if request.terminal {
                ActionView::AllocateConsole
            } else {
                ActionView::StartIoStreams
            },
        )
    }
}

/// The event is not waited for: nothing changes.
pub open spec fn ignored(w: World) -> Outcome {
    Outcome { world: w, action: ActionView::Ignore }
}

/// The call moves to `stage` and asks for `action`; the tables stay as they are.
pub open spec fn moved(w: World, stage: Stage, action: ActionView) -> Outcome {
    Outcome {
        world: World {
            session: SessionView {
                request: w.session.request,
                stage,
                container_pid: w.session.container_pid,
            },
            server: w.server,
            watches: w.watches,
        },
        action,
    }
}

/// The call fails, having reached `at`; the tables stay as they are.
pub open spec fn failed(w: World, kind: FailureKind, at: Stage, message: Seq<char>) -> Outcome {
    moved(
        w,
        Stage::Failed,
        ActionView::Fail { failure: FailureView { kind, stage: at, message } },
    )
}

/// The child that a request and the process identifier from its pidfile make.
pub open spec fn the_child(request: RequestView, pid: int) -> ChildView {
    ChildView { id: request.id, pid, exit_paths: distinct(request.exit_paths) }
}

/// What becomes of a call whose pidfile gave `pid`: the child is refused
/// where its identifier is filed or its process is watched already, and
/// otherwise registered with the reaper, filed in the table and answered.
pub open spec fn resolved(w: World, pid: int) -> Outcome {
    let child = the_child(w.session.request, pid);
    if w.server.children.contains_key(child.id) {
        failed(
            w,
            FailureKind::Registration,
            Stage::PidResolved,
            RegistrationError::DuplicateId.spec_message(),
        )
    } else if w.watches.contains_key(pid) {
        failed(
            w,
            FailureKind::Registration,
            Stage::PidResolved,
            RegistrationError::AlreadyWatched.spec_message(),
        )
    } else {
        Outcome {
            world: World {
                session: SessionView {
                    request: w.session.request,
                    stage: Stage::Completed,
                    container_pid: Some(spec_container_pid(pid)),
                },
                server: w.server.after_insert(child),
                watches: after_watch(w.watches, child),
            },
            action: ActionView::Respond { container_pid: spec_container_pid(pid) },
        }
    }
}

/// What the file to read is called.
pub open spec fn read_pidfile(w: World) -> ActionView {
    ActionView::ReadPidfile { path: spec_pidfile(w.session.request.bundle_path) }
}

/// One step of a call.
pub open spec fn spec_step(w: World, event: EventView) -> Outcome {
    let s = w.session;
    match event {
        EventView::IoReady => if awaits_io(s) {
            moved(
                w,
                Stage::IoAllocated,
                ActionView::Spawn {
                    runtime: w.server.runtime,
                    pidfile: spec_pidfile(s.request.bundle_path),
                },
            )
        } else {
            ignored(w)
        },
        EventView::IoFailed { cause } => if awaits_io(s) {
            failed(w, FailureKind::ResourceAllocation, s.stage, cause)
        } else {
            ignored(w)
        },
        EventView::Spawned => if awaits_spawn(s) {
            moved(
                w,
                Stage::Spawned,
                if s.request.terminal {
                    ActionView::WaitConsole { timeout_seconds: CONSOLE_TIMEOUT_SECONDS }
                } else {
                    read_pidfile(w)
                },
            )
        } else {
            ignored(w)
        },
        EventView::SpawnFailed { cause } => if awaits_spawn(s) {
            failed(w, FailureKind::Spawn, s.stage, cause)
        } else {
            ignored(w)
        },
        EventView::ConsoleConnected => if awaits_console(s) {
            moved(w, Stage::ConsoleConnected, read_pidfile(w))
        } else {
            ignored(w)
        },
        EventView::ConsoleFailed { cause } => if awaits_console(s) {
            failed(w, FailureKind::Synchronization, s.stage, console_context() + cause)
        } else {
            ignored(w)
        },
        EventView::ConsoleTimedOut => if awaits_console(s) {
            failed(w, FailureKind::Synchronization, s.stage, console_context() + timed_out())
        } else {
            ignored(w)
        },
        EventView::PidfileRead { content } => if awaits_pidfile(s) {
            match spec_parse_i32(content) {
                Ok(pid) => resolved(w, pid),
                Err(e) => failed(w, FailureKind::Protocol, s.stage, e.spec_message()),
            }
        } else {
            ignored(w)
        },
        EventView::PidfileUnreadable { cause } => if awaits_pidfile(s) {
            failed(w, FailureKind::Protocol, s.stage, cause)
        } else {
            ignored(w)
        },
    }
}

/// The world after a run of events, one step for each.
pub open spec fn run(w: World, events: Seq<EventView>) -> World
    decreases events.len(),
{
    if events.len() == 0 {
        w
    } else {
        spec_step(run(w, events.drop_last()), events.last()).world
    }
}

/// A run that is one event longer ends one step later.
pub proof fn lemma_run_push(w: World, events: Seq<EventView>, event: EventView)
    ensures
        run(w, events.push(event)) == spec_step(run(w, events), event).world,
{
    assert(events.push(event).drop_last() =~= events);
}

/// A run does not change the request of its call.
pub proof fn lemma_run_keeps_request(w: World, events: Seq<EventView>)
    ensures
        run(w, events).session.request == w.session.request,
    decreases events.len(),
{
    if events.len() > 0 {
        lemma_run_keeps_request(w, events.drop_last());
    }
}

/// What a call that has completed rests on: `event` is a pidfile that holds
/// a number, the answer carries that number, and the child of that number
/// was taken by the child table and by the reaper, which did not know it.
pub open spec fn settled_by(event: EventView, start: World, end: World) -> bool {
    &&& event matches EventView::PidfileRead { content }
    &&& spec_parse_i32(content) matches Ok(pid)
    &&& end.session.container_pid == Some(spec_container_pid(pid))
    &&& !start.server.children.contains_key(start.session.request.id)
    &&& !start.watches.contains_key(pid)
    &&& end.server == start.server.after_insert(the_child(start.session.request, pid))
    &&& end.watches == after_watch(start.watches, the_child(start.session.request, pid))
}

/// The event is a pidfile that holds a negative number.
pub open spec fn holds_negative(event: EventView) -> bool {
    &&& event matches EventView::PidfileRead { content }
    &&& spec_parse_i32(content) matches Ok(pid)
    &&& pid < 0
}

/// The event is a pidfile that holds the number `answer`.
pub open spec fn holds_number(event: EventView, answer: int) -> bool {
    &&& event matches EventView::PidfileRead { content }
    &&& spec_parse_i32(content) == Ok::<int, ParseIntError>(answer)
}

/// A number that a pidfile holds fits in 32 bits, and the answer carries it
/// unchanged unless it is negative.
pub proof fn law_answer_of_a_pidfile(content: Seq<char>)
    ensures
        spec_parse_i32(content) matches Ok(pid) ==> i32::MIN <= pid <= i32::MAX && (pid >= 0
            ==> spec_container_pid(pid) == pid),
{
    law_parse_accepts_numbers(content);
}

/// A call that has completed or failed stays as it is, whatever is reported to it.
pub proof fn law_completed_is_final(w: World, event: EventView)
    requires
        w.session.stage == Stage::Completed || w.session.stage == Stage::Failed,
    ensures
        spec_step(w, event) == ignored(w),
{
}

/// However a call ran: where it has completed, a pidfile was read whose
/// number the answer carries, and the child table and the reaper hold the
/// child with that process identifier and are otherwise as they were.
pub proof fn law_response_is_pidfile_content(w: World, events: Seq<EventView>)
    requires
        w.session.stage != Stage::Completed,
    ensures
        run(w, events).session.stage == Stage::Completed ==> exists|k: int|
            0 <= k < events.len() && settled_by(#[trigger] events[k], w, run(w, events)),
    decreases events.len(),
{
    if events.len() > 0 {
        let front = events.drop_last();
        let before = run(w, front);
        let end = run(w, events);
        law_response_is_pidfile_content(w, front);
        if end.session.stage == Stage::Completed {
            if before.session.stage == Stage::Completed {
                law_completed_is_final(before, events.last());
                let k = choose|k: int|
                    0 <= k < front.len() && settled_by(#[trigger] front[k], w, before);
                assert(events[k] == front[k]);
            } else {
                law_failure_registers_nothing(w, front);
                lemma_run_keeps_request(w, front);
                assert(settled_by(events[events.len() - 1], w, end));
            }
        }
    }
}

/// However a call for a container without a terminal ran, as long as no
/// pidfile held a negative number: where it has completed, its answer is
/// the number that stood in the pidfile when it was read.
pub proof fn law_answer_is_the_pidfile_number(w: World, events: Seq<EventView>)
    requires
        w.session.stage != Stage::Completed,
        !w.session.request.terminal,
        forall|k: int| 0 <= k < events.len() ==> !holds_negative(#[trigger] events[k]),
    ensures
        run(w, events).session.stage == Stage::Completed ==> exists|k: int|
            0 <= k < events.len() && run(w, events).session.container_pid is Some
                && holds_number(
                #[trigger] events[k],
                run(w, events).session.container_pid->0 as int,
            ),
{
    law_response_is_pidfile_content(w, events);
    let end = run(w, events);
    if end.session.stage == Stage::Completed {
        let k = choose|k: int| 0 <= k < events.len() && settled_by(#[trigger] events[k], w, end);
        assert(!holds_negative(events[k]));
        law_answer_of_a_pidfile(events[k]->PidfileRead_content);
        assert(holds_number(events[k], end.session.container_pid->0 as int));
    }
}

/// However a call for a container with a terminal ran: it is past the wait
/// for the console only where a peer has connected, and it has completed
/// only where the pidfile was read after that.
pub proof fn law_terminal_waits_for_peer(w: World, events: Seq<EventView>)
    requires
        w.session.request.terminal,
        w.session.stage == Stage::Received,
    ensures
        run(w, events).session.request == w.session.request,
        run(w, events).session.stage == Stage::ConsoleConnected ==> exists|j: int|
            0 <= j < events.len() && #[trigger] events[j] == EventView::ConsoleConnected,
        run(w, events).session.stage == Stage::Completed ==> exists|j: int, k: int|
            0 <= j < k < events.len() && #[trigger] events[j] == EventView::ConsoleConnected
                && (#[trigger] events[k]) is PidfileRead,
    decreases events.len(),
{
    if events.len() > 0 {
        let front = events.drop_last();
        let before = run(w, front);
        let end = run(w, events);
        let last = events.len() - 1;
        law_terminal_waits_for_peer(w, front);
        if end.session.stage == Stage::ConsoleConnected {
            if before.session.stage == Stage::ConsoleConnected {
                let j = choose|j: int|
                    0 <= j < front.len() && #[trigger] front[j] == EventView::ConsoleConnected;
                assert(events[j] == front[j]);
            } else {
                assert(events[last] == EventView::ConsoleConnected);
            }
        }
        if end.session.stage == Stage::Completed {
            if before.session.stage == Stage::Completed {
                let (j, k) = choose|j: int, k: int|
                    0 <= j < k < front.len() && #[trigger] front[j] == EventView::ConsoleConnected
                        && (#[trigger] front[k]) is PidfileRead;
                assert(events[j] == front[j]);
                assert(events[k] == front[k]);
            } else {
                assert(before.session.stage == Stage::ConsoleConnected);
                let j = choose|j: int|
                    0 <= j < front.len() && #[trigger] front[j] == EventView::ConsoleConnected;
                assert(events[j] == front[j]);
                assert(events[last] is PidfileRead);
            }
        }
    }
}

/// However a call ran: unless it has completed, the child table and the
/// reaper are as they were when it began.
pub proof fn law_failure_registers_nothing(w: World, events: Seq<EventView>)
    requires
        w.session.stage != Stage::Completed,
    ensures
        run(w, events).session.stage != Stage::Completed ==> run(w, events).server == w.server
            && run(w, events).watches == w.watches,
    decreases events.len(),
{
    if events.len() > 0 {
        let front = events.drop_last();
        law_failure_registers_nothing(w, front);
        if run(w, front).session.stage == Stage::Completed {
            law_completed_is_final(run(w, front), events.last());
        }
    }
}

/// A step on a pidfile that does not hold a number ends the call, asks for
/// the failure to be told and leaves the child table and the reaper alone.
pub proof fn law_malformed_pidfile_fails(w: World, content: Seq<char>)
    requires
        awaits_pidfile(w.session),
        spec_parse_i32(content) is Err,
    ensures
        ({
            let out = spec_step(w, EventView::PidfileRead { content });
            &&& out.world.session.stage == Stage::Failed
            &&& out.action is Fail
            &&& out.world.server == w.server
            &&& out.world.watches == w.watches
        }),
{
}

/// However a call ran: where the child table already held the identifier
/// of its request when it began, it has not completed.
pub proof fn law_known_identifier_is_refused(w: World, events: Seq<EventView>)
    requires
        w.session.stage != Stage::Completed,
        w.server.children.contains_key(w.session.request.id),
    ensures
        run(w, events).session.stage != Stage::Completed,
        run(w, events).server == w.server,
        run(w, events).session.request == w.session.request,
    decreases events.len(),
{
    if events.len() > 0 {
        law_known_identifier_is_refused(w, events.drop_last());
    }
}

/// A call for a container without a terminal completes where nothing
/// fails: the pipes come up, the runtime starts, the pidfile holds a number,
/// and neither the identifier nor the process is known yet. The answer is
/// that number, and both tables hold the child.
pub proof fn law_plain_call_completes(
    request: RequestView,
    server: ServerView,
    watches: Map<int, WatchView>,
    content: Seq<char>,
)
    requires
        request.id.len() > 0,
        !request.terminal,
        spec_parse_i32(content) is Ok,
        !server.children.contains_key(request.id),
        !watches.contains_key(spec_parse_i32(content)->Ok_0),
    ensures
        ({
            let pid = spec_parse_i32(content)->Ok_0;
            let start = World { session: spec_begin(request).0, server, watches };
            let end = run(
                start,
                seq![EventView::IoReady, EventView::Spawned, EventView::PidfileRead { content }],
            );
            &&& spec_begin(request).1 == ActionView::StartIoStreams
            &&& end.session.stage == Stage::Completed
            &&& end.session.container_pid == Some(spec_container_pid(pid))
            &&& end.server.children == server.children.insert(request.id, the_child(request, pid))
            &&& end.watches == watches.insert(
                pid,
                WatchView { child: the_child(request, pid), state: WatchState::Awaited },
            )
        }),
{
    let start = World { session: spec_begin(request).0, server, watches };
    let e0 = EventView::IoReady;
    let e1 = EventView::Spawned;
    let e2 = EventView::PidfileRead { content };
    let none = Seq::<EventView>::empty();
    lemma_run_push(start, none, e0);
    lemma_run_push(start, none.push(e0), e1);
    lemma_run_push(start, none.push(e0).push(e1), e2);
    assert(seq![e0, e1, e2] =~= none.push(e0).push(e1).push(e2));
}

/// A call for a container with a terminal completes where nothing fails
/// and a peer connects.
pub proof fn law_terminal_call_completes(
    request: RequestView,
    server: ServerView,
    watches: Map<int, WatchView>,
    content: Seq<char>,
)
    requires
        request.id.len() > 0,
        request.terminal,
        spec_parse_i32(content) is Ok,
        !server.children.contains_key(request.id),
        !watches.contains_key(spec_parse_i32(content)->Ok_0),
    ensures
        ({
            let pid = spec_parse_i32(content)->Ok_0;
            let start = World { session: spec_begin(request).0, server, watches };
            let end = run(
                start,
                seq![
                    EventView::IoReady,
                    EventView::Spawned,
                    EventView::ConsoleConnected,
                    EventView::PidfileRead { content },
                ],
            );
            &&& spec_begin(request).1 == ActionView::AllocateConsole
            &&& end.session.stage == Stage::Completed
            &&& end.session.container_pid == Some(spec_container_pid(pid))
        }),
{
    let start = World { session: spec_begin(request).0, server, watches };
    let e0 = EventView::IoReady;
    let e1 = EventView::Spawned;
    let e2 = EventView::ConsoleConnected;
    let e3 = EventView::PidfileRead { content };
    let none = Seq::<EventView>::empty();
    lemma_run_push(start, none, e0);
    lemma_run_push(start, none.push(e0), e1);
    lemma_run_push(start, none.push(e0).push(e1), e2);
    lemma_run_push(start, none.push(e0).push(e1).push(e2), e3);
    assert(seq![e0, e1, e2, e3] =~= none.push(e0).push(e1).push(e2).push(e3));
}

/// A step leaves well-formed tables well formed: whatever a call registers
/// is a child whose exit paths are an ordered set, filed under its own
/// identifier and watched under its own process identifier.
pub proof fn law_step_keeps_tables_well_formed(w: World, event: EventView)
    requires
        w.server.wf(),
        watches_wf(w.watches),
    ensures
        spec_step(w, event).world.server.wf(),
        watches_wf(spec_step(w, event).world.watches),
{
    if event is PidfileRead {
        let content = event->PidfileRead_content;
        law_answer_of_a_pidfile(content);
        if spec_parse_i32(content) is Ok {
            lemma_distinct(w.session.request.exit_paths);
        }
    }
}

/// The exit of a container that a call has just registered is written once
/// to each exit path of its request, however often its end is reported: the
/// writes are those of the first report, one for each path that the request
/// names, repeated names dropped.
pub proof fn law_created_container_exits_once(
    w: World,
    content: Seq<char>,
    reports: Seq<(int, ExitStatus)>,
)
    requires
        spec_step(w, EventView::PidfileRead { content }).action is Respond,
    ensures
        ({
            let pid = spec_parse_i32(content)->Ok_0;
            let registered = spec_step(w, EventView::PidfileRead { content }).world;
            deliveries(registered.watches, reports, pid) == match first_report(reports, pid) {
                Some(status) => exit_writes(
                    distinct(w.session.request.exit_paths),
                    exit_content(status),
                ),
                None => Seq::<ExitWriteView>::empty(),
            }
        }),
{
    let pid = spec_parse_i32(content)->Ok_0;
    let registered = spec_step(w, EventView::PidfileRead { content }).world;
    law_exit_delivered_once(registered.watches, reports, pid);
}

/// A connection is taken once: after it the call no longer waits for one,
/// and a second connection changes nothing.
pub proof fn law_second_connection_is_ignored(w: World)
    requires
        awaits_console(w.session),
    ensures
        ({
            let once = spec_step(w, EventView::ConsoleConnected);
            &&& once.world.session.stage == Stage::ConsoleConnected
            &&& once.action == read_pidfile(w)
            &&& spec_step(once.world, EventView::ConsoleConnected) == ignored(once.world)
        }),
{
}

/// A call that waits for a peer fails when it is told that none came in
/// time, and registers nothing.
pub proof fn law_timeout_fails_the_call(w: World)
    requires
        awaits_console(w.session),
    ensures
        ({
            let out = spec_step(w, EventView::ConsoleTimedOut);
            &&& out.world.session.stage == Stage::Failed
            &&& out.action == ActionView::Fail {
                failure: FailureView {
                    kind: FailureKind::Synchronization,
                    stage: Stage::Spawned,
                    message: console_context() + timed_out(),
                },
            }
            &&& out.world.server == w.server
            &&& out.world.watches == w.watches
        }),
{
}

/// What each action presupposes. Neither a console nor pipes are asked for
/// a second time, so a call has the one or the other and never both. The
/// runtime is started only once they are there. The console is waited for
/// only with a terminal and only once the runtime was started. The pidfile
/// is read only once the runtime was started and, with a terminal, a peer
/// has connected. The request is answered only on a pidfile.
pub proof fn law_actions_come_in_order(w: World, event: EventView)
    ensures
        ({
            let s = w.session;
            let out = spec_step(w, event);
            &&& !(out.action is AllocateConsole)
            &&& !(out.action is StartIoStreams)
            &&& out.action is Spawn ==> s.stage == Stage::Received && event == EventView::IoReady
            &&& out.action is WaitConsole ==> s.request.terminal && s.stage == Stage::IoAllocated
                && event == EventView::Spawned
            &&& out.action is ReadPidfile ==> if s.request.terminal {
                s.stage == Stage::Spawned && event == EventView::ConsoleConnected
            } else {
                s.stage == Stage::IoAllocated && event == EventView::Spawned
            }
            &&& out.action is Respond ==> awaits_pidfile(s) && event is PidfileRead
                && out.world.session.stage == Stage::Completed
            &&& out.action is Fail <==> out.world.session.stage == Stage::Failed && s.stage
                != Stage::Failed
            &&& out.world.session.stage == Stage::Completed <==> out.action is Respond || s.stage
                == Stage::Completed
        }),
{
}

/// The process identifier as the answer carries it.
pub fn container_pid(pid: i32) -> (answer: u32)
    ensures
        answer == spec_container_pid(pid as int),
{
    if pid >= 0 {
        pid as u32
    } else {
        (pid as i64 + 0x1_0000_0000) as u32
    }
}

impl Server {
    /// Takes a request to create a container and says what is to be done first.
    pub fn create_container(&self, request: CreateContainerRequest) -> (r: (Session, Action))
        ensures
            (r.0@, r.1@) == spec_begin(request@),
    {
        if request.id.as_str().is_empty() {
            let failure = Failure {
                kind: FailureKind::Protocol,
                stage: Stage::Received,
                message: "container id is empty".to_owned(),
            };
            (
                Session { request, stage: Stage::Failed, container_pid: None },
                Action::Fail { failure },
            )
        } else {
            let action = if request.terminal {
                Action::AllocateConsole
            } else {
                Action::StartIoStreams
            };
            (Session { request, stage: Stage::Received, container_pid: None }, action)
        }
    }
}

impl Session {
    pub fn stage(&self) -> (stage: Stage)
        ensures
            stage == self@.stage,
    {
        self.stage
    }

    pub fn request(&self) -> (request: &CreateContainerRequest)
        ensures
            request@ == self@.request,
    {
        &self.request
    }

    /// The answer, once the call has completed.
    pub fn container_pid(&self) -> (answer: Option<u32>)
        ensures
            answer == self@.container_pid,
    {
        self.container_pid
    }

    /// Ends the call with a failure.
    fn fail(&mut self, kind: FailureKind, message: String) -> (action: Action)
        ensures
            final(self)@ == (SessionView {
                request: old(self)@.request,
                stage: Stage::Failed,
                container_pid: old(self)@.container_pid,
            }),
            action@ == (ActionView::Fail {
                failure: FailureView { kind, stage: old(self)@.stage, message: message@ },
            }),
    {
        let failure = Failure { kind, stage: self.stage, message };
        self.stage = Stage::Failed;
        Action::Fail { failure }
    }

    /// Moves the call on to the reading of the pidfile.
    fn ask_for_pidfile(&self) -> (action: Action)
        ensures
            action@ == (ActionView::ReadPidfile { path: spec_pidfile(self@.request.bundle_path) }),
    {
        Action::ReadPidfile { path: pidfile_from_params(&self.request) }
    }

    /// Registers the child that the pidfile has named and answers the request.
    fn resolve(&mut self, server: &mut Server, reaper: &mut ChildReaper, pid: i32) -> (action:
        Action)
        ensures
            resolved(
                World { session: old(self)@, server: old(server)@, watches: old(reaper)@ },
                pid as int,
            ) == (Outcome {
                world: World {
                    session: final(self)@,
                    server: final(server)@,
                    watches: final(reaper)@,
                },
                action: action@,
            }),
    {
        self.stage = Stage::PidResolved;
        let child = Child::new(self.request.id.clone(), pid, copy_texts(&self.request.exit_paths));
        if server.contains(self.request.id.as_str()) {
            return self.fail(
                FailureKind::Registration,
                RegistrationError::DuplicateId.message().to_owned(),
            );
        }
        match reaper.watch_grandchild(&child) {
            Err(e) => self.fail(FailureKind::Registration, e.message().to_owned()),
            Ok(()) => {
                self.stage = Stage::Registered;
                // The table takes the child: its identifier was looked up above.
                let _ = server.insert(child);
                let answer = container_pid(pid);
                self.stage = Stage::Completed;
                self.container_pid = Some(answer);
                Action::Respond { container_pid: answer }
            },
        }
    }

    /// Takes what came of the last action and says what is to be done next.
    pub fn step(&mut self, server: &mut Server, reaper: &mut ChildReaper, event: Event) -> (action:
        Action)
        ensures
            spec_step(
                World { session: old(self)@, server: old(server)@, watches: old(reaper)@ },
                event@,
            ) == (Outcome {
                world: World {
                    session: final(self)@,
                    server: final(server)@,
                    watches: final(reaper)@,
                },
                action: action@,
            }),
    {
        let awaits_io = matches!(self.stage, Stage::Received);
        let awaits_spawn = matches!(self.stage, Stage::IoAllocated);
        let awaits_console = matches!(self.stage, Stage::Spawned) && self.request.terminal;
        let awaits_pidfile = (matches!(self.stage, Stage::Spawned) && !self.request.terminal)
            || matches!(self.stage, Stage::ConsoleConnected);
        match event {
            Event::IoReady => {
                if awaits_io {
                    self.stage = Stage::IoAllocated;
                    Action::Spawn {
                        runtime: server.runtime().clone(),
                        pidfile: pidfile_from_params(&self.request),
                    }
                } else {
                    Action::Ignore
                }
            },
            Event::IoFailed { cause } => {
                if awaits_io {
                    self.fail(FailureKind::ResourceAllocation, cause)
                } else {
                    Action::Ignore
                }
            },
            Event::Spawned => {
                if awaits_spawn {
                    self.stage = Stage::Spawned;
                    if self.request.terminal {
                        Action::WaitConsole { timeout_seconds: CONSOLE_TIMEOUT_SECONDS }
                    } else {
                        self.ask_for_pidfile()
                    }
                } else {
                    Action::Ignore
                }
            },
            Event::SpawnFailed { cause } => {
                if awaits_spawn {
                    self.fail(FailureKind::Spawn, cause)
                } else {
                    Action::Ignore
                }
            },
            Event::ConsoleConnected => {
                if awaits_console {
                    self.stage = Stage::ConsoleConnected;
                    self.ask_for_pidfile()
                } else {
                    Action::Ignore
                }
            },
            Event::ConsoleFailed { cause } => {
                if awaits_console {
                    let mut message = "wait for console socket connection: ".to_owned();
                    message.append(cause.as_str());
                    self.fail(FailureKind::Synchronization, message)
                } else {
                    Action::Ignore
                }
            },
            Event::ConsoleTimedOut => {
                if awaits_console {
                    let mut message = "wait for console socket connection: ".to_owned();
                    message.append("timed out");
                    self.fail(FailureKind::Synchronization, message)
                } else {
                    Action::Ignore
                }
            },
            Event::PidfileRead { content } => {
                if awaits_pidfile {
                    match parse_i32(content.as_str()) {
                        Ok(pid) => self.resolve(server, reaper, pid),
                        Err(e) => self.fail(FailureKind::Protocol, e.message().to_owned()),
                    }
                } else {
                    Action::Ignore
                }
            },
            Event::PidfileUnreadable { cause } => {
                if awaits_pidfile {
                    self.fail(FailureKind::Protocol, cause)
                } else {
                    Action::Ignore
                }
            },
        }
    }
}

} // verus!
