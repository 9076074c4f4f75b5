//! Bookkeeping of the supervised processes: which process identifiers are
//! watched, which of them are still awaited, and what is written to the exit
//! files of one that has ended.
//!
//! The exit status is written as the decimal text of an exit code: the code
//! that the process returned, or 128 plus the number of the signal that killed
//! it.
//!
//! The reaper never collects a process by itself. `awaited` names the
//! processes whose end may be collected, and `child_exited` takes the status
//! of one that was collected. A process that ended before it was registered is
//! found the next time the awaited processes are polled, so the caller polls
//! once after each registration and whenever the system reports that a
//! child has ended.
//!
//! A watch goes through three states. It is awaited until the end of its
//! process is reported; then the status is recorded and the writes are
//! handed out, once; and it is finished when the caller reports that every
//! write is done. A write that fails is the caller's to log: it is not
//! asked for again, and the watch is never finished.

use crate::child::{texts, Child, ChildView};
use crate::decimal::{decimal_text, format_i64};
use crate::failure::RegistrationError;
use crate::table::{
    filed, has_key, keys_differ, lemma_filed_at, lemma_filed_empty, lemma_filed_push,
    lemma_filed_update, slot,
};
use vstd::prelude::*;

verus! {

/// How a process ended.
#[derive(Debug, Clone, Copy, PartialEq, Eq, Structural)]
pub enum ExitStatus {
    /// It returned `code`.
    Exited { code: i32 },
    /// It was killed by `signal`.
    Signaled { signal: i32 },
}

/// The exit code that stands for a status.
pub open spec fn spec_exit_code(status: ExitStatus) -> int {
    match status {
        ExitStatus::Exited { code } => code as int,
        ExitStatus::Signaled { signal } => 128 + signal,
    }
}

/// What an exit file holds for a status.
pub open spec fn exit_content(status: ExitStatus) -> Seq<char> {
    decimal_text(spec_exit_code(status))
}

impl ExitStatus {
    pub fn exit_code(&self) -> (code: i64)
        ensures
            code == spec_exit_code(*self),
    {
        match self {
            ExitStatus::Exited { code } => *code as i64,
            ExitStatus::Signaled { signal } => 128 + *signal as i64,
        }
    }

    /// The text that is written to the exit files.
    pub fn content(&self) -> (text: String)
        ensures
            text@ == exit_content(*self),
    {
        format_i64(self.exit_code())
    }
}

/// What an `ExitWrite` stands for.
pub struct ExitWriteView {
    pub path: Seq<char>,
    pub content: Seq<char>,
}

/// One file to write: `content` replaces whatever `path` held.
#[derive(Debug, Clone, PartialEq, Eq)]
pub struct ExitWrite {
    pub path: String,
    pub content: String,
}

impl View for ExitWrite {
    type V = ExitWriteView;

    open spec fn view(&self) -> ExitWriteView {
        ExitWriteView { path: self.path@, content: self.content@ }
    }
}

/// What each write stands for, in order.
pub open spec fn write_views(writes: Seq<ExitWrite>) -> Seq<ExitWriteView> {
    writes.map_values(|w: ExitWrite| w@)
}

/// One write of `content` for each path, in the order of the paths.
pub open spec fn exit_writes(paths: Seq<Seq<char>>, content: Seq<char>) -> Seq<ExitWriteView> {
    paths.map_values(|p: Seq<char>| ExitWriteView { path: p, content })
}

/// How far the supervision of one process has come.
#[derive(Debug, Clone, Copy, PartialEq, Eq, Structural)]
pub enum WatchState {
    /// The process is registered and its end was not reported yet.
    Awaited,
    /// The end was reported and the writes were handed out.
    Exited { status: ExitStatus },
    /// Every exit file is written.
    Finished { status: ExitStatus },
}

impl WatchState {
    /// The status, once the end was reported.
    pub open spec fn spec_status(self) -> Option<ExitStatus> {
        match self {
            WatchState::Awaited => None,
            WatchState::Exited { status } => Some(status),
            WatchState::Finished { status } => Some(status),
        }
    }

    /// The status, once the end was reported.
    pub fn status(&self) -> (status: Option<ExitStatus>)
        ensures
            status == self.spec_status(),
    {
        match self {
            WatchState::Awaited => None,
            WatchState::Exited { status } => Some(*status),
            WatchState::Finished { status } => Some(*status),
        }
    }
}

/// What the reaper knows of one watched process.
pub struct WatchView {
    pub child: ChildView,
    pub state: WatchState,
}

struct Watch {
    child: Child,
    state: WatchState,
}

impl View for Watch {
    type V = WatchView;

    closed spec fn view(&self) -> WatchView {
        WatchView { child: self.child@, state: self.state }
    }
}

/// Each watch is filed under the process identifier of its child, and each child is well formed.
pub open spec fn watches_wf(m: Map<int, WatchView>) -> bool {
    forall|pid: int| #[trigger]
        m.contains_key(pid) ==> m[pid].child.pid == pid && m[pid].child.wf()
}

/// Whether `pid` is watched and has not ended yet.
pub open spec fn is_awaited(m: Map<int, WatchView>, pid: int) -> bool {
    m.contains_key(pid) && m[pid].state is Awaited
}

/// The watches after `child` was offered for registration.
pub open spec fn after_watch(m: Map<int, WatchView>, child: ChildView) -> Map<int, WatchView> {
    if m.contains_key(child.pid) {
        m
    } else {
        m.insert(child.pid, WatchView { child, state: WatchState::Awaited })
    }
}

/// The watches after the end of `pid` was reported with `status`.
pub open spec fn after_exit(m: Map<int, WatchView>, pid: int, status: ExitStatus) -> Map<
    int,
    WatchView,
> {
    if is_awaited(m, pid) {
        m.insert(pid, WatchView { child: m[pid].child, state: WatchState::Exited { status } })
    } else {
        m
    }
}

/// The watches after the caller reported that the exit files of `pid` are written.
pub open spec fn after_written(m: Map<int, WatchView>, pid: int) -> Map<int, WatchView> {
    if m.contains_key(pid) && m[pid].state is Exited {
        m.insert(
            pid,
            WatchView {
                child: m[pid].child,
                state: WatchState::Finished { status: m[pid].state->Exited_status },
            },
        )
    } else {
        m
    }
}

/// The writes that the report of the end of `pid` with `status` calls for.
pub open spec fn writes_on_exit(m: Map<int, WatchView>, pid: int, status: ExitStatus) -> Seq<
    ExitWriteView,
> {
    if is_awaited(m, pid) {
        exit_writes(m[pid].child.exit_paths, exit_content(status))
    } else {
        Seq::empty()
    }
}

/// All the writes for `pid` that a run of reports calls for, in order.
pub open spec fn deliveries(
    m: Map<int, WatchView>,
    reports: Seq<(int, ExitStatus)>,
    pid: int,
) -> Seq<ExitWriteView>
    decreases reports.len(),
{
    if reports.len() == 0 {
        Seq::empty()
    } else {
        let (reported, status) = reports[0];
        let rest = deliveries(after_exit(m, reported, status), reports.drop_first(), pid);
        if reported == pid {
            writes_on_exit(m, reported, status) + rest
        } else {
            rest
        }
    }
}

/// The status of the first report that speaks of `pid`.
pub open spec fn first_report(reports: Seq<(int, ExitStatus)>, pid: int) -> Option<ExitStatus>
    decreases reports.len(),
{
    if reports.len() == 0 {
        None
    } else if reports[0].0 == pid {
        Some(reports[0].1)
    } else {
        first_report(reports.drop_first(), pid)
    }
}

/// A second report of the same end changes nothing and calls for no write.
pub proof fn law_second_report_is_void(
    m: Map<int, WatchView>,
    pid: int,
    first: ExitStatus,
    second: ExitStatus,
)
    ensures
        after_exit(after_exit(m, pid, first), pid, second) == after_exit(m, pid, first),
        writes_on_exit(after_exit(m, pid, first), pid, second) == Seq::<ExitWriteView>::empty(),
{
}

/// The report of the end of an awaited process calls for exactly one write
/// to each of its exit paths, each with the content that stands for the status.
pub proof fn law_one_write_per_path(m: Map<int, WatchView>, pid: int, status: ExitStatus)
    requires
        watches_wf(m),
        is_awaited(m, pid),
    ensures
        ({
            let writes = writes_on_exit(m, pid, status);
            let paths = m[pid].child.exit_paths;
            &&& writes.len() == paths.len()
            &&& forall|i: int|
                0 <= i < writes.len() ==> (#[trigger] writes[i]).path == paths[i] && writes[i].content
                    == exit_content(status)
            &&& forall|i: int, j: int|
                0 <= i < j < writes.len() ==> (#[trigger] writes[i]).path != (#[trigger] writes[j]).path
        }),
{
}

/// A watch is finished only by the report that its files are written, and
/// only after the end of its process was reported: that report changes an
/// awaited watch as little as an unknown process, and the status of a
/// finished watch is the one that was recorded.
pub proof fn law_finished_follows_exit(m: Map<int, WatchView>, pid: int, status: ExitStatus)
    ensures
        !m.contains_key(pid) || m[pid].state is Awaited ==> after_written(m, pid) == m,
        is_awaited(m, pid) ==> after_written(after_exit(m, pid, status), pid)[pid].state
            == (WatchState::Finished { status }),
        forall|other: int| #[trigger]
            after_written(m, pid).contains_key(other) <==> m.contains_key(other),
        forall|other: int|
            m.contains_key(other) ==> (#[trigger] after_written(m, pid)[other]).child
                == m[other].child && (is_awaited(after_written(m, pid), other) <==> is_awaited(
                m,
                other,
            )),
{
}

/// A report about a process that is not awaited changes nothing and calls for no write.
pub proof fn law_unwatched_is_left_alone(m: Map<int, WatchView>, pid: int, status: ExitStatus)
    requires
        !is_awaited(m, pid),
    ensures
        after_exit(m, pid, status) == m,
        writes_on_exit(m, pid, status) == Seq::<ExitWriteView>::empty(),
{
}

/// Over any run of reports, however often the end of `pid` is reported, the
/// writes for `pid` are those of its first report and no more: none where
/// the process was not awaited or no report speaks of it.
pub proof fn law_exit_delivered_once(
    m: Map<int, WatchView>,
    reports: Seq<(int, ExitStatus)>,
    pid: int,
)
    ensures
        deliveries(m, reports, pid) == match first_report(reports, pid) {
            Some(status) => writes_on_exit(m, pid, status),
            None => Seq::<ExitWriteView>::empty(),
        },
    decreases reports.len(),
{
    if reports.len() > 0 {
        let (reported, status) = reports[0];
        let next = after_exit(m, reported, status);
        let rest = reports.drop_first();
        law_exit_delivered_once(next, rest, pid);
        if reported == pid {
            lemma_no_delivery_once_ended(next, rest, pid);
            assert(writes_on_exit(m, pid, status) + Seq::<ExitWriteView>::empty()
                =~= writes_on_exit(m, pid, status));
        } else if is_awaited(m, pid) {
            assert(is_awaited(next, pid) && next[pid] == m[pid]);
        }
    }
}

/// No run of reports calls for a write for a process that is not awaited.
pub proof fn lemma_no_delivery_once_ended(
    m: Map<int, WatchView>,
    reports: Seq<(int, ExitStatus)>,
    pid: int,
)
    requires
        !is_awaited(m, pid),
    ensures
        deliveries(m, reports, pid) == Seq::<ExitWriteView>::empty(),
    decreases reports.len(),
{
    if reports.len() > 0 {
        let (reported, status) = reports[0];
        let next = after_exit(m, reported, status);
        assert(!is_awaited(next, pid));
        lemma_no_delivery_once_ended(next, reports.drop_first(), pid);
        assert(Seq::<ExitWriteView>::empty() + Seq::<ExitWriteView>::empty()
            =~= Seq::<ExitWriteView>::empty());
    }
}

/// The key of a watch: the process identifier of its child.
spec fn pid_of() -> spec_fn(Watch) -> int {
    |w: Watch| w.child@.pid
}

/// What a watch stands for.
spec fn seen() -> spec_fn(Watch) -> WatchView {
    |w: Watch| w@
}

/// Every watched child is well formed.
spec fn children_wf(watches: Seq<Watch>) -> bool {
    forall|i: int| 0 <= i < watches.len() ==> (#[trigger] watches[i]).child@.wf()
}

/// Watches of distinct processes and well-formed children make a well-formed table.
proof fn lemma_filed_wf(watches: Seq<Watch>)
    requires
        keys_differ(watches, pid_of()),
        children_wf(watches),
    ensures
        watches_wf(filed(watches, pid_of(), seen())),
{
    let m = filed(watches, pid_of(), seen());
    assert forall|pid: int| #[trigger] m.contains_key(pid) implies m[pid].child.pid == pid
        && m[pid].child.wf() by {
        let k = slot(watches, pid_of(), pid);
        lemma_filed_at(watches, pid_of(), seen(), k);
    }
}

/// The supervisor's table: for each watched process identifier the child it
/// belongs to and, once the process has ended, its status.
pub struct ChildReaper {
    watches: Vec<Watch>,
}

impl View for ChildReaper {
    type V = Map<int, WatchView>;

    closed spec fn view(&self) -> Map<int, WatchView> {
        filed(self.watches@, pid_of(), seen())
    }
}

/// One write of `content` for each of `paths`.
fn writes_for(paths: &Vec<String>, content: &String) -> (writes: Vec<ExitWrite>)
    ensures
        write_views(writes@) == exit_writes(texts(paths@), content@),
{
    let mut writes: Vec<ExitWrite> = Vec::new();
    let mut i: usize = 0;
    while i < paths.len()
        invariant
            i <= paths.len(),
            write_views(writes@) == exit_writes(texts(paths@).take(i as int), content@),
        decreases paths.len() - i,
    {
        let ghost before = write_views(writes@);
        let write = ExitWrite { path: paths[i].clone(), content: content.clone() };
        writes.push(write);
        assert(exit_writes(texts(paths@).take(i + 1), content@) =~= before.push(write@));
        i = i + 1;
    }
    writes
}

impl ChildReaper {
    #[verifier::type_invariant]
    spec fn inv(self) -> bool {
        keys_differ(self.watches@, pid_of()) && children_wf(self.watches@)
    }

    /// A reaper that watches nothing.
    pub fn new() -> (reaper: ChildReaper)
        ensures
            reaper@ == Map::<int, WatchView>::empty(),
            watches_wf(reaper@),
    {
        let reaper = ChildReaper { watches: Vec::new() };
        proof {
            lemma_filed_empty::<Watch, int, WatchView>(pid_of(), seen());
            assert(reaper.watches@ =~= Seq::<Watch>::empty());
        }
        reaper
    }

    /// Where the watch of `pid` stands.
    fn find(&self, pid: i32) -> (found: Option<usize>)
        ensures
            match found {
                Some(i) => i < self.watches.len() && self.watches[i as int].child@.pid == pid,
                None => !has_key(self.watches@, pid_of(), pid as int),
            },
    {
        let mut i: usize = 0;
        while i < self.watches.len()
            invariant
                i <= self.watches.len(),
                forall|j: int| 0 <= j < i ==> (#[trigger] self.watches[j]).child@.pid != pid,
            decreases self.watches.len() - i,
        {
            if self.watches[i].child.pid() == pid {
                return Some(i);
            }
            i = i + 1;
        }
        None
    }

    /// Whether `pid` was registered, awaited or ended.
    pub fn is_watching(&self, pid: i32) -> (watching: bool)
        ensures
            watching == self@.contains_key(pid as int),
            watches_wf(self@),
    {
        proof {
            use_type_invariant(self);
            lemma_filed_wf(self.watches@);
        }
        self.find(pid).is_some()
    }

    /// How far the supervision of `pid` has come, where `pid` was registered.
    pub fn state(&self, pid: i32) -> (state: Option<WatchState>)
        ensures
            state == if self@.contains_key(pid as int) {
                Some(self@[pid as int].state)
            } else {
                None
            },
    {
        proof {
            use_type_invariant(self);
        }
        match self.find(pid) {
            Some(i) => {
                proof {
                    lemma_filed_at(self.watches@, pid_of(), seen(), i as int);
                }
                Some(self.watches[i].state)
            },
            None => None,
        }
    }

    /// The status of `pid`, where its end was reported.
    pub fn exit_status(&self, pid: i32) -> (status: Option<ExitStatus>)
        ensures
            status == if self@.contains_key(pid as int) {
                self@[pid as int].state.spec_status()
            } else {
                None
            },
    {
        match self.state(pid) {
            Some(state) => state.status(),
            None => None,
        }
    }

    /// Registers the process of `child` for supervision. A process
    /// identifier that is already filed is refused, and nothing changes.
    pub fn watch_grandchild(&mut self, child: &Child) -> (r: Result<(), RegistrationError>)
        ensures
            final(self)@ == after_watch(old(self)@, child@),
            r is Err <==> old(self)@.contains_key(child@.pid),
            r is Err ==> r == Err::<(), RegistrationError>(RegistrationError::AlreadyWatched),
            watches_wf(final(self)@),
    {
        proof {
            use_type_invariant(&*self);
            lemma_filed_wf(self.watches@);
        }
        let pid = child.pid();
        if self.find(pid).is_some() {
            return Err(RegistrationError::AlreadyWatched);
        }
        let watch = Watch { child: child.clone(), state: WatchState::Awaited };
        proof {
            lemma_filed_push(self.watches@, pid_of(), seen(), watch);
            assert forall|i: int| 0 <= i < self.watches@.push(watch).len() implies (
            #[trigger] self.watches@.push(watch)[i]).child@.wf() by {
                if i < self.watches.len() {
                    assert(self.watches@[i].child@.wf());
                }
            }
            lemma_filed_wf(self.watches@.push(watch));
        }
        let mut watches: Vec<Watch> = Vec::new();
        core::mem::swap(&mut self.watches, &mut watches);
        watches.push(watch);
        core::mem::swap(&mut self.watches, &mut watches);
        Ok(())
    }

    /// The processes whose end may be collected: those registered and not
    /// yet reported as ended, each once.
    pub fn awaited(&self) -> (pids: Vec<i32>)
        ensures
            pids@.no_duplicates(),
            forall|pid: i32| pids@.contains(pid) <==> is_awaited(self@, pid as int),
    {
        proof {
            use_type_invariant(self);
        }
        let mut pids: Vec<i32> = Vec::new();
        let ghost mut origin: Seq<int> = Seq::empty();
        let mut i: usize = 0;
        while i < self.watches.len()
            invariant
                i <= self.watches.len(),
                keys_differ(self.watches@, pid_of()),
                origin.len() == pids.len(),
                forall|k: int|
                    0 <= k < pids.len() ==> 0 <= #[trigger] origin[k] < i
                        && self.watches[origin[k]].child@.pid == pids[k]
                        && self.watches[origin[k]].state is Awaited,
                forall|k: int, l: int| 0 <= k < l < pids.len() ==> origin[k] < origin[l],
                forall|j: int|
                    0 <= j < i && (#[trigger] self.watches[j]).state is Awaited ==> exists|k: int|
                        0 <= k < pids.len() && origin[k] == j,
            decreases self.watches.len() - i,
        {
            if matches!(self.watches[i].state, WatchState::Awaited) {
                let ghost before = origin;
                pids.push(self.watches[i].child.pid());
                proof {
                    origin = origin.push(i as int);
                    assert forall|j: int|
                        0 <= j < i + 1 && (#[trigger] self.watches[j]).state is Awaited implies exists|
                        k: int,
                    | 0 <= k < pids.len() && origin[k] == j by {
                        if j < i {
                            let k = choose|k: int| 0 <= k < before.len() && before[k] == j;
                            assert(origin[k] == j);
                        } else {
                            assert(origin[before.len() as int] == j);
                        }
                    }
                }
            }
            i = i + 1;
        }
        proof {
            assert forall|k: int, l: int| 0 <= k < l < pids.len() implies pids[k] != pids[l] by {
                assert(origin[k] < origin[l]);
                assert(self.watches[origin[k]].child@.pid != self.watches[origin[l]].child@.pid);
            }
            assert forall|pid: i32| pids@.contains(pid) <==> is_awaited(self@, pid as int) by {
                if pids@.contains(pid) {
                    let k = choose|k: int| 0 <= k < pids.len() && pids[k] == pid;
                    lemma_filed_at(self.watches@, pid_of(), seen(), origin[k]);
                }
                if is_awaited(self@, pid as int) {
                    let j = slot(self.watches@, pid_of(), pid as int);
                    lemma_filed_at(self.watches@, pid_of(), seen(), j);
                    let k = choose|k: int| 0 <= k < pids.len() && origin[k] == j;
                    assert(pids[k] == pid);
                }
            }
        }
        pids
    }

    /// Takes the report that `pid` has ended with `status`. Where `pid` is
    /// awaited, the status is recorded and one write for each exit path of
    /// its child is returned. Any other report, a repeated one too, changes
    /// nothing and returns no write.
    pub fn child_exited(&mut self, pid: i32, status: ExitStatus) -> (writes: Vec<ExitWrite>)
        ensures
            final(self)@ == after_exit(old(self)@, pid as int, status),
            write_views(writes@) == writes_on_exit(old(self)@, pid as int, status),
            watches_wf(final(self)@),
    {
        proof {
            use_type_invariant(&*self);
            lemma_filed_wf(self.watches@);
        }
        match self.find(pid) {
            None => {
                Vec::new()
            },
            Some(i) => {
                proof {
                    lemma_filed_at(self.watches@, pid_of(), seen(), i as int);
                }
                if !matches!(self.watches[i].state, WatchState::Awaited) {
                    Vec::new()
                } else {
                    let content = status.content();
                    let writes = writes_for(self.watches[i].child.exit_paths(), &content);
                    let ghost before = self.watches@;
                    let mut watches: Vec<Watch> = Vec::new();
                    core::mem::swap(&mut self.watches, &mut watches);
                    watches[i].state = WatchState::Exited { status };
                    proof {
                        let watch = watches@[i as int];
                        assert(watch.child == before[i as int].child);
                        assert(watches@ =~= before.update(i as int, watch));
                        lemma_filed_update(before, pid_of(), seen(), i as int, watch);
                        assert forall|j: int| 0 <= j < watches.len() implies (
                        #[trigger] watches@[j]).child@.wf() by {
                            assert(before[j].child@.wf());
                        }
                        lemma_filed_wf(watches@);
                    }
                    core::mem::swap(&mut self.watches, &mut watches);
                    writes
                }
            },
        }
    }

    /// Takes the report that every exit file of `pid` is written, and says
    /// whether that finished a watch. It does where the end of `pid` was
    /// reported and its watch was not finished yet; otherwise nothing
    /// changes.
    pub fn exit_written(&mut self, pid: i32) -> (finished: bool)
        ensures
            final(self)@ == after_written(old(self)@, pid as int),
            finished == (old(self)@.contains_key(pid as int) && old(self)@[pid as int].state
                is Exited),
            watches_wf(final(self)@),
    {
        proof {
            use_type_invariant(&*self);
            lemma_filed_wf(self.watches@);
        }
        match self.find(pid) {
            None => false,
            Some(i) => {
                proof {
                    lemma_filed_at(self.watches@, pid_of(), seen(), i as int);
                }
                match self.watches[i].state {
                    WatchState::Exited { status } => {
                        let ghost before = self.watches@;
                        let mut watches: Vec<Watch> = Vec::new();
                        core::mem::swap(&mut self.watches, &mut watches);
                        watches[i].state = WatchState::Finished { status };
                        proof {
                            let watch = watches@[i as int];
                            assert(watch.child == before[i as int].child);
                            assert(watches@ =~= before.update(i as int, watch));
                            lemma_filed_update(before, pid_of(), seen(), i as int, watch);
                            assert forall|j: int| 0 <= j < watches.len() implies (
                            #[trigger] watches@[j]).child@.wf() by {
                                assert(before[j].child@.wf());
                            }
                            lemma_filed_wf(watches@);
                        }
                        core::mem::swap(&mut self.watches, &mut watches);
                        true
                    },
                    _ => false,
                }
            },
        }
    }
}

} // verus!
