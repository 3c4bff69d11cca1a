//! Keeps the game's integrity checks from running: thread creation is hooked so
//! that a new integrity-check thread starts as an empty thread, and the
//! integrity-check threads already running in the process are terminated.
use vstd::prelude::*;
use crate::plan::{Action, ActionView, GameState, Plan, action_views, apply_action, apply_actions, plan_start,
    lemma_apply_actions_concat, lemma_apply_single_action};

verus! {

/// The entry point of the game's integrity-check thread.
pub const INTEGRITY_THREAD_START_ADDRESS: u64 = 0x1_4275_DE50;

/// Whether a thread that starts at `start_address` is an integrity-check thread,
/// and is to be terminated.
pub fn is_integrity_thread(start_address: u64) -> (found: bool)
    ensures
        found == (start_address == INTEGRITY_THREAD_START_ADDRESS),
{
    start_address == INTEGRITY_THREAD_START_ADDRESS
}

/// Where the thread-creation hook starts a thread asked to start at
/// `requested`: an integrity-check thread at `empty_thread` instead, any other
/// thread where it was asked to.
pub open spec fn hooked_start(requested: u64, empty_thread: u64) -> u64 {
    if requested == INTEGRITY_THREAD_START_ADDRESS {
        empty_thread
    } else {
        requested
    }
}

/// The start address that the thread-creation hook hands on to the system.
pub fn hooked_thread_start(requested: u64, empty_thread: u64) -> (start: u64)
    ensures
        start == hooked_start(requested, empty_thread),
        requested == INTEGRITY_THREAD_START_ADDRESS ==> start == empty_thread,
        requested != INTEGRITY_THREAD_START_ADDRESS ==> start == requested,
{
    if requested == INTEGRITY_THREAD_START_ADDRESS {
        empty_thread
    } else {
        requested
    }
}

/// An integrity-check thread is started at exactly the given empty-thread
/// address, whatever it is, and every other thread where it was asked to.
pub proof fn lemma_hooked_start_redirects_exactly(requested: u64, empty_thread: u64)
    ensures
        hooked_start(INTEGRITY_THREAD_START_ADDRESS, empty_thread) == empty_thread,
        requested != INTEGRITY_THREAD_START_ADDRESS ==> hooked_start(requested, empty_thread)
            == requested,
{
}

/// While thread creation is hooked, no thread starts at the integrity-check
/// entry point, and every other thread starts where it was asked to.
pub proof fn lemma_hook_blocks_integrity_threads(requested: u64, empty_thread: u64)
    requires
        empty_thread != INTEGRITY_THREAD_START_ADDRESS,
    ensures
        hooked_start(requested, empty_thread) != INTEGRITY_THREAD_START_ADDRESS,
        requested != INTEGRITY_THREAD_START_ADDRESS ==> hooked_start(requested, empty_thread)
            == requested,
{
}

/// A thread of the system, as the thread enumeration lists it.
#[derive(Clone, Copy, PartialEq, Eq, Structural, Debug)]
pub struct ThreadEntry {
    pub tid: u32,
    pub owner_pid: u32,
}

/// The ids of the threads that belong to process `pid`, in the listed order.
pub open spec fn own_threads(threads: Seq<ThreadEntry>, pid: u32) -> Seq<u32>
    decreases threads.len(),
{
    if threads.len() == 0 {
        Seq::empty()
    } else {
        let rest = own_threads(threads.drop_last(), pid);
        if threads.last().owner_pid == pid {
            rest.push(threads.last().tid)
        } else {
            rest
        }
    }
}

/// A thread id is among the process's own threads exactly when some listed
/// thread with that id belongs to the process.
pub proof fn lemma_own_threads_members(threads: Seq<ThreadEntry>, pid: u32, tid: u32)
    ensures
        own_threads(threads, pid).contains(tid) <==> exists|i: int|
            0 <= i < threads.len() && #[trigger] threads[i].tid == tid && threads[i].owner_pid
                == pid,
    decreases threads.len(),
{
    if threads.len() > 0 {
        let init = threads.drop_last();
        lemma_own_threads_members(init, pid, tid);
        let rest = own_threads(init, pid);
        if own_threads(threads, pid).contains(tid) {
            let j = choose|j: int| 0 <= j < own_threads(threads, pid).len() && own_threads(threads, pid)[j] == tid;
            if threads.last().owner_pid == pid && j == rest.len() {
                let i = threads.len() - 1;
                assert(threads[i].tid == tid);
            } else {
                assert(rest[j] == tid);
                assert(rest.contains(tid));
                let i = choose|i: int| 0 <= i < init.len() && #[trigger] init[i].tid == tid && init[i].owner_pid == pid;
                assert(threads[i] == init[i]);
            }
        }
        if exists|i: int| 0 <= i < threads.len() && #[trigger] threads[i].tid == tid && threads[i].owner_pid == pid {
            let i = choose|i: int| 0 <= i < threads.len() && #[trigger] threads[i].tid == tid && threads[i].owner_pid == pid;
            if i == threads.len() - 1 {
                assert(own_threads(threads, pid).last() == tid);
                assert(own_threads(threads, pid)[own_threads(threads, pid).len() - 1] == tid);
            } else {
                assert(init[i] == threads[i]);
                assert(rest.contains(tid));
                let j = choose|j: int| 0 <= j < rest.len() && rest[j] == tid;
                assert(own_threads(threads, pid)[j] == tid);
            }
        }
    }
}

/// The decimal digit `d` as a character.
pub open spec fn digit_char(d: nat) -> char {
    seq!['0', '1', '2', '3', '4', '5', '6', '7', '8', '9'][d as int]
}

/// The decimal notation of `n`, without leading zeros.
pub open spec fn decimal(n: nat) -> Seq<char>
    decreases n,
{
    if n < 10 {
        seq![digit_char(n)]
    } else {
        decimal(n / 10) + seq![digit_char(n % 10)]
    }
}

/// The text of a decimal digit.
fn digit_text(d: u32) -> (text: &'static str)
    requires
        d < 10,
    ensures
        text@ == seq![digit_char(d as nat)],
{
    proof {
        reveal_strlit("0");
        reveal_strlit("1");
        reveal_strlit("2");
        reveal_strlit("3");
        reveal_strlit("4");
        reveal_strlit("5");
        reveal_strlit("6");
        reveal_strlit("7");
        reveal_strlit("8");
        reveal_strlit("9");
    }
    match d {
        0 => "0",
        1 => "1",
        2 => "2",
        3 => "3",
        4 => "4",
        5 => "5",
        6 => "6",
        7 => "7",
        8 => "8",
        _ => "9",
    }
}

/// The decimal notation of `n`.
fn decimal_text(n: u32) -> (text: String)
    ensures
        text@ == decimal(n as nat),
    decreases n,
{
    if n < 10 {
        String::from_str(digit_text(n))
    } else {
        let mut text = decimal_text(n / 10);
        text.append(digit_text(n % 10));
        text
    }
}

/// The error that a failed thread check ends the scan with:
/// `Error checking thread <tid>: <cause>`.
pub open spec fn thread_check_error(tid: u32, cause: Seq<char>) -> Seq<char> {
    "Error checking thread "@ + decimal(tid as nat) + ": "@ + cause
}

/// Builds the error that a failed check of thread `tid` ends the scan with.
fn thread_check_error_text(tid: u32, cause: &String) -> (text: String)
    ensures
        text@ == thread_check_error(tid, cause@),
{
    let mut text = String::from_str("Error checking thread ");
    let number = decimal_text(tid);
    text.append(number.as_str());
    text.append(": ");
    text.append(cause.as_str());
    text
}

/// A scan as a mathematical value: the threads to check, how many have been
/// checked, whether the thread being checked is to be terminated, which
/// threads were terminated, and the failure that stopped the scan, if one did.
pub struct ScanView {
    pub candidates: Seq<u32>,
    pub checked: nat,
    pub terminating: bool,
    pub terminated: Seq<u32>,
    pub failure: Option<(u32, Seq<char>)>,
}

/// The thread whose start address the scan asks for next: the first one not
/// yet checked, unless a check failed or a termination is pending.
pub open spec fn scan_next(v: ScanView) -> Option<u32> {
    if v.failure is None && !v.terminating && v.checked < v.candidates.len() {
        Some(v.candidates[v.checked as int])
    } else {
        None
    }
}

/// The thread that the scan has found to be an integrity-check thread and asks
/// to be terminated, if there is one.
pub open spec fn scan_pending_termination(v: ScanView) -> Option<u32> {
    if v.failure is None && v.terminating && v.checked < v.candidates.len() {
        Some(v.candidates[v.checked as int])
    } else {
        None
    }
}

/// A scan after the start address of its next thread was queried: a failed
/// query ends the scan with that thread and its cause; a thread that starts at
/// the integrity-check entry point is to be terminated; any other thread is
/// left alone and the scan moves on. A scan that asked for no query ignores it.
pub open spec fn scan_query(v: ScanView, query: Result<u64, Seq<char>>) -> ScanView {
    match scan_next(v) {
        None => v,
        Some(tid) => match query {
            Err(e) => ScanView { failure: Some((tid, e)), ..v },
            Ok(start) => if start == INTEGRITY_THREAD_START_ADDRESS {
                ScanView { terminating: true, ..v }
            } else {
                ScanView { checked: v.checked + 1, ..v }
            },
        },
    }
}

/// A scan after the pending termination was carried out: a terminated thread
/// is added to the list and the scan moves on; a failed termination ends the
/// scan with that thread and its cause. A scan with no pending termination
/// ignores the result.
pub open spec fn scan_termination(v: ScanView, result: Result<(), Seq<char>>) -> ScanView {
    match scan_pending_termination(v) {
        None => v,
        Some(tid) => match result {
            Ok(_) => ScanView {
                checked: v.checked + 1,
                terminating: false,
                terminated: v.terminated.push(tid),
                ..v
            },
            Err(e) => ScanView { failure: Some((tid, e)), ..v },
        },
    }
}

/// How a scan ended: `None` while it still checks threads, then the threads it
/// terminated, or the first failed check: its thread and cause.
pub open spec fn scan_outcome(v: ScanView) -> Option<Result<Seq<u32>, (u32, Seq<char>)>> {
    match v.failure {
        Some(f) => Some(Err(f)),
        None => if v.checked >= v.candidates.len() {
            Some(Ok(v.terminated))
        } else {
            None
        },
    }
}

/// What the scan reports once it ended: success, or the error text of the first
/// failed check.
pub open spec fn scan_report(v: ScanView) -> Option<Result<(), Seq<char>>> {
    match scan_outcome(v) {
        None => None,
        Some(Ok(_)) => Some(Ok(())),
        Some(Err((tid, cause))) => Some(Err(thread_check_error(tid, cause))),
    }
}

/// A scan reports nothing exactly while it still has threads to check and no
/// check has failed; it reports success only once every thread was checked,
/// and a failure as the text naming the failed thread and the cause.
pub proof fn lemma_scan_report_waits_for_every_thread(v: ScanView)
    ensures
        scan_report(v) is None <==> (v.failure is None && v.checked < v.candidates.len()),
        scan_report(v) == Some(Ok::<(), Seq<char>>(())) ==> v.failure is None && v.checked
            >= v.candidates.len(),
        v.failure matches Some(f) ==> scan_report(v) == Some(
            Err::<(), Seq<char>>("Error checking thread "@ + decimal(f.0 as nat) + ": "@ + f.1),
        ),
{
}

/// The scan of process `pid` before any thread is checked.
pub open spec fn scan_start(threads: Seq<ThreadEntry>, pid: u32) -> ScanView {
    ScanView {
        candidates: own_threads(threads, pid),
        checked: 0,
        terminating: false,
        terminated: Seq::empty(),
        failure: None,
    }
}

/// One thing that can happen to a scan.
pub enum ScanEvent {
    Query(Result<u64, Seq<char>>),
    Termination(Result<(), Seq<char>>),
}

/// A scan after one event.
pub open spec fn scan_step(v: ScanView, event: ScanEvent) -> ScanView {
    match event {
        ScanEvent::Query(q) => scan_query(v, q),
        ScanEvent::Termination(r) => scan_termination(v, r),
    }
}

/// A scan after a run of events, taken in order.
pub open spec fn scan_run(v: ScanView, events: Seq<ScanEvent>) -> ScanView
    decreases events.len(),
{
    if events.len() == 0 {
        v
    } else {
        scan_step(scan_run(v, events.drop_last()), events.last())
    }
}

/// A failed check is final: once a scan has failed, it asks for nothing more,
/// and whatever happens to it afterwards leaves it as it is.
pub proof fn lemma_scan_failure_is_final(v: ScanView, events: Seq<ScanEvent>)
    requires
        v.failure is Some,
    ensures
        scan_next(v) is None,
        scan_pending_termination(v) is None,
        scan_run(v, events) == v,
    decreases events.len(),
{
    if events.len() > 0 {
        lemma_scan_failure_is_final(v, events.drop_last());
    }
}

/// Checking one thread that starts at `start`, every query and termination
/// succeeding.
pub open spec fn scan_check(v: ScanView, start: u64) -> ScanView {
    scan_termination(scan_query(v, Ok(start)), Ok(()))
}

/// Checking threads one after another, their start addresses being `starts`.
pub open spec fn scan_checks(v: ScanView, starts: Seq<u64>) -> ScanView
    decreases starts.len(),
{
    if starts.len() == 0 {
        v
    } else {
        scan_check(scan_checks(v, starts.drop_last()), starts.last())
    }
}

/// The threads among `candidates` whose start address in `starts` is the
/// integrity-check entry point.
pub open spec fn integrity_threads_among(candidates: Seq<u32>, starts: Seq<u64>) -> Seq<u32>
    decreases starts.len(),
{
    if starts.len() == 0 || candidates.len() < starts.len() {
        Seq::empty()
    } else {
        let rest = integrity_threads_among(candidates, starts.drop_last());
        if starts.last() == INTEGRITY_THREAD_START_ADDRESS {
            rest.push(candidates[starts.len() - 1])
        } else {
            rest
        }
    }
}

/// A thread is among those picked out exactly when it is one of the candidates
/// and its start address is the integrity-check entry point.
pub proof fn lemma_integrity_threads_among_members(
    candidates: Seq<u32>,
    starts: Seq<u64>,
    tid: u32,
)
    requires
        starts.len() <= candidates.len(),
    ensures
        integrity_threads_among(candidates, starts).contains(tid) <==> exists|k: int|
            0 <= k < starts.len() && #[trigger] candidates[k] == tid && starts[k]
                == INTEGRITY_THREAD_START_ADDRESS,
    decreases starts.len(),
{
    if starts.len() > 0 {
        let init = starts.drop_last();
        lemma_integrity_threads_among_members(candidates, init, tid);
        let rest = integrity_threads_among(candidates, init);
        let all = integrity_threads_among(candidates, starts);
        let last = starts.len() - 1;
        if all.contains(tid) {
            let j = choose|j: int| 0 <= j < all.len() && all[j] == tid;
            if starts.last() == INTEGRITY_THREAD_START_ADDRESS && j == rest.len() {
                assert(candidates[last] == tid);
            } else {
                assert(rest[j] == tid);
                assert(rest.contains(tid));
                let k = choose|k: int|
                    0 <= k < init.len() && #[trigger] candidates[k] == tid && init[k]
                        == INTEGRITY_THREAD_START_ADDRESS;
                assert(starts[k] == init[k]);
            }
        }
        if exists|k: int|
            0 <= k < starts.len() && #[trigger] candidates[k] == tid && starts[k]
                == INTEGRITY_THREAD_START_ADDRESS {
            let k = choose|k: int|
                0 <= k < starts.len() && #[trigger] candidates[k] == tid && starts[k]
                    == INTEGRITY_THREAD_START_ADDRESS;
            if k == last {
                assert(all[all.len() - 1] == tid);
            } else {
                assert(init[k] == starts[k]);
                assert(rest.contains(tid));
                let j = choose|j: int| 0 <= j < rest.len() && rest[j] == tid;
                assert(all[j] == tid);
            }
        }
    }
}

/// While every query and termination succeeds, a scan has checked as many
/// threads as start addresses were found and terminated exactly those that
/// start at the integrity-check entry point.
pub proof fn lemma_scan_checks_so_far(threads: Seq<ThreadEntry>, pid: u32, starts: Seq<u64>)
    requires
        starts.len() <= own_threads(threads, pid).len(),
    ensures
        scan_checks(scan_start(threads, pid), starts) == (ScanView {
            candidates: own_threads(threads, pid),
            checked: starts.len(),
            terminating: false,
            terminated: integrity_threads_among(own_threads(threads, pid), starts),
            failure: None,
        }),
    decreases starts.len(),
{
    if starts.len() > 0 {
        lemma_scan_checks_so_far(threads, pid, starts.drop_last());
    }
}

/// A scan in which every query and termination succeeds asks for the start
/// address of every thread of the process, one at a time in the listed order,
/// and terminates a thread exactly when it starts at the integrity-check entry
/// point: it ends with the list of those threads.
pub proof fn lemma_scan_terminates_exactly_integrity_threads(
    threads: Seq<ThreadEntry>,
    pid: u32,
    starts: Seq<u64>,
)
    requires
        starts.len() == own_threads(threads, pid).len(),
    ensures
        forall|k: int|
            0 <= k < starts.len() ==> scan_next(
                scan_checks(scan_start(threads, pid), #[trigger] starts.take(k)),
            ) == Some(own_threads(threads, pid)[k]),
        forall|k: int|
            0 <= k < starts.len() ==> (scan_pending_termination(
                scan_query(scan_checks(scan_start(threads, pid), #[trigger] starts.take(k)), Ok(starts[k])),
            ) is Some <==> starts[k] == INTEGRITY_THREAD_START_ADDRESS),
        scan_outcome(scan_checks(scan_start(threads, pid), starts)) == Some(
            Ok::<Seq<u32>, (u32, Seq<char>)>(
                integrity_threads_among(own_threads(threads, pid), starts),
            ),
        ),
        forall|tid: u32|
            integrity_threads_among(own_threads(threads, pid), starts).contains(tid) <==> exists|
                k: int,
            |
                0 <= k < starts.len() && #[trigger] own_threads(threads, pid)[k] == tid
                    && starts[k] == INTEGRITY_THREAD_START_ADDRESS,
{
    assert forall|k: int| 0 <= k < starts.len() implies scan_next(
        scan_checks(scan_start(threads, pid), #[trigger] starts.take(k)),
    ) == Some(own_threads(threads, pid)[k]) && (scan_pending_termination(
        scan_query(scan_checks(scan_start(threads, pid), starts.take(k)), Ok(starts[k])),
    ) is Some <==> starts[k] == INTEGRITY_THREAD_START_ADDRESS) by {
        lemma_scan_checks_so_far(threads, pid, starts.take(k));
    }
    lemma_scan_checks_so_far(threads, pid, starts);
    assert forall|tid: u32|
        integrity_threads_among(own_threads(threads, pid), starts).contains(tid) <==> exists|
            k: int,
        |
            0 <= k < starts.len() && #[trigger] own_threads(threads, pid)[k] == tid && starts[k]
                == INTEGRITY_THREAD_START_ADDRESS by {
        lemma_integrity_threads_among_members(own_threads(threads, pid), starts, tid);
    }
}

/// The actions that keep the integrity checks from running: hook thread
/// creation, then terminate the integrity-check threads already running.
pub open spec fn integrity_bypass_actions() -> Seq<ActionView> {
    seq![ActionView::HookThreadCreation, ActionView::TerminateIntegrityThreads]
}

/// The actions that undo the bypass: remove the thread-creation hook.
pub open spec fn integrity_cleanup_actions() -> Seq<ActionView> {
    seq![ActionView::UnhookThreadCreation]
}

/// Disables the integrity checks: the plan that hooks thread creation and then
/// terminates the running integrity-check threads, stopping at the first failure.
pub fn disable_integrity_checks() -> (plan: Plan)
    ensures
        plan@ == plan_start(integrity_bypass_actions()),
{
    let actions = vec![Action::HookThreadCreation, Action::TerminateIntegrityThreads];
    assert(action_views(actions@) =~= integrity_bypass_actions());
    Plan::new(actions)
}

/// Cleans up after the integrity-check bypass: the plan that removes the
/// thread-creation hook.
pub fn cleanup_integrity_checks() -> (plan: Plan)
    ensures
        plan@ == plan_start(integrity_cleanup_actions()),
{
    let actions = vec![Action::UnhookThreadCreation];
    assert(action_views(actions@) =~= integrity_cleanup_actions());
    Plan::new(actions)
}

/// After the bypass thread creation is hooked, no integrity-check thread of
/// the process is running any more, and the game's bytes and code hooks are
/// as they were. The cleanup then removes the thread-creation hook: the game
/// state is the one from before, without its integrity-check threads, when
/// thread creation was not hooked then.
pub proof fn lemma_integrity_cleanup_undoes_bypass(s: GameState)
    ensures
        apply_actions(s, integrity_bypass_actions()).thread_creation_hooked,
        apply_actions(s, integrity_bypass_actions()).integrity_threads == Set::<u32>::empty(),
        apply_actions(s, integrity_bypass_actions()).memory == s.memory,
        apply_actions(s, integrity_bypass_actions()).hooks == s.hooks,
        !s.thread_creation_hooked ==> apply_actions(
            apply_actions(s, integrity_bypass_actions()),
            integrity_cleanup_actions(),
        ) == (GameState { integrity_threads: Set::empty(), ..s }),
{
    let hook = seq![ActionView::HookThreadCreation];
    let kill = seq![ActionView::TerminateIntegrityThreads];
    assert(integrity_bypass_actions() =~= hook + kill);
    lemma_apply_actions_concat(s, hook, kill);
    lemma_apply_single_action(s, ActionView::HookThreadCreation);
    let hooked = apply_actions(s, hook);
    lemma_apply_single_action(hooked, ActionView::TerminateIntegrityThreads);
    let bypassed = apply_actions(s, integrity_bypass_actions());
    lemma_apply_single_action(bypassed, ActionView::UnhookThreadCreation);
    if !s.thread_creation_hooked {
        assert(apply_actions(bypassed, integrity_cleanup_actions()) =~= (GameState {
            integrity_threads: Set::empty(),
            ..s
        }));
    }
}

/// The scan carries out the termination of the integrity-check threads: when
/// the process's running integrity-check threads are the ones of its own
/// threads that started at the entry point, a scan in which every query and
/// termination succeeds terminates exactly those threads, which is what
/// terminating the integrity-check threads does to the game state.
pub proof fn lemma_scan_terminates_running_integrity_threads(
    threads: Seq<ThreadEntry>,
    pid: u32,
    starts: Seq<u64>,
    s: GameState,
)
    requires
        starts.len() == own_threads(threads, pid).len(),
        forall|tid: u32|
            s.integrity_threads.contains(tid) <==> exists|k: int|
                0 <= k < starts.len() && #[trigger] own_threads(threads, pid)[k] == tid
                    && starts[k] == INTEGRITY_THREAD_START_ADDRESS,
    ensures
        scan_outcome(scan_checks(scan_start(threads, pid), starts)) == Some(
            Ok::<Seq<u32>, (u32, Seq<char>)>(
                integrity_threads_among(own_threads(threads, pid), starts),
            ),
        ),
        integrity_threads_among(own_threads(threads, pid), starts).to_set() == s.integrity_threads,
        apply_action(s, ActionView::TerminateIntegrityThreads).integrity_threads
            == s.integrity_threads.difference(
            integrity_threads_among(own_threads(threads, pid), starts).to_set(),
        ),
{
    lemma_scan_terminates_exactly_integrity_threads(threads, pid, starts);
    let killed = integrity_threads_among(own_threads(threads, pid), starts);
    assert(killed.to_set() =~= s.integrity_threads);
    assert(s.integrity_threads.difference(killed.to_set()) =~= Set::<u32>::empty());
}

/// The thread whose check failed, and why.
struct ThreadCheckFailure {
    tid: u32,
    cause: String,
}

/// Terminates the integrity-check threads of a process, one thread at a time.
/// For the thread that `next_thread` names, the caller queries the thread's
/// start address and hands the result to `record_start_address`; when that
/// says the thread is an integrity-check thread, the caller terminates it and
/// hands the result to `record_termination`. Only the process's own threads are
/// checked, in the listed order, and the first failure ends the scan.
pub struct IntegrityScan {
    candidates: Vec<u32>,
    checked: usize,
    terminating: bool,
    terminated: Vec<u32>,
    failure: Option<ThreadCheckFailure>,
}

/// A query result's view.
pub open spec fn query_view(query: Result<u64, String>) -> Result<u64, Seq<char>> {
    match query {
        Ok(start) => Ok(start),
        Err(e) => Err(e@),
    }
}

/// A termination result's view.
pub open spec fn termination_view(result: Result<(), String>) -> Result<(), Seq<char>> {
    match result {
        Ok(_) => Ok(()),
        Err(e) => Err(e@),
    }
}

impl View for IntegrityScan {
    type V = ScanView;

    closed spec fn view(&self) -> ScanView {
        ScanView {
            candidates: self.candidates@,
            checked: self.checked as nat,
            terminating: self.terminating,
            terminated: self.terminated@,
            failure: match self.failure {
                Some(f) => Some((f.tid, f.cause@)),
                None => None,
            },
        }
    }
}

impl IntegrityScan {
    /// The next thread whose start address is to be queried, or `None` once
    /// the scan is over or waits for a termination.
    pub fn next_thread(&self) -> (next: Option<u32>)
        ensures
            next == scan_next(self@),
    {
        if self.failure.is_none() && !self.terminating && self.checked < self.candidates.len() {
            Some(self.candidates[self.checked])
        } else {
            None
        }
    }

    /// Records the queried start address of the thread that `next_thread`
    /// named. Returns whether that thread is an integrity-check thread, to be
    /// terminated now.
    pub fn record_start_address(&mut self, query: Result<u64, String>) -> (terminate: bool)
        ensures
            final(self)@ == scan_query(old(self)@, query_view(query)),
            terminate <==> (scan_next(old(self)@) is Some && (query matches Ok(start) && start
                == INTEGRITY_THREAD_START_ADDRESS)),
    {
        if self.failure.is_none() && !self.terminating && self.checked < self.candidates.len() {
            let tid = self.candidates[self.checked];
            match query {
                Err(cause) => {
                    self.failure = Some(ThreadCheckFailure { tid, cause });
                    false
                },
                Ok(start) => {
                    if is_integrity_thread(start) {
                        self.terminating = true;
                        true
                    } else {
                        self.checked = self.checked + 1;
                        false
                    }
                },
            }
        } else {
            false
        }
    }

    /// Records the result of terminating the thread that `record_start_address`
    /// asked to be terminated.
    pub fn record_termination(&mut self, result: Result<(), String>)
        ensures
            final(self)@ == scan_termination(old(self)@, termination_view(result)),
    {
        if self.failure.is_none() && self.terminating && self.checked < self.candidates.len() {
            let tid = self.candidates[self.checked];
            match result {
                Ok(()) => {
                    self.terminated.push(tid);
                    self.terminating = false;
                    self.checked = self.checked + 1;
                },
                Err(cause) => {
                    self.failure = Some(ThreadCheckFailure { tid, cause });
                },
            }
        }
    }

    /// The ids of the threads terminated so far, in the order they were terminated.
    pub fn terminated(&self) -> (tids: &Vec<u32>)
        ensures
            tids@ == self@.terminated,
    {
        &self.terminated
    }

    /// What the scan reports, or `None` while it still checks threads: success,
    /// or `Error checking thread <tid>: <cause>` for the first failed check.
    pub fn report(&self) -> (report: Option<Result<(), String>>)
        ensures
            match report {
                Some(Ok(_)) => scan_report(self@) == Some(Ok::<(), Seq<char>>(())),
                Some(Err(text)) => scan_report(self@) == Some(Err::<(), Seq<char>>(text@)),
                None => scan_report(self@) is None,
            },
            report is None <==> (self@.failure is None && self@.checked
                < self@.candidates.len()),
            report matches Some(Ok(_)) ==> self@.failure is None && self@.checked
                >= self@.candidates.len(),
            report matches Some(Err(text)) ==> (self@.failure matches Some(f) && text@
                == "Error checking thread "@ + decimal(f.0 as nat) + ": "@ + f.1),
    {
        match &self.failure {
            Some(f) => Some(Err(thread_check_error_text(f.tid, &f.cause))),
            None => if self.checked >= self.candidates.len() {
                Some(Ok(()))
            } else {
                None
            },
        }
    }
}

/// Starts terminating the integrity-check threads of process `process_id`: the
/// scan over those of `threads` that belong to the process.
pub fn terminate_integrity_checks(threads: &Vec<ThreadEntry>, process_id: u32) -> (scan:
    IntegrityScan)
    ensures
        scan@ == scan_start(threads@, process_id),
{
    let mut candidates: Vec<u32> = Vec::new();
    let mut i: usize = 0;
    while i < threads.len()
        invariant
            i <= threads.len(),
            candidates@ == own_threads(threads@.take(i as int), process_id),
        decreases threads.len() - i,
    {
        let thread = threads[i];
        assert(threads@.take(i + 1).drop_last() =~= threads@.take(i as int));
        assert(threads@.take(i + 1).last() == thread);
        if thread.owner_pid == process_id {
            candidates.push(thread.tid);
        }
        i = i + 1;
    }
    assert(threads@.take(threads.len() as int) =~= threads@);
    let scan = IntegrityScan {
        candidates,
        checked: 0,
        terminating: false,
        terminated: Vec::new(),
        failure: None,
    };
    assert(scan@.terminated =~= Seq::<u32>::empty());
    scan
}

} // verus!
