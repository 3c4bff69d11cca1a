//! What the plugin does to the game, as data: the actions that a patch or a
//! bypass consists of, their effect on a model of the game process, and the
//! plan that runs a list of them in order and stops at the first failure.
use vstd::prelude::*;

verus! {

/// The plugin's replacement functions that a code hook can divert to.
#[derive(Clone, Copy, PartialEq, Eq, Structural, Debug)]
pub enum Detour {
    /// The replacement for the game's axis-movement function, which rescales
    /// mouse movement by the frame time.
    AxisMovement,
}

/// One change that the plugin makes to the game process.
#[derive(Clone, Debug, PartialEq, Eq)]
pub enum Action {
    /// Overwrite the game's code or data at `address` with `bytes`.
    WriteBytes { address: u64, bytes: Vec<u8> },
    /// Divert the game function at `target` to the plugin's `detour`, by a
    /// jump written over the function's first instructions.
    HookCode { target: u64, detour: Detour },
    /// Remove the hook at `target`, writing back the instructions it replaced.
    UnhookCode { target: u64 },
    /// Hook thread creation so that integrity-check threads start as empty threads.
    HookThreadCreation,
    /// Remove the thread-creation hook.
    UnhookThreadCreation,
    /// Terminate the game's running integrity-check threads.
    TerminateIntegrityThreads,
}

/// An action as a mathematical value.
pub enum ActionView {
    WriteBytes { address: u64, bytes: Seq<u8> },
    HookCode { target: u64, detour: Detour },
    UnhookCode { target: u64 },
    HookThreadCreation,
    UnhookThreadCreation,
    TerminateIntegrityThreads,
}

impl View for Action {
    type V = ActionView;

    open spec fn view(&self) -> ActionView {
        match self {
            Action::WriteBytes { address, bytes } => ActionView::WriteBytes {
                address: *address,
                bytes: bytes@,
            },
            Action::HookCode { target, detour } => ActionView::HookCode {
                target: *target,
                detour: *detour,
            },
            Action::UnhookCode { target } => ActionView::UnhookCode { target: *target },
            Action::HookThreadCreation => ActionView::HookThreadCreation,
            Action::UnhookThreadCreation => ActionView::UnhookThreadCreation,
            Action::TerminateIntegrityThreads => ActionView::TerminateIntegrityThreads,
        }
    }
}

/// The views of a list of actions.
pub open spec fn action_views(actions: Seq<Action>) -> Seq<ActionView> {
    actions.map_values(|a: Action| a@)
}

/// The part of the game process that the plugin's actions change, as far as
/// the plugin keeps track of it. `memory` is the game's bytes apart from the
/// code that a hook overwrites with its jump: a code hook and its removal are
/// tracked in `hooks`, and the hook in thread creation in
/// `thread_creation_hooked`, in place of the bytes they overwrite.
/// `integrity_threads` holds the ids of the process's running integrity-check
/// threads, the threads that started at the integrity-check entry point.
/// The model describes the game only where the bytes that the plugin writes
/// lie outside hooked code.
#[verifier::ext_equal]
pub struct GameState {
    pub memory: spec_fn(int) -> u8,
    pub hooks: Map<u64, Detour>,
    pub thread_creation_hooked: bool,
    pub integrity_threads: Set<u32>,
}

/// `memory` with `bytes` written from `address` on.
pub open spec fn write_bytes(memory: spec_fn(int) -> u8, address: int, bytes: Seq<u8>) -> spec_fn(
    int,
) -> u8 {
    |k: int|
        if address <= k < address + bytes.len() {
            bytes[k - address]
        } else {
            memory(k)
        }
}

/// Whether `memory` holds `bytes` from `address` on.
pub open spec fn holds_bytes(memory: spec_fn(int) -> u8, address: int, bytes: Seq<u8>) -> bool {
    forall|i: int| 0 <= i < bytes.len() ==> #[trigger] memory(address + i) == bytes[i]
}

/// The game state after one action.
pub open spec fn apply_action(s: GameState, a: ActionView) -> GameState {
    match a {
        ActionView::WriteBytes { address, bytes } => GameState {
            memory: write_bytes(s.memory, address as int, bytes),
            hooks: s.hooks,
            thread_creation_hooked: s.thread_creation_hooked,
            integrity_threads: s.integrity_threads,
        },
        ActionView::HookCode { target, detour } => GameState {
            memory: s.memory,
            hooks: s.hooks.insert(target, detour),
            thread_creation_hooked: s.thread_creation_hooked,
            integrity_threads: s.integrity_threads,
        },
        ActionView::UnhookCode { target } => GameState {
            memory: s.memory,
            hooks: s.hooks.remove(target),
            thread_creation_hooked: s.thread_creation_hooked,
            integrity_threads: s.integrity_threads,
        },
        ActionView::HookThreadCreation => GameState {
            memory: s.memory,
            hooks: s.hooks,
            thread_creation_hooked: true,
            integrity_threads: s.integrity_threads,
        },
        ActionView::UnhookThreadCreation => GameState {
            memory: s.memory,
            hooks: s.hooks,
            thread_creation_hooked: false,
            integrity_threads: s.integrity_threads,
        },
        ActionView::TerminateIntegrityThreads => GameState {
            memory: s.memory,
            hooks: s.hooks,
            thread_creation_hooked: s.thread_creation_hooked,
            integrity_threads: Set::empty(),
        },
    }
}

/// The game state after a list of actions, taken in order.
pub open spec fn apply_actions(s: GameState, actions: Seq<ActionView>) -> GameState
    decreases actions.len(),
{
    if actions.len() == 0 {
        s
    } else {
        apply_action(apply_actions(s, actions.drop_last()), actions.last())
    }
}

/// Taking two lists of actions one after the other is taking their concatenation.
pub proof fn lemma_apply_actions_concat(s: GameState, a: Seq<ActionView>, b: Seq<ActionView>)
    ensures
        apply_actions(s, a + b) == apply_actions(apply_actions(s, a), b),
    decreases b.len(),
{
    if b.len() == 0 {
        assert(a + b =~= a);
    } else {
        assert((a + b).drop_last() =~= a + b.drop_last());
        lemma_apply_actions_concat(s, a, b.drop_last());
    }
}

/// A single action, as a list.
pub proof fn lemma_apply_single_action(s: GameState, a: ActionView)
    ensures
        apply_actions(s, seq![a]) == apply_action(s, a),
{
    assert(seq![a].drop_last() =~= Seq::<ActionView>::empty());
    assert(apply_actions(s, Seq::<ActionView>::empty()) == s);
    assert(seq![a].last() == a);
}

/// A plan as a mathematical value: its actions, how many of them have been
/// carried out successfully, and the error that stopped it, if one did.
pub struct PlanView {
    pub actions: Seq<ActionView>,
    pub completed: nat,
    pub failure: Option<Seq<char>>,
}

/// The action that a plan asks for next: the first one not yet carried out,
/// unless an earlier one failed.
pub open spec fn plan_next(p: PlanView) -> Option<ActionView> {
    if p.failure is None && p.completed < p.actions.len() {
        Some(p.actions[p.completed as int])
    } else {
        None
    }
}

/// A plan after the result of its next action is recorded. A plan that asks
/// for nothing more ignores further results.
pub open spec fn plan_record(p: PlanView, result: Result<(), Seq<char>>) -> PlanView {
    if plan_next(p) is None {
        p
    } else {
        match result {
            Ok(_) => PlanView { actions: p.actions, completed: p.completed + 1, failure: p.failure },
            Err(e) => PlanView { actions: p.actions, completed: p.completed, failure: Some(e) },
        }
    }
}

/// How a plan ended: `None` while it still asks for an action, then `Ok` when
/// every action succeeded or the first error.
pub open spec fn plan_outcome(p: PlanView) -> Option<Result<(), Seq<char>>> {
    match p.failure {
        Some(e) => Some(Err(e)),
        None => if p.completed >= p.actions.len() {
            Some(Ok(()))
        } else {
            None
        },
    }
}

/// A fresh plan for the given actions.
pub open spec fn plan_start(actions: Seq<ActionView>) -> PlanView {
    PlanView { actions, completed: 0, failure: None }
}

/// A plan after a run of results is recorded one by one.
pub open spec fn plan_run(p: PlanView, results: Seq<Result<(), Seq<char>>>) -> PlanView
    decreases results.len(),
{
    if results.len() == 0 {
        p
    } else {
        plan_record(plan_run(p, results.drop_last()), results.last())
    }
}

/// A result's view.
pub open spec fn result_view(r: Result<(), String>) -> Result<(), Seq<char>> {
    match r {
        Ok(_) => Ok(()),
        Err(e) => Err(e@),
    }
}

/// A plan asks for an action exactly as long as it has no outcome.
pub proof fn lemma_plan_asks_until_outcome(p: PlanView)
    ensures
        plan_next(p) is None <==> plan_outcome(p) is Some,
{
}

/// Recording results one run after another is recording the concatenated run.
pub proof fn lemma_plan_run_concat(
    p: PlanView,
    a: Seq<Result<(), Seq<char>>>,
    b: Seq<Result<(), Seq<char>>>,
)
    ensures
        plan_run(p, a + b) == plan_run(plan_run(p, a), b),
    decreases b.len(),
{
    if b.len() == 0 {
        assert(a + b =~= a);
    } else {
        assert((a + b).drop_last() =~= a + b.drop_last());
        lemma_plan_run_concat(p, a, b.drop_last());
    }
}

/// A plan that asks for nothing more stays as it is, whatever is recorded.
pub proof fn lemma_plan_run_after_end(p: PlanView, results: Seq<Result<(), Seq<char>>>)
    requires
        plan_next(p) is None,
    ensures
        plan_run(p, results) == p,
    decreases results.len(),
{
    if results.len() > 0 {
        lemma_plan_run_after_end(p, results.drop_last());
    }
}

/// While every result is a success, a fresh plan has carried out as many
/// actions as results were recorded.
pub proof fn lemma_plan_run_successes(actions: Seq<ActionView>, results: Seq<Result<(), Seq<char>>>)
    requires
        results.len() <= actions.len(),
        forall|i: int| 0 <= i < results.len() ==> #[trigger] results[i] is Ok,
    ensures
        plan_run(plan_start(actions), results) == (PlanView {
            actions,
            completed: results.len(),
            failure: None,
        }),
    decreases results.len(),
{
    if results.len() > 0 {
        lemma_plan_run_successes(actions, results.drop_last());
        assert(results.drop_last().len() == results.len() - 1);
        assert(results.last() is Ok);
    }
}

/// A plan asks for its actions in the listed order: while its actions succeed,
/// after `k` successes it asks for the action at index `k`, so each action is
/// carried out once, in order, and the first failure ends the plan.
pub proof fn lemma_plan_asks_in_order(actions: Seq<ActionView>, results: Seq<Result<(), Seq<char>>>)
    requires
        results.len() <= actions.len(),
        forall|i: int| 0 <= i < results.len() ==> #[trigger] results[i] is Ok,
    ensures
        forall|k: int|
            0 <= k < actions.len() && k <= results.len() ==> plan_next(
                plan_run(plan_start(actions), #[trigger] results.take(k)),
            ) == Some(actions[k]),
        forall|k: int|
            0 <= k <= results.len() ==> (#[trigger] plan_run(
                plan_start(actions),
                results.take(k),
            )).completed == k,
{
    assert forall|k: int| 0 <= k <= results.len() implies plan_run(
        plan_start(actions),
        #[trigger] results.take(k),
    ) == (PlanView { actions, completed: k as nat, failure: None }) by {
        let prefix = results.take(k);
        assert forall|i: int| 0 <= i < prefix.len() implies #[trigger] prefix[i] is Ok by {
            assert(prefix[i] == results[i]);
        }
        lemma_plan_run_successes(actions, prefix);
    }
}

/// The next action of a plan that has no failure and actions left is the
/// first action not yet carried out.
pub proof fn lemma_plan_next_is_first_open_action(p: PlanView)
    ensures
        p.failure is None && p.completed < p.actions.len() ==> plan_next(p) == Some(
            p.actions[p.completed as int],
        ),
        p.failure is Some || p.completed >= p.actions.len() ==> plan_next(p) is None,
{
}

/// A plan whose actions all succeed ends in `Ok` once every result is recorded.
pub proof fn lemma_plan_all_succeed(actions: Seq<ActionView>, results: Seq<Result<(), Seq<char>>>)
    requires
        results.len() == actions.len(),
        forall|i: int| 0 <= i < results.len() ==> #[trigger] results[i] is Ok,
    ensures
        plan_outcome(plan_run(plan_start(actions), results)) == Some(Ok::<(), Seq<char>>(())),
        plan_run(plan_start(actions), results).completed == actions.len(),
{
    lemma_plan_run_successes(actions, results);
}

/// A plan stops at the first failed action: when the action at index `k` fails
/// after the ones before it succeeded, the plan has carried out exactly `k`
/// actions, asks for no more, and its outcome is that error, whatever results
/// are handed to it afterwards.
pub proof fn lemma_plan_stops_at_first_error(
    actions: Seq<ActionView>,
    results: Seq<Result<(), Seq<char>>>,
    k: int,
)
    requires
        0 <= k < actions.len(),
        k < results.len(),
        forall|i: int| 0 <= i < k ==> #[trigger] results[i] is Ok,
        results[k] is Err,
    ensures
        plan_run(plan_start(actions), results).completed == k,
        plan_next(plan_run(plan_start(actions), results)) is None,
        plan_outcome(plan_run(plan_start(actions), results)) == Some(results[k]),
{
    let before = results.take(k);
    let at = results.take(k + 1);
    let after = results.skip(k + 1);
    assert forall|i: int| 0 <= i < before.len() implies #[trigger] before[i] is Ok by {
        assert(before[i] == results[i]);
    }
    lemma_plan_run_successes(actions, before);
    assert(at.drop_last() =~= before);
    assert(at.last() == results[k]);
    let stopped = plan_run(plan_start(actions), at);
    assert(stopped.failure == Some(results[k]->Err_0));
    lemma_plan_run_after_end(stopped, after);
    assert(at + after =~= results);
    lemma_plan_run_concat(plan_start(actions), at, after);
}

/// Runs a list of actions in order, as a chain of fallible steps does: the
/// caller carries out the action that `next_action` names and hands its result
/// to `record`; the first error stops the plan and becomes its outcome.
pub struct Plan {
    actions: Vec<Action>,
    completed: usize,
    failure: Option<String>,
}

impl View for Plan {
    type V = PlanView;

    closed spec fn view(&self) -> PlanView {
        PlanView {
            actions: action_views(self.actions@),
            completed: self.completed as nat,
            failure: match self.failure {
                Some(e) => Some(e@),
                None => None,
            },
        }
    }
}

impl Plan {
    /// A plan that has carried out none of `actions` yet.
    pub fn new(actions: Vec<Action>) -> (plan: Plan)
        ensures
            plan@ == plan_start(action_views(actions@)),
    {
        let plan = Plan { actions, completed: 0, failure: None };
        assert(plan@.failure is None);
        plan
    }

    /// The action to carry out next, or `None` once the plan is over.
    pub fn next_action(&self) -> (next: Option<&Action>)
        ensures
            match next {
                Some(a) => plan_next(self@) == Some(a@),
                None => plan_next(self@) is None,
            },
            next is Some <==> (self@.failure is None && self@.completed < self@.actions.len()),
            next matches Some(a) ==> a@ == self@.actions[self@.completed as int],
    {
        if self.failure.is_none() && self.completed < self.actions.len() {
            Some(&self.actions[self.completed])
        } else {
            None
        }
    }

    /// Records the result of the action that `next_action` named.
    pub fn record(&mut self, result: Result<(), String>)
        ensures
            final(self)@ == plan_record(old(self)@, result_view(result)),
    {
        if self.failure.is_none() && self.completed < self.actions.len() {
            match result {
                Ok(()) => {
                    self.completed = self.completed + 1;
                },
                Err(e) => {
                    self.failure = Some(e);
                },
            }
        }
        assert(final(self)@.actions == old(self)@.actions);
    }

    /// How the plan ended, or `None` while it still asks for an action.
    pub fn outcome(&self) -> (outcome: Option<Result<(), String>>)
        ensures
            match outcome {
                Some(r) => plan_outcome(self@) == Some(result_view(r)),
                None => plan_outcome(self@) is None,
            },
    {
        match &self.failure {
            Some(e) => Some(Err(e.clone())),
            None => if self.completed >= self.actions.len() {
                Some(Ok(()))
            } else {
                None
            },
        }
    }
}

} // verus!
