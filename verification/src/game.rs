//! Getting the game ready to be patched: the integrity-check bypass and the
//! wait for it to take effect.
use vstd::prelude::*;
use crate::plan::{
    apply_actions, holds_bytes, lemma_apply_actions_concat, lemma_plan_run_successes, plan_outcome,
    plan_run, ActionView, GameState, Plan, plan_start,
};
use crate::patches::{all_patches_off, all_patches_on, lemma_all_patches_off_undoes_on};
use crate::patches::disable_camera_smoothing::DisableCameraSmoothing;
use crate::patches::disable_integrity_checks::{
    integrity_bypass_actions, integrity_cleanup_actions, lemma_integrity_cleanup_undoes_bypass,
};
use crate::patches::fix_mouse_sensitivity::{MouseSensitivityFix, GET_AXIS_MOVEMENT_ADDRESS};

verus! {

/// How long to wait for the integrity checks to be disabled before assuming
/// that they already are, in milliseconds.
pub const INTEGRITY_WAIT_TIMEOUT_MS: u64 = 15_000;

/// How long to sleep between two looks at whether the integrity checks are
/// disabled, in milliseconds.
pub const INTEGRITY_POLL_INTERVAL_MS: u64 = 100;

/// How long to let the game settle once the integrity checks are disabled,
/// before its memory is patched, in milliseconds.
pub const GAME_SETTLE_DELAY_MS: u64 = 3_000;

/// Disables the integrity checks: the plan that hooks thread creation and then
/// terminates the running integrity-check threads, stopping at the first failure.
pub fn disable_integrity_checks() -> (plan: Plan)
    ensures
        plan@ == plan_start(integrity_bypass_actions()),
{
    crate::patches::disable_integrity_checks::disable_integrity_checks()
}

/// Undoes the integrity-check bypass: the plan that removes the thread-creation hook.
pub fn cleanup_integrity_checks() -> (plan: Plan)
    ensures
        plan@ == plan_start(integrity_cleanup_actions()),
{
    crate::patches::disable_integrity_checks::cleanup_integrity_checks()
}

/// When the integrity-check bypass succeeds, both of its actions were carried
/// out, and after them thread creation is hooked and no integrity-check thread
/// of the process is running; the game's bytes and code hooks are unchanged.
pub proof fn lemma_disable_integrity_checks_succeeds(
    results: Seq<Result<(), Seq<char>>>,
    s: GameState,
)
    requires
        results.len() == integrity_bypass_actions().len(),
        forall|i: int| 0 <= i < results.len() ==> #[trigger] results[i] is Ok,
    ensures
        ({
            let p = plan_run(plan_start(integrity_bypass_actions()), results);
            let after = apply_actions(s, p.actions.take(p.completed as int));
            &&& plan_outcome(p) == Some(Ok::<(), Seq<char>>(()))
            &&& after.thread_creation_hooked
            &&& after.integrity_threads == Set::<u32>::empty()
            &&& after.memory == s.memory
            &&& after.hooks == s.hooks
        }),
{
    lemma_plan_run_successes(integrity_bypass_actions(), results);
    let p = plan_run(plan_start(integrity_bypass_actions()), results);
    assert(p.actions.take(p.completed as int) =~= integrity_bypass_actions());
    lemma_integrity_cleanup_undoes_bypass(s);
}

/// A whole session of the plugin, as the plans run it one after the other:
/// disable the integrity checks, turn every patch on, turn every patch off,
/// clean up after the integrity-check bypass.
pub open spec fn session_actions(
    camera: DisableCameraSmoothing,
    mouse: MouseSensitivityFix,
) -> Seq<ActionView> {
    integrity_bypass_actions() + all_patches_on(camera, mouse) + all_patches_off(camera, mouse)
        + integrity_cleanup_actions()
}

/// A whole session leaves the game as it found it but for its integrity-check
/// threads, which are gone, when thread creation was not hooked, the camera
/// patch recorded the bytes that were at its target, and the axis-movement
/// function was not hooked.
pub proof fn lemma_session_leaves_game_unchanged(
    camera: DisableCameraSmoothing,
    mouse: MouseSensitivityFix,
    s: GameState,
)
    requires
        !s.thread_creation_hooked,
        camera.original().len() == 2,
        holds_bytes(s.memory, camera.target() as int, camera.original()),
        !s.hooks.contains_key(GET_AXIS_MOVEMENT_ADDRESS),
    ensures
        apply_actions(s, session_actions(camera, mouse)) == (GameState {
            integrity_threads: Set::empty(),
            ..s
        }),
{
    let bypass = integrity_bypass_actions();
    let on = all_patches_on(camera, mouse);
    let off = all_patches_off(camera, mouse);
    let cleanup = integrity_cleanup_actions();
    lemma_integrity_cleanup_undoes_bypass(s);
    let s1 = apply_actions(s, bypass);
    lemma_all_patches_off_undoes_on(camera, mouse, s1);
    assert(apply_actions(s1, on + off) == s1) by {
        lemma_apply_actions_concat(s1, on, off);
    }
    lemma_apply_actions_concat(s, bypass + on + off, cleanup);
    lemma_apply_actions_concat(s, bypass + on, off);
    lemma_apply_actions_concat(s, bypass, on);
}

/// What waiting for the game does next.
#[derive(Clone, Copy, PartialEq, Eq, Structural, Debug)]
pub enum WaitStep {
    /// The integrity checks are disabled: let the game settle, then patch it.
    Ready,
    /// The wait timed out: assume the checks are already disabled and go on.
    TimedOut,
    /// Sleep for the poll interval and look again.
    Poll,
}

/// The next step of waiting for the game, given whether the integrity checks
/// are disabled and how long the wait has lasted.
pub fn wait_for_game_step(integrity_disabled: bool, elapsed_ms: u64) -> (step: WaitStep)
    ensures
        step == if integrity_disabled {
            WaitStep::Ready
        } else if elapsed_ms >= INTEGRITY_WAIT_TIMEOUT_MS {
            WaitStep::TimedOut
        } else {
            WaitStep::Poll
        },
        elapsed_ms >= INTEGRITY_WAIT_TIMEOUT_MS ==> step != WaitStep::Poll,
{
    if integrity_disabled {
        WaitStep::Ready
    } else if elapsed_ms >= INTEGRITY_WAIT_TIMEOUT_MS {
        WaitStep::TimedOut
    } else {
        WaitStep::Poll
    }
}

} // verus!
