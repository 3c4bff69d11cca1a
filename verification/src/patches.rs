//! The plugin's patches, and turning all of them on or off together.
use vstd::prelude::*;
use crate::plan::{
    action_views, apply_action, apply_actions, holds_bytes, lemma_apply_actions_concat,
    lemma_apply_single_action, Action, ActionView, Detour,
    GameState, Plan, plan_start,
};
use crate::patches::disable_camera_smoothing::DisableCameraSmoothing;
use crate::patches::fix_mouse_sensitivity::{MouseSensitivityFix, GET_AXIS_MOVEMENT_ADDRESS};

pub mod disable_camera_smoothing;
pub mod disable_integrity_checks;
pub mod fix_mouse_sensitivity;

verus! {

/// A patch that can be turned on and off. Turning it on or off is a list of
/// actions on the game, which a plan carries out.
pub trait Feature {
    /// The actions that turn the feature on.
    spec fn enable_actions(&self) -> Seq<ActionView>;

    /// The actions that turn the feature off.
    spec fn disable_actions(&self) -> Seq<ActionView>;

    /// What turning the feature on does.
    fn enable(&self) -> (actions: Vec<Action>)
        ensures
            action_views(actions@) == self.enable_actions(),
    ;

    /// What turning the feature off does.
    fn disable(&self) -> (actions: Vec<Action>)
        ensures
            action_views(actions@) == self.disable_actions(),
    ;
}

impl Feature for DisableCameraSmoothing {
    open spec fn enable_actions(&self) -> Seq<ActionView> {
        self.enable_view()
    }

    open spec fn disable_actions(&self) -> Seq<ActionView> {
        self.disable_view()
    }

    fn enable(&self) -> (actions: Vec<Action>)
        ensures
            action_views(actions@) == seq![
                ActionView::WriteBytes { address: self.target(), bytes: seq![0x90u8, 0x90u8] },
            ],
    {
        DisableCameraSmoothing::enable(self)
    }

    fn disable(&self) -> (actions: Vec<Action>)
        ensures
            action_views(actions@) == seq![
                ActionView::WriteBytes { address: self.target(), bytes: self.original() },
            ],
    {
        DisableCameraSmoothing::disable(self)
    }
}

impl Feature for MouseSensitivityFix {
    open spec fn enable_actions(&self) -> Seq<ActionView> {
        self.enable_view()
    }

    open spec fn disable_actions(&self) -> Seq<ActionView> {
        self.disable_view()
    }

    fn enable(&self) -> (actions: Vec<Action>)
        ensures
            action_views(actions@) == seq![
                ActionView::HookCode {
                    target: GET_AXIS_MOVEMENT_ADDRESS,
                    detour: Detour::AxisMovement,
                },
            ],
    {
        MouseSensitivityFix::enable(self)
    }

    fn disable(&self) -> (actions: Vec<Action>)
        ensures
            action_views(actions@) == seq![ActionView::UnhookCode { target: GET_AXIS_MOVEMENT_ADDRESS }],
    {
        MouseSensitivityFix::disable(self)
    }
}

/// Turning the mouse fix off through the `Feature` trait undoes turning it on:
/// from a game state in which the axis-movement function is not hooked, its
/// disable actions after its enable actions give that state back.
pub proof fn lemma_mouse_feature_disable_undoes_enable(fix: MouseSensitivityFix, s: GameState)
    requires
        !s.hooks.contains_key(GET_AXIS_MOVEMENT_ADDRESS),
    ensures
        apply_actions(apply_actions(s, fix.enable_actions()), fix.disable_actions()) == s,
        !apply_actions(apply_actions(s, fix.enable_actions()), fix.disable_actions()).hooks.contains_key(
            GET_AXIS_MOVEMENT_ADDRESS,
        ),
        apply_actions(s, fix.enable_actions()).hooks.contains_key(GET_AXIS_MOVEMENT_ADDRESS),
{
    let on = apply_actions(s, fix.enable_actions());
    lemma_apply_single_action(s, fix.enable_actions()[0]);
    lemma_apply_single_action(on, fix.disable_actions()[0]);
    let off = apply_actions(on, fix.disable_actions());
    assert(off.hooks =~= s.hooks);
    assert(off =~= s);
}

/// Turning the camera patch off through the `Feature` trait undoes turning it
/// on: when the recorded original bytes are the ones at the target, its
/// disable actions after its enable actions give the game state back.
pub proof fn lemma_camera_feature_disable_undoes_enable(patch: DisableCameraSmoothing, s: GameState)
    requires
        patch.original().len() == 2,
        holds_bytes(s.memory, patch.target() as int, patch.original()),
    ensures
        apply_actions(apply_actions(s, patch.enable_actions()), patch.disable_actions()) == s,
{
    let on = apply_actions(s, patch.enable_actions());
    lemma_apply_single_action(s, patch.enable_actions()[0]);
    lemma_apply_single_action(on, patch.disable_actions()[0]);
    let off = apply_actions(on, patch.disable_actions());
    assert(off.memory =~= s.memory) by {
        assert forall|k: int| #[trigger] (off.memory)(k) == (s.memory)(k) by {
            let t = patch.target() as int;
            if t <= k < t + 2 {
                assert((s.memory)(t + (k - t)) == patch.original()[k - t]);
            }
        }
    }
    assert(off =~= s);
}

/// The actions that turn every patch on: the camera patch, then the mouse fix.
pub open spec fn all_patches_on(
    camera: DisableCameraSmoothing,
    mouse: MouseSensitivityFix,
) -> Seq<ActionView> {
    camera.enable_view() + mouse.enable_view()
}

/// The actions that turn every patch off, in the same order.
pub open spec fn all_patches_off(
    camera: DisableCameraSmoothing,
    mouse: MouseSensitivityFix,
) -> Seq<ActionView> {
    camera.disable_view() + mouse.disable_view()
}

/// Turns every patch on: the plan that enables the camera patch and then the
/// mouse fix, stopping at the first failure.
pub fn run_all_patches(camera: &DisableCameraSmoothing, mouse: &MouseSensitivityFix) -> (plan: Plan)
    ensures
        plan@ == plan_start(all_patches_on(*camera, *mouse)),
{
    let mut actions = camera.enable();
    let mut rest = mouse.enable();
    let ghost first = actions@;
    let ghost second = rest@;
    actions.append(&mut rest);
    assert(action_views(actions@) =~= action_views(first) + action_views(second));
    Plan::new(actions)
}

/// Turns every patch off: the plan that disables the camera patch and then the
/// mouse fix, stopping at the first failure.
pub fn disable_all_patches(camera: &DisableCameraSmoothing, mouse: &MouseSensitivityFix) -> (plan:
    Plan)
    ensures
        plan@ == plan_start(all_patches_off(*camera, *mouse)),
{
    let mut actions = camera.disable();
    let mut rest = mouse.disable();
    let ghost first = actions@;
    let ghost second = rest@;
    actions.append(&mut rest);
    assert(action_views(actions@) =~= action_views(first) + action_views(second));
    Plan::new(actions)
}

/// Turning every patch off after turning every patch on gives back the game
/// state from before, when the camera patch recorded the bytes that were at its
/// target and the axis-movement function was not hooked.
pub proof fn lemma_all_patches_off_undoes_on(
    camera: DisableCameraSmoothing,
    mouse: MouseSensitivityFix,
    s: GameState,
)
    requires
        camera.original().len() == 2,
        holds_bytes(s.memory, camera.target() as int, camera.original()),
        !s.hooks.contains_key(GET_AXIS_MOVEMENT_ADDRESS),
    ensures
        apply_actions(apply_actions(s, all_patches_on(camera, mouse)), all_patches_off(camera, mouse))
            == s,
{
    let on = all_patches_on(camera, mouse);
    let off = all_patches_off(camera, mouse);
    let s1 = apply_action(s, camera.enable_view()[0]);
    let s2 = apply_action(s1, mouse.enable_view()[0]);
    let s3 = apply_action(s2, camera.disable_view()[0]);
    let s4 = apply_action(s3, mouse.disable_view()[0]);
    lemma_apply_actions_concat(s, camera.enable_view(), mouse.enable_view());
    lemma_apply_single_action(s, camera.enable_view()[0]);
    lemma_apply_single_action(s1, mouse.enable_view()[0]);
    assert(apply_actions(s, on) == s2);
    lemma_apply_actions_concat(s2, camera.disable_view(), mouse.disable_view());
    lemma_apply_single_action(s2, camera.disable_view()[0]);
    lemma_apply_single_action(s3, mouse.disable_view()[0]);
    assert(apply_actions(s2, off) == s4);
    assert(s4.memory =~= s.memory) by {
        assert forall|k: int| #[trigger] (s4.memory)(k) == (s.memory)(k) by {
            let t = camera.target() as int;
            if t <= k < t + 2 {
                assert((s.memory)(t + (k - t)) == camera.original()[k - t]);
            }
        }
    }
    assert(s4.hooks =~= s.hooks);
    assert(s4 =~= s);
}

} // verus!
