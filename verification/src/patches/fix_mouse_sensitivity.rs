//! Makes mouse sensitivity independent of the frame rate by hooking the game's
//! axis-movement function. The detour itself (rescaling the movement by the
//! reference frame time over the current frame time) is floating-point work
//! and lives with the plugin's entry code.
use vstd::prelude::*;
use crate::plan::{
    action_views, apply_actions, lemma_apply_single_action, Action, ActionView, Detour, GameState,
    Plan, plan_start,
};

verus! {

/// The address of the game's root clock pointer, read by the detour for the
/// current frame time.
pub const ROOT_CLOCK_ADDRESS: u64 = 0x1_4525_D9D0;

/// The address of the game's axis-movement function, the hooked function.
pub const GET_AXIS_MOVEMENT_ADDRESS: u64 = 0x1_41F6_A320;

/// The mouse-sensitivity fix: a hook on the axis-movement function.
#[derive(Clone, Copy, Debug)]
pub struct MouseSensitivityFix;

impl MouseSensitivityFix {
    /// The actions that turn the fix on: hook the axis-movement function.
    pub open spec fn enable_view(&self) -> Seq<ActionView> {
        seq![
            ActionView::HookCode {
                target: GET_AXIS_MOVEMENT_ADDRESS,
                detour: Detour::AxisMovement,
            },
        ]
    }

    /// The actions that turn the fix off: remove that hook.
    pub open spec fn disable_view(&self) -> Seq<ActionView> {
        seq![ActionView::UnhookCode { target: GET_AXIS_MOVEMENT_ADDRESS }]
    }

    /// What turning the fix on does: hook the axis-movement function.
    pub fn enable(&self) -> (actions: Vec<Action>)
        ensures
            action_views(actions@) == self.enable_view(),
    {
        let actions = vec![
            Action::HookCode { target: GET_AXIS_MOVEMENT_ADDRESS, detour: Detour::AxisMovement },
        ];
        assert(action_views(actions@) =~= self.enable_view());
        actions
    }

    /// What turning the fix off does: remove the hook.
    pub fn disable(&self) -> (actions: Vec<Action>)
        ensures
            action_views(actions@) == self.disable_view(),
    {
        let actions = vec![Action::UnhookCode { target: GET_AXIS_MOVEMENT_ADDRESS }];
        assert(action_views(actions@) =~= self.disable_view());
        actions
    }
}

/// Applies the mouse-sensitivity fix: the plan that hooks the axis-movement function.
pub fn fix_mouse_sensitivity() -> (plan: Plan)
    ensures
        plan@ == plan_start(MouseSensitivityFix.enable_view()),
{
    Plan::new(MouseSensitivityFix.enable())
}

/// Turning the fix off after turning it on gives back the game state from
/// before, when the axis-movement function was not hooked then.
pub proof fn lemma_mouse_disable_undoes_enable(fix: MouseSensitivityFix, s: GameState)
    requires
        !s.hooks.contains_key(GET_AXIS_MOVEMENT_ADDRESS),
    ensures
        apply_actions(apply_actions(s, fix.enable_view()), fix.disable_view()) == s,
{
    let on = apply_actions(s, fix.enable_view());
    lemma_apply_single_action(s, fix.enable_view()[0]);
    lemma_apply_single_action(on, fix.disable_view()[0]);
    let off = apply_actions(on, fix.disable_view());
    assert(off.hooks =~= s.hooks);
    assert(off =~= s);
}

/// Once the fix is on, the axis-movement function is diverted to the plugin's
/// detour, and the bytes that the model's `memory` tracks (which exclude the
/// hooked code, see `GameState`) are unchanged.
pub proof fn lemma_mouse_enable_effect(fix: MouseSensitivityFix, s: GameState)
    ensures
        apply_actions(s, fix.enable_view()).hooks == s.hooks.insert(
            GET_AXIS_MOVEMENT_ADDRESS,
            Detour::AxisMovement,
        ),
        apply_actions(s, fix.enable_view()).memory == s.memory,
{
    lemma_apply_single_action(s, fix.enable_view()[0]);
}

} // verus!
