//! Turns off the game's camera smoothing by overwriting the conditional jump
//! that enters the smoothing code with two no-op instructions.
use vstd::prelude::*;
use crate::plan::{
    action_views, apply_actions, holds_bytes, lemma_apply_single_action, Action, ActionView,
    GameState,
};

verus! {

/// The module in which the patched code lives.
pub const GAME_MODULE_NAME: &'static str = "ACU.exe";

/// The byte signature of the patched code: a short conditional jump (`74 ?`)
/// followed by the instructions it guards.
pub const CAMERA_SMOOTHING_SIGNATURE: &'static str = "74 ? 41 8B 06 41 89 85";

/// The bytes written over the conditional jump: two `nop` instructions.
pub open spec fn camera_smoothing_patch() -> Seq<u8> {
    seq![0x90u8, 0x90u8]
}

/// The camera-smoothing patch site: where the jump is, and the two bytes that
/// were there before the patch.
#[derive(Clone, Copy, Debug)]
pub struct DisableCameraSmoothing {
    target_address: u64,
    original_bytes: [u8; 2],
}

impl DisableCameraSmoothing {
    /// The address of the patched jump.
    pub closed spec fn target(&self) -> u64 {
        self.target_address
    }

    /// The bytes found at the target before the patch.
    pub closed spec fn original(&self) -> Seq<u8> {
        self.original_bytes@
    }

    /// The actions that turn the patch on: write the two no-ops over the jump.
    pub open spec fn enable_view(&self) -> Seq<ActionView> {
        seq![ActionView::WriteBytes { address: self.target(), bytes: camera_smoothing_patch() }]
    }

    /// The actions that turn the patch off: write the original bytes back.
    pub open spec fn disable_view(&self) -> Seq<ActionView> {
        seq![ActionView::WriteBytes { address: self.target(), bytes: self.original() }]
    }

    /// The patch site found at `target_address`, where `original_bytes` were read.
    pub fn new(target_address: u64, original_bytes: [u8; 2]) -> (patch: Self)
        ensures
            patch.target() == target_address,
            patch.original() == original_bytes@,
            patch.original().len() == 2,
    {
        DisableCameraSmoothing { target_address, original_bytes }
    }

    /// What turning the patch on does: write the two no-ops over the jump.
    pub fn enable(&self) -> (actions: Vec<Action>)
        ensures
            action_views(actions@) == self.enable_view(),
    {
        let patch_bytes: Vec<u8> = vec![0x90u8, 0x90u8];
        assert(patch_bytes@ =~= camera_smoothing_patch());
        let actions = vec![Action::WriteBytes { address: self.target_address, bytes: patch_bytes }];
        assert(action_views(actions@) =~= self.enable_view());
        actions
    }

    /// What turning the patch off does: write the original bytes back.
    pub fn disable(&self) -> (actions: Vec<Action>)
        ensures
            action_views(actions@) == self.disable_view(),
    {
        let original: Vec<u8> = vec![self.original_bytes[0], self.original_bytes[1]];
        assert(original@ =~= self.original());
        let actions = vec![Action::WriteBytes { address: self.target_address, bytes: original }];
        assert(action_views(actions@) =~= self.disable_view());
        actions
    }
}

/// Turning the camera patch off after turning it on gives back the game state
/// from before, when the recorded original bytes are the ones at the target.
pub proof fn lemma_camera_disable_undoes_enable(patch: DisableCameraSmoothing, s: GameState)
    requires
        patch.original().len() == 2,
        holds_bytes(s.memory, patch.target() as int, patch.original()),
    ensures
        apply_actions(apply_actions(s, patch.enable_view()), patch.disable_view()) == s,
{
    let on = apply_actions(s, patch.enable_view());
    lemma_apply_single_action(s, patch.enable_view()[0]);
    lemma_apply_single_action(on, patch.disable_view()[0]);
    let off = apply_actions(on, patch.disable_view());
    assert(off.memory =~= s.memory) by {
        assert forall|k: int| #[trigger] (off.memory)(k) == (s.memory)(k) by {
            let t = patch.target() as int;
            if t <= k < t + 2 {
                assert((s.memory)(t + (k - t)) == patch.original()[k - t]);
            }
        }
    }
    assert(off =~= s);
}

/// Turning the camera patch on twice is the same as turning it on once.
pub proof fn lemma_camera_enable_idempotent(patch: DisableCameraSmoothing, s: GameState)
    ensures
        apply_actions(apply_actions(s, patch.enable_view()), patch.enable_view()) == apply_actions(
            s,
            patch.enable_view(),
        ),
{
    let on = apply_actions(s, patch.enable_view());
    lemma_apply_single_action(s, patch.enable_view()[0]);
    lemma_apply_single_action(on, patch.enable_view()[0]);
    let twice = apply_actions(on, patch.enable_view());
    assert(twice.memory =~= on.memory);
    assert(twice =~= on);
}

/// Once the camera patch is on, the target holds the two no-ops and every other
/// byte of the game is as it was.
pub proof fn lemma_camera_enable_effect(patch: DisableCameraSmoothing, s: GameState)
    ensures
        holds_bytes(
            apply_actions(s, patch.enable_view()).memory,
            patch.target() as int,
            camera_smoothing_patch(),
        ),
        forall|k: int|
            !(patch.target() <= k < patch.target() + 2) ==> #[trigger] (apply_actions(
                s,
                patch.enable_view(),
            ).memory)(k) == (s.memory)(k),
        apply_actions(s, patch.enable_view()).hooks == s.hooks,
        apply_actions(s, patch.enable_view()).thread_creation_hooked == s.thread_creation_hooked,
{
    lemma_apply_single_action(s, patch.enable_view()[0]);
}

} // verus!
