use std::collections::{HashMap, HashSet};

use acu_patches::patches::disable_camera_smoothing::{
    DisableCameraSmoothing, CAMERA_SMOOTHING_SIGNATURE, GAME_MODULE_NAME,
};
use acu_patches::patches::fix_mouse_sensitivity::{
    fix_mouse_sensitivity, MouseSensitivityFix, GET_AXIS_MOVEMENT_ADDRESS, ROOT_CLOCK_ADDRESS,
};
use acu_patches::patches::{disable_all_patches, run_all_patches, Feature};
use acu_patches::game::{cleanup_integrity_checks, disable_integrity_checks};
use acu_patches::plan::{Action, Detour, Plan};

/// A stand-in for the game process: its bytes and its hooks.
#[derive(Clone, Debug, PartialEq, Eq, Default)]
struct FakeGame {
    memory: HashMap<u64, u8>,
    hooks: HashSet<u64>,
    thread_creation_hooked: bool,
    integrity_threads: HashSet<u32>,
    failing_hooks: bool,
}

impl FakeGame {
    fn perform(&mut self, action: &Action) -> Result<(), String> {
        match action {
            Action::WriteBytes { address, bytes } => {
                for (i, b) in bytes.iter().enumerate() {
                    self.memory.insert(address + i as u64, *b);
                }
                Ok(())
            }
            Action::HookCode { target, .. } => {
                if self.failing_hooks {
                    Err("failed to hook function".to_string())
                } else {
                    self.hooks.insert(*target);
                    Ok(())
                }
            }
            Action::UnhookCode { target } => {
                self.hooks.remove(target);
                Ok(())
            }
            Action::HookThreadCreation => {
                self.thread_creation_hooked = true;
                Ok(())
            }
            Action::UnhookThreadCreation => {
                self.thread_creation_hooked = false;
                Ok(())
            }
            Action::TerminateIntegrityThreads => {
                self.integrity_threads.clear();
                Ok(())
            }
        }
    }

    fn run(&mut self, mut plan: Plan) -> Result<(), String> {
        while let Some(action) = plan.next_action() {
            let result = self.perform(action);
            plan.record(result);
        }
        plan.outcome().expect("a plan that asks for nothing more has an outcome")
    }
}

fn game_with_jump(at: u64) -> FakeGame {
    let mut game = FakeGame::default();
    for (i, b) in [0x74u8, 0x05, 0x41, 0x8b, 0x06].iter().enumerate() {
        game.memory.insert(at + i as u64, *b);
    }
    game
}

#[test]
fn camera_patch_constants() {
    assert_eq!(GAME_MODULE_NAME, "ACU.exe");
    assert_eq!(CAMERA_SMOOTHING_SIGNATURE, "74 ? 41 8B 06 41 89 85");
}

#[test]
fn camera_patch_enable_writes_two_nops() {
    let patch = DisableCameraSmoothing::new(0x1400_1000, [0x74, 0x05]);
    assert_eq!(
        patch.enable(),
        vec![Action::WriteBytes { address: 0x1400_1000, bytes: vec![0x90, 0x90] }]
    );
}

#[test]
fn camera_patch_disable_writes_original_bytes() {
    let patch = DisableCameraSmoothing::new(0x1400_1000, [0x74, 0x05]);
    assert_eq!(
        patch.disable(),
        vec![Action::WriteBytes { address: 0x1400_1000, bytes: vec![0x74, 0x05] }]
    );
}

#[test]
fn camera_patch_feature_matches_methods() {
    let patch = DisableCameraSmoothing::new(0x10, [1, 2]);
    assert_eq!(Feature::enable(&patch), patch.enable());
    assert_eq!(Feature::disable(&patch), patch.disable());
}

#[test]
fn camera_patch_disable_undoes_enable() {
    let before = game_with_jump(0x2000);
    let mut game = before.clone();
    let patch = DisableCameraSmoothing::new(0x2000, [0x74, 0x05]);
    game.run(Plan::new(patch.enable())).unwrap();
    assert_eq!(game.memory[&0x2000], 0x90);
    assert_eq!(game.memory[&0x2001], 0x90);
    assert_eq!(game.memory[&0x2002], 0x41);
    game.run(Plan::new(patch.disable())).unwrap();
    assert_eq!(game, before);
}

#[test]
fn camera_patch_enable_twice_is_enable_once() {
    let patch = DisableCameraSmoothing::new(0x2000, [0x74, 0x05]);
    let mut once = game_with_jump(0x2000);
    once.run(Plan::new(patch.enable())).unwrap();
    let mut twice = once.clone();
    twice.run(Plan::new(patch.enable())).unwrap();
    assert_eq!(once, twice);
}

#[test]
fn mouse_fix_hooks_axis_movement() {
    assert_eq!(GET_AXIS_MOVEMENT_ADDRESS, 0x1_41F6_A320);
    assert_eq!(ROOT_CLOCK_ADDRESS, 0x1_4525_D9D0);
    assert_eq!(
        MouseSensitivityFix.enable(),
        vec![Action::HookCode { target: GET_AXIS_MOVEMENT_ADDRESS, detour: Detour::AxisMovement }]
    );
    assert_eq!(
        MouseSensitivityFix.disable(),
        vec![Action::UnhookCode { target: GET_AXIS_MOVEMENT_ADDRESS }]
    );
    assert_eq!(Feature::enable(&MouseSensitivityFix), MouseSensitivityFix.enable());
}

#[test]
fn fix_mouse_sensitivity_plan() {
    let plan = fix_mouse_sensitivity();
    assert_eq!(
        plan.next_action(),
        Some(&Action::HookCode { target: GET_AXIS_MOVEMENT_ADDRESS, detour: Detour::AxisMovement })
    );
    let mut game = FakeGame::default();
    game.run(plan).unwrap();
    assert!(game.hooks.contains(&GET_AXIS_MOVEMENT_ADDRESS));
}

#[test]
fn run_all_patches_enables_camera_then_mouse() {
    let camera = DisableCameraSmoothing::new(0x3000, [0x74, 0x10]);
    let mut plan = run_all_patches(&camera, &MouseSensitivityFix);
    assert_eq!(
        plan.next_action(),
        Some(&Action::WriteBytes { address: 0x3000, bytes: vec![0x90, 0x90] })
    );
    assert_eq!(plan.outcome(), None);
    plan.record(Ok(()));
    assert_eq!(
        plan.next_action(),
        Some(&Action::HookCode { target: GET_AXIS_MOVEMENT_ADDRESS, detour: Detour::AxisMovement })
    );
    plan.record(Ok(()));
    assert_eq!(plan.next_action(), None);
    assert_eq!(plan.outcome(), Some(Ok(())));
}

#[test]
fn run_all_patches_stops_at_first_error() {
    let camera = DisableCameraSmoothing::new(0x3000, [0x74, 0x10]);
    let mut plan = run_all_patches(&camera, &MouseSensitivityFix);
    plan.record(Err("failed to write memory".to_string()));
    assert_eq!(plan.next_action(), None);
    assert_eq!(plan.outcome(), Some(Err("failed to write memory".to_string())));
    // Later results change nothing.
    plan.record(Ok(()));
    plan.record(Err("other".to_string()));
    assert_eq!(plan.outcome(), Some(Err("failed to write memory".to_string())));
}

#[test]
fn run_all_patches_reports_hook_failure() {
    let camera = DisableCameraSmoothing::new(0x3000, [0x74, 0x05]);
    let mut game = game_with_jump(0x3000);
    game.failing_hooks = true;
    let result = game.run(run_all_patches(&camera, &MouseSensitivityFix));
    assert_eq!(result, Err("failed to hook function".to_string()));
    // The camera patch, which came first, was applied.
    assert_eq!(game.memory[&0x3000], 0x90);
}

#[test]
fn disable_all_patches_undoes_run_all_patches() {
    let camera = DisableCameraSmoothing::new(0x4000, [0x74, 0x05]);
    let before = game_with_jump(0x4000);
    let mut game = before.clone();
    game.run(run_all_patches(&camera, &MouseSensitivityFix)).unwrap();
    assert_ne!(game, before);
    let mut plan = disable_all_patches(&camera, &MouseSensitivityFix);
    assert_eq!(
        plan.next_action(),
        Some(&Action::WriteBytes { address: 0x4000, bytes: vec![0x74, 0x05] })
    );
    plan.record(Ok(()));
    assert_eq!(
        plan.next_action(),
        Some(&Action::UnhookCode { target: GET_AXIS_MOVEMENT_ADDRESS })
    );
    game.run(disable_all_patches(&camera, &MouseSensitivityFix)).unwrap();
    assert_eq!(game, before);
}

#[test]
fn empty_plan_succeeds_at_once() {
    let plan = Plan::new(Vec::new());
    assert_eq!(plan.next_action(), None);
    assert_eq!(plan.outcome(), Some(Ok(())));
}

#[test]
fn session_leaves_game_unchanged() {
    let camera = DisableCameraSmoothing::new(0x5000, [0x74, 0x05]);
    let mut before = game_with_jump(0x5000);
    before.integrity_threads.insert(42);
    let mut game = before.clone();
    game.run(disable_integrity_checks()).unwrap();
    assert!(game.thread_creation_hooked);
    assert!(game.integrity_threads.is_empty());
    game.run(run_all_patches(&camera, &MouseSensitivityFix)).unwrap();
    game.run(disable_all_patches(&camera, &MouseSensitivityFix)).unwrap();
    assert!(game.thread_creation_hooked);
    game.run(cleanup_integrity_checks()).unwrap();
    before.integrity_threads.clear();
    assert_eq!(game, before);
}
