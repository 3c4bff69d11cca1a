use acu_patches::game::{
    cleanup_integrity_checks, disable_integrity_checks, wait_for_game_step, WaitStep,
    GAME_SETTLE_DELAY_MS, INTEGRITY_POLL_INTERVAL_MS, INTEGRITY_WAIT_TIMEOUT_MS,
};
use acu_patches::patches::disable_integrity_checks::{
    hooked_thread_start, is_integrity_thread, terminate_integrity_checks, ThreadEntry,
    INTEGRITY_THREAD_START_ADDRESS,
};
use acu_patches::plan::Action;

fn thread(tid: u32, owner_pid: u32) -> ThreadEntry {
    ThreadEntry { tid, owner_pid }
}

#[test]
fn integrity_thread_is_recognised_by_start_address() {
    assert_eq!(INTEGRITY_THREAD_START_ADDRESS, 0x1_4275_DE50);
    assert!(is_integrity_thread(0x1_4275_DE50));
    assert!(!is_integrity_thread(0x1_4275_DE51));
    assert!(!is_integrity_thread(0));
}

#[test]
fn hook_redirects_only_integrity_threads() {
    assert_eq!(hooked_thread_start(INTEGRITY_THREAD_START_ADDRESS, 0x7ff0_1000), 0x7ff0_1000);
    assert_eq!(hooked_thread_start(0x1400_2000, 0x7ff0_1000), 0x1400_2000);
    assert_eq!(hooked_thread_start(0, 0x7ff0_1000), 0);
}

const OTHER_START: u64 = 0x1_4000_1000;

#[test]
fn scan_checks_only_own_threads_in_order() {
    let threads = vec![thread(1, 10), thread(2, 20), thread(3, 10), thread(4, 30), thread(5, 10)];
    let mut scan = terminate_integrity_checks(&threads, 10);
    assert_eq!(scan.next_thread(), Some(1));
    assert_eq!(scan.report(), None);
    assert!(!scan.record_start_address(Ok(OTHER_START)));
    assert_eq!(scan.next_thread(), Some(3));
    assert!(scan.record_start_address(Ok(INTEGRITY_THREAD_START_ADDRESS)));
    // The scan waits for the termination before it asks for the next thread.
    assert_eq!(scan.next_thread(), None);
    assert_eq!(scan.report(), None);
    scan.record_termination(Ok(()));
    assert_eq!(scan.next_thread(), Some(5));
    assert!(scan.record_start_address(Ok(INTEGRITY_THREAD_START_ADDRESS)));
    scan.record_termination(Ok(()));
    assert_eq!(scan.next_thread(), None);
    assert_eq!(scan.terminated(), &vec![3, 5]);
    assert_eq!(scan.report(), Some(Ok(())));
}

#[test]
fn scan_terminates_exactly_integrity_threads() {
    let threads = vec![thread(11, 4), thread(12, 4), thread(13, 4)];
    let starts = [INTEGRITY_THREAD_START_ADDRESS, OTHER_START, INTEGRITY_THREAD_START_ADDRESS];
    let mut scan = terminate_integrity_checks(&threads, 4);
    let mut i = 0;
    while let Some(tid) = scan.next_thread() {
        assert_eq!(tid, threads[i].tid);
        if scan.record_start_address(Ok(starts[i])) {
            scan.record_termination(Ok(()));
        }
        i += 1;
    }
    assert_eq!(i, 3);
    assert_eq!(scan.terminated(), &vec![11, 13]);
    assert_eq!(scan.report(), Some(Ok(())));
}

#[test]
fn scan_without_own_threads_ends_at_once() {
    let threads = vec![thread(1, 20), thread(2, 30)];
    let scan = terminate_integrity_checks(&threads, 10);
    assert_eq!(scan.next_thread(), None);
    assert_eq!(scan.report(), Some(Ok(())));
    let scan = terminate_integrity_checks(&Vec::new(), 10);
    assert_eq!(scan.report(), Some(Ok(())));
}

#[test]
fn scan_stops_at_failed_query() {
    let threads = vec![thread(7, 1), thread(8, 1), thread(9, 1)];
    let mut scan = terminate_integrity_checks(&threads, 1);
    assert!(scan.record_start_address(Ok(INTEGRITY_THREAD_START_ADDRESS)));
    scan.record_termination(Ok(()));
    assert!(!scan.record_start_address(Err("failed to open thread handle".to_string())));
    assert_eq!(scan.next_thread(), None);
    let error = "Error checking thread 8: failed to open thread handle".to_string();
    assert_eq!(scan.report(), Some(Err(error.clone())));
    // The earlier termination is kept; later results change nothing.
    assert_eq!(scan.terminated(), &vec![7]);
    assert!(!scan.record_start_address(Ok(INTEGRITY_THREAD_START_ADDRESS)));
    scan.record_termination(Ok(()));
    assert_eq!(scan.report(), Some(Err(error)));
}

#[test]
fn scan_stops_at_failed_termination() {
    let threads = vec![thread(4_294_967_295, 2), thread(3, 2)];
    let mut scan = terminate_integrity_checks(&threads, 2);
    assert!(scan.record_start_address(Ok(INTEGRITY_THREAD_START_ADDRESS)));
    scan.record_termination(Err("failed to terminate thread".to_string()));
    assert_eq!(scan.next_thread(), None);
    assert_eq!(
        scan.report(),
        Some(Err("Error checking thread 4294967295: failed to terminate thread".to_string()))
    );
    assert!(scan.terminated().is_empty());
}

#[test]
fn scan_error_names_thread_in_decimal() {
    for (tid, text) in [(0u32, "0"), (9, "9"), (10, "10"), (1234, "1234"), (100_000, "100000")] {
        let mut scan = terminate_integrity_checks(&vec![thread(tid, 1)], 1);
        scan.record_start_address(Err("x".to_string()));
        assert_eq!(scan.report(), Some(Err(format!("Error checking thread {}: x", text))));
    }
}

#[test]
fn termination_without_pending_thread_is_ignored() {
    let mut scan = terminate_integrity_checks(&vec![thread(5, 1)], 1);
    scan.record_termination(Err("unexpected".to_string()));
    assert_eq!(scan.next_thread(), Some(5));
    assert_eq!(scan.report(), None);
}

#[test]
fn integrity_bypass_plan() {
    let mut plan = disable_integrity_checks();
    assert_eq!(plan.next_action(), Some(&Action::HookThreadCreation));
    plan.record(Ok(()));
    assert_eq!(plan.next_action(), Some(&Action::TerminateIntegrityThreads));
    plan.record(Err("Error checking thread 8: failed to terminate thread".to_string()));
    assert_eq!(
        plan.outcome(),
        Some(Err("Error checking thread 8: failed to terminate thread".to_string()))
    );
}

#[test]
fn integrity_bypass_stops_when_hook_fails() {
    let mut plan = disable_integrity_checks();
    plan.record(Err("failed to hook CreateThread".to_string()));
    assert_eq!(plan.next_action(), None);
    assert_eq!(plan.outcome(), Some(Err("failed to hook CreateThread".to_string())));
}

#[test]
fn integrity_cleanup_plan() {
    let mut plan = cleanup_integrity_checks();
    assert_eq!(plan.next_action(), Some(&Action::UnhookThreadCreation));
    plan.record(Ok(()));
    assert_eq!(plan.outcome(), Some(Ok(())));
}

#[test]
fn wait_steps() {
    assert_eq!(INTEGRITY_WAIT_TIMEOUT_MS, 15_000);
    assert_eq!(INTEGRITY_POLL_INTERVAL_MS, 100);
    assert_eq!(GAME_SETTLE_DELAY_MS, 3_000);
    assert_eq!(wait_for_game_step(false, 0), WaitStep::Poll);
    assert_eq!(wait_for_game_step(false, 14_999), WaitStep::Poll);
    assert_eq!(wait_for_game_step(false, 15_000), WaitStep::TimedOut);
    assert_eq!(wait_for_game_step(false, u64::MAX), WaitStep::TimedOut);
    assert_eq!(wait_for_game_step(true, 0), WaitStep::Ready);
    assert_eq!(wait_for_game_step(true, 20_000), WaitStep::Ready);
}
