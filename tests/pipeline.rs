use hyperv_provisioner::pipeline::{
    cancel_create_vm, scan_output, stderr_line, update_line_succeeded, update_outcome, ExitReport,
    ProvisioningState, StreamScan,
};

fn lines(v: &[&str]) -> Vec<String> {
    v.iter().map(|s| s.to_string()).collect()
}

fn exit_ok() -> ExitReport {
    ExitReport { success: true, code: Some(0) }
}

#[test]
fn success_sentinel_and_clean_exit_succeed() {
    let scan = scan_output(&lines(&["Creating VM", "Copying files", "PROVISION_SUCCESS"]));
    let r = scan.outcome(&exit_ok());
    let p = r.ok().expect("run should succeed");
    assert_eq!(p.step, 1);
    assert_eq!(p.total_steps, 1);
    assert_eq!(p.message, "VM Provisioned Successfully!");
    assert!(p.completed);
    assert!(p.error.is_none());
}

#[test]
fn failure_sentinel_wins_over_later_success() {
    let scan = scan_output(&lines(&["PROVISION_FAILED: disk", "PROVISION_SUCCESS"]));
    let r = scan.outcome(&exit_ok());
    assert_eq!(r.err().unwrap(), "Provisioning failed: PROVISION_FAILED: disk");
}

#[test]
fn first_failure_message_is_kept() {
    let scan = scan_output(&lines(&["PROVISION_FAILED one", "PROVISION_FAILED two"]));
    let r = scan.outcome(&ExitReport { success: false, code: Some(1) });
    assert_eq!(r.err().unwrap(), "Provisioning failed: PROVISION_FAILED one");
}

#[test]
fn success_sentinel_with_failed_exit_reports_code() {
    let scan = scan_output(&lines(&["PROVISION_SUCCESS"]));
    let r = scan.outcome(&ExitReport { success: false, code: Some(3) });
    assert_eq!(r.err().unwrap(), "Provisioning process exited with code: Some(3)");
}

#[test]
fn missing_sentinel_with_clean_exit_fails() {
    let scan = scan_output(&lines(&["done"]));
    let r = scan.outcome(&exit_ok());
    assert_eq!(r.err().unwrap(), "Provisioning process exited with code: Some(0)");
}

#[test]
fn negative_and_absent_exit_codes_are_named() {
    let scan = StreamScan::new();
    let r = scan.outcome(&ExitReport { success: false, code: Some(-1073741510) });
    assert_eq!(r.err().unwrap(), "Provisioning process exited with code: Some(-1073741510)");
    let r = scan.outcome(&ExitReport { success: false, code: None });
    assert_eq!(r.err().unwrap(), "Provisioning process exited with code: None");
}

#[test]
fn observe_finds_sentinel_inside_a_line() {
    let mut scan = StreamScan::new();
    scan.observe("[step 9] PROVISION_SUCCESS reached");
    assert!(scan.success_seen);
    assert!(scan.failure.is_none());
}

#[test]
fn stderr_lines_are_marked() {
    assert_eq!(stderr_line("boom"), "[ERROR] boom");
}

#[test]
fn update_verdict() {
    assert!(update_line_succeeded("UPDATE_SUCCESS"));
    assert!(!update_line_succeeded("UPDATE_FAILED"));
    assert_eq!(
        update_outcome(true, &exit_ok()).unwrap(),
        "VM Configuration Updated Successfully"
    );
    assert_eq!(
        update_outcome(true, &ExitReport { success: false, code: Some(2) }).unwrap_err(),
        "Update process failed (Exit Code: Some(2)). Check logs for details."
    );
    assert_eq!(
        update_outcome(false, &exit_ok()).unwrap_err(),
        "Update process failed (Exit Code: Some(0)). Check logs for details."
    );
}

#[test]
fn cancel_without_process_only_cleans_up() {
    let mut state = ProvisioningState::default();
    let a = cancel_create_vm(&mut state, "vm-test");
    assert!(a.kill_command.is_none());
    assert_eq!(
        a.cleanup_command,
        "$vmName = 'vm-test'; Remove-VM -Name $vmName -Force -ErrorAction SilentlyContinue"
    );
    assert!(state.current_pid.is_none());
}

#[test]
fn cancel_twice_kills_once() {
    let mut state = ProvisioningState::default();
    assert!(state.begin(4242).is_ok());
    let first = cancel_create_vm(&mut state, "vm");
    let second = cancel_create_vm(&mut state, "vm");
    assert_eq!(first.kill_command.unwrap(), "taskkill /PID 4242 /T /F");
    assert!(second.kill_command.is_none());
}

#[test]
fn cancel_after_completion_kills_nothing() {
    let mut state = ProvisioningState::default();
    state.begin(7).unwrap();
    state.finish();
    assert!(cancel_create_vm(&mut state, "vm").kill_command.is_none());
}

#[test]
fn second_job_is_refused_while_one_is_tracked() {
    let mut state = ProvisioningState::default();
    assert!(state.begin(1).is_ok());
    assert!(state.is_busy());
    assert_eq!(state.begin(2).unwrap_err(), "A provisioning job is already running");
    assert_eq!(state.take(), Some(1));
    assert_eq!(state.take(), None);
    assert!(state.begin(2).is_ok());
}
