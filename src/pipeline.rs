//! Provisioning pipeline decisions: sentinel scanning of the child's output,
//! the final verdict of a run, and the cancellation slot shared between the
//! run path and the cancel path.

use crate::text::{contains_seq, contains_str, signed_decimal, signed_decimal_string};
use vstd::prelude::*;
use vstd::string::*;

verus! {

/// The line a provisioning script prints when it has finished successfully.
pub open spec fn success_sentinel() -> Seq<char> {
    "PROVISION_SUCCESS"@
}

/// The marker a provisioning script prints on a line that reports failure.
pub open spec fn failure_sentinel() -> Seq<char> {
    "PROVISION_FAILED"@
}

/// The marker a configuration-update script prints when it has succeeded.
pub open spec fn update_sentinel() -> Seq<char> {
    "UPDATE_SUCCESS"@
}

/// How a child process ended.
pub struct ExitReport {
    /// The exit status indicates success.
    pub success: bool,
    /// The exit code, when the process exited with one.
    pub code: Option<i32>,
}

/// The report of a finished provisioning job.
pub struct VMProgress {
    pub step: u32,
    pub total_steps: u32,
    pub message: String,
    pub completed: bool,
    pub error: Option<String>,
}

impl VMProgress {
    /// This is the report of a successfully provisioned machine.
    pub open spec fn is_success_report(&self) -> bool {
        &&& self.step == 1
        &&& self.total_steps == 1
        &&& self.message@ == "VM Provisioned Successfully!"@
        &&& self.completed
        &&& self.error is None
    }
}

/// What has been learned from the standard output of a provisioning run so far.
pub struct StreamScan {
    /// The success sentinel has been seen on some line.
    pub success_seen: bool,
    /// The error message derived from the first line carrying the failure sentinel.
    pub failure: Option<String>,
}

/// The abstract state of a scan: success seen, and the first failure message.
pub type ScanState = (bool, Option<Seq<char>>);

impl View for StreamScan {
    type V = ScanState;

    open spec fn view(&self) -> ScanState {
        (
            self.success_seen,
            match self.failure {
                Some(m) => Some(m@),
                None => None,
            },
        )
    }
}

/// The error message for a line that carries the failure sentinel.
pub open spec fn failure_message(line: Seq<char>) -> Seq<char> {
    "Provisioning failed: "@ + line
}

/// The scan state after one more stdout line: a failure, once recorded, is kept.
pub open spec fn scan_step(st: ScanState, line: Seq<char>) -> ScanState {
    (
        st.0 || contains_seq(line, success_sentinel()),
        if st.1 is None && contains_seq(line, failure_sentinel()) {
            Some(failure_message(line))
        } else {
            st.1
        },
    )
}

/// The scan state after the given stdout lines, in order.
pub open spec fn scan_lines(lines: Seq<Seq<char>>) -> ScanState
    decreases lines.len(),
{
    if lines.len() == 0 {
        (false, None)
    } else {
        scan_step(scan_lines(lines.drop_last()), lines.last())
    }
}

/// The text that stands for an optional exit code in messages: `Some(N)` or `None`.
pub open spec fn exit_code_text(code: Option<i32>) -> Seq<char> {
    match code {
        Some(c) => "Some("@ + signed_decimal(c as int) + ")"@,
        None => "None"@,
    }
}

/// A run succeeds when the success sentinel was seen, no failure sentinel was,
/// and the process exit status indicates success.
pub open spec fn run_succeeds(st: ScanState, exit: ExitReport) -> bool {
    st.0 && st.1 is None && exit.success
}

/// The error of a run that did not succeed: the sentinel-derived message when
/// there is one, else a message naming the exit code.
pub open spec fn run_error(st: ScanState, exit: ExitReport) -> Seq<char> {
    match st.1 {
        Some(m) => m,
        None => "Provisioning process exited with code: "@ + exit_code_text(exit.code),
    }
}

/// The line forwarded to the observer for a line read from standard error.
pub open spec fn stderr_log_line(line: Seq<char>) -> Seq<char> {
    "[ERROR] "@ + line
}

fn exit_code_string(code: Option<i32>) -> (r: String)
    ensures
        r@ == exit_code_text(code),
{
    match code {
        Some(c) => {
            let mut s = String::from_str("Some(");
            let d = signed_decimal_string(c as i64);
            s.append(d.as_str());
            s.append(")");
            s
        },
        None => String::from_str("None"),
    }
}

impl StreamScan {
    /// A scan that has seen no line.
    pub fn new() -> (r: Self)
        ensures
            r@ == scan_lines(Seq::empty()),
    {
        StreamScan { success_seen: false, failure: None }
    }

    /// Takes one more line of the child's standard output into account.
    pub fn observe(&mut self, line: &str)
        ensures
            final(self)@ == scan_step(old(self)@, line@),
    {
        if contains_str(line, "PROVISION_SUCCESS") {
            self.success_seen = true;
        }
        if self.failure.is_none() && contains_str(line, "PROVISION_FAILED") {
            let mut m = String::from_str("Provisioning failed: ");
            m.append(line);
            self.failure = Some(m);
        }
    }

    /// The verdict of the run once both streams are drained and the process has exited.
    pub fn outcome(&self, exit: &ExitReport) -> (r: Result<VMProgress, String>)
        ensures
            r is Ok <==> run_succeeds(self@, *exit),
            r matches Ok(p) ==> p.is_success_report(),
            r matches Err(e) ==> e@ == run_error(self@, *exit),
    {
        match &self.failure {
            Some(m) => Err(m.clone()),
            None => {
                if self.success_seen && exit.success {
                    Ok(
                        VMProgress {
                            step: 1,
                            total_steps: 1,
                            message: String::from_str("VM Provisioned Successfully!"),
                            completed: true,
                            error: None,
                        },
                    )
                } else {
                    let mut e = String::from_str("Provisioning process exited with code: ");
                    let c = exit_code_string(exit.code);
                    e.append(c.as_str());
                    Err(e)
                }
            },
        }
    }
}

/// Scans a whole standard output, line by line in order.
pub fn scan_output(lines: &Vec<String>) -> (r: StreamScan)
    ensures
        r@ == scan_lines(lines@.map_values(|l: String| l@)),
{
    let mut scan = StreamScan::new();
    let mut i: usize = 0;
    while i < lines.len()
        invariant
            i <= lines@.len(),
            scan@ == scan_lines(lines@.subrange(0, i as int).map_values(|l: String| l@)),
        decreases lines.len() - i,
    {
        scan.observe(lines[i].as_str());
        proof {
            let prev = lines@.subrange(0, i as int).map_values(|l: String| l@);
            let next = lines@.subrange(0, i + 1).map_values(|l: String| l@);
            assert(next.drop_last() =~= prev);
        }
        i = i + 1;
    }
    proof {
        assert(lines@.subrange(0, i as int) =~= lines@);
    }
    scan
}

/// The line to forward to the observer for a line read from standard error.
pub fn stderr_line(line: &str) -> (r: String)
    ensures
        r@ == stderr_log_line(line@),
{
    let mut s = String::from_str("[ERROR] ");
    s.append(line);
    s
}

/// Whether a line of a configuration update's output reports success.
pub fn update_line_succeeded(line: &str) -> (r: bool)
    ensures
        r == contains_seq(line@, update_sentinel()),
{
    contains_str(line, "UPDATE_SUCCESS")
}

/// The verdict of a configuration update: success needs the update sentinel
/// and a successful exit status.
pub fn update_outcome(sentinel_seen: bool, exit: &ExitReport) -> (r: Result<String, String>)
    ensures
        r is Ok <==> sentinel_seen && exit.success,
        r matches Ok(m) ==> m@ == "VM Configuration Updated Successfully"@,
        r matches Err(e) ==> e@ == "Update process failed (Exit Code: "@ + exit_code_text(
            exit.code,
        ) + "). Check logs for details."@,
{
    if sentinel_seen && exit.success {
        Ok(String::from_str("VM Configuration Updated Successfully"))
    } else {
        let mut e = String::from_str("Update process failed (Exit Code: ");
        let c = exit_code_string(exit.code);
        e.append(c.as_str());
        e.append("). Check logs for details.");
        Err(e)
    }
}

/// The line carries the success sentinel.
pub open spec fn reports_success(line: Seq<char>) -> bool {
    contains_seq(line, success_sentinel())
}

/// The line carries the failure sentinel.
pub open spec fn reports_failure(line: Seq<char>) -> bool {
    contains_seq(line, failure_sentinel())
}

proof fn lemma_scan_success(lines: Seq<Seq<char>>)
    ensures
        scan_lines(lines).0 <==> exists|i: int| 0 <= i < lines.len() && #[trigger] reports_success(lines[i]),
    decreases lines.len(),
{
    if lines.len() > 0 {
        let init = lines.drop_last();
        let n = lines.len() - 1;
        lemma_scan_success(init);
        assert(scan_lines(lines).0 == (scan_lines(init).0 || reports_success(lines[n])));
        if scan_lines(init).0 {
            let i = choose|i: int| 0 <= i < init.len() && #[trigger] reports_success(init[i]);
            assert(lines[i] == init[i]);
        }
        if exists|i: int| 0 <= i < lines.len() && #[trigger] reports_success(lines[i]) {
            let i = choose|i: int| 0 <= i < lines.len() && #[trigger] reports_success(lines[i]);
            if i < n {
                assert(init[i] == lines[i]);
            }
        }
    }
}

proof fn lemma_scan_failure(lines: Seq<Seq<char>>)
    ensures
        scan_lines(lines).1 is None <==> forall|i: int| 0 <= i < lines.len() ==> !#[trigger] reports_failure(lines[i]),
        forall|k: int|
            0 <= k < lines.len() && #[trigger] reports_failure(lines[k]) && (forall|j: int|
                0 <= j < k ==> !reports_failure(lines[j])) ==> scan_lines(lines).1 == Some(
                failure_message(lines[k]),
            ),
    decreases lines.len(),
{
    if lines.len() > 0 {
        let init = lines.drop_last();
        let n = lines.len() - 1;
        lemma_scan_failure(init);
        assert(scan_lines(lines) == scan_step(scan_lines(init), lines[n]));
        assert forall|i: int| 0 <= i < n implies init[i] == lines[i] by {}
        assert forall|k: int|
            0 <= k < lines.len() && #[trigger] reports_failure(lines[k]) && (forall|j: int|
                0 <= j < k ==> !reports_failure(lines[j])) implies scan_lines(lines).1 == Some(
            failure_message(lines[k]),
        ) by {
            if k < n {
                assert(reports_failure(init[k]));
                assert forall|j: int| 0 <= j < k implies !reports_failure(init[j]) by {
                    assert(init[j] == lines[j]);
                }
            } else {
                assert forall|i: int| 0 <= i < init.len() implies !#[trigger] reports_failure(
                    init[i],
                ) by {
                    assert(init[i] == lines[i]);
                }
            }
        }
        if scan_lines(lines).1 is None {
            assert forall|i: int| 0 <= i < lines.len() implies !#[trigger] reports_failure(
                lines[i],
            ) by {
                if i < n {
                    assert(init[i] == lines[i]);
                }
            }
        } else {
            if scan_lines(init).1 is None {
                assert(reports_failure(lines[n]));
            } else {
                let i = choose|i: int| 0 <= i < init.len() && #[trigger] reports_failure(init[i]);
                assert(init[i] == lines[i]);
            }
        }
    }
}

/// A provisioning run succeeds exactly when some stdout line carries the
/// success sentinel, no line carries the failure sentinel, and the exit status
/// indicates success; so a failure sentinel makes the run fail even when a
/// later line carries the success sentinel. The error of a failed run is the
/// message of the first line that carries the failure sentinel.
pub proof fn lemma_run_verdict(lines: Seq<Seq<char>>, exit: ExitReport)
    ensures
        run_succeeds(scan_lines(lines), exit) <==> (exists|i: int|
            0 <= i < lines.len() && #[trigger] reports_success(lines[i])) && (forall|i: int|
            0 <= i < lines.len() ==> !#[trigger] reports_failure(lines[i])) && exit.success,
        forall|k: int|
            0 <= k < lines.len() && #[trigger] reports_failure(lines[k]) && (forall|j: int|
                0 <= j < k ==> !reports_failure(lines[j])) ==> !run_succeeds(scan_lines(lines), exit)
                && run_error(scan_lines(lines), exit) == failure_message(lines[k]),
{
    lemma_scan_success(lines);
    lemma_scan_failure(lines);
}

/// The slot that holds the process id of the running provisioning job: the
/// single source of truth for whether something can be cancelled.
pub struct ProvisioningState {
    pub current_pid: Option<u32>,
}

impl Default for ProvisioningState {
    fn default() -> (r: Self)
        ensures
            r.current_pid is None,
    {
        ProvisioningState { current_pid: None }
    }
}

/// What cancelling a provisioning job asks the host to do.
pub struct CancelActions {
    /// The command that terminates the tracked process tree, when a process was tracked.
    pub kill_command: Option<String>,
    /// The best-effort command that removes a partially created machine; its failure is ignored.
    pub cleanup_command: String,
}

/// The command that forcefully terminates the process tree of `pid`.
pub open spec fn kill_command_text(pid: u32) -> Seq<char> {
    "taskkill /PID "@ + crate::text::decimal(pid as nat) + " /T /F"@
}

/// The command that removes the machine `name`, ignoring its absence.
pub open spec fn cleanup_command_text(name: Seq<char>) -> Seq<char> {
    "$vmName = '"@ + name + "'; Remove-VM -Name $vmName -Force -ErrorAction SilentlyContinue"@
}

/// A cancel on a slot sends a termination signal exactly when a process is tracked.
pub open spec fn cancel_kills(slot: Option<u32>) -> bool {
    slot is Some
}

/// The slot once its process id has been taken, or once the process finished.
pub open spec fn slot_after_release(slot: Option<u32>) -> Option<u32> {
    None
}

impl ProvisioningState {
    /// Whether a process is tracked, so that a new job cannot start.
    pub fn is_busy(&self) -> (r: bool)
        ensures
            r == self.current_pid is Some,
    {
        self.current_pid.is_some()
    }

    /// Records the process id of a newly spawned job; refused while another is tracked.
    pub fn begin(&mut self, pid: u32) -> (r: Result<(), String>)
        ensures
            r is Ok <==> old(self).current_pid is None,
            r is Ok ==> final(self).current_pid == Some(pid),
            r is Err ==> *final(self) == *old(self),
    {
        if self.current_pid.is_some() {
            Err(String::from_str("A provisioning job is already running"))
        } else {
            self.current_pid = Some(pid);
            Ok(())
        }
    }

    /// Takes the tracked process id and clears the slot in one step.
    pub fn take(&mut self) -> (r: Option<u32>)
        ensures
            r == old(self).current_pid,
            final(self).current_pid == slot_after_release(old(self).current_pid),
    {
        let r = self.current_pid;
        self.current_pid = None;
        r
    }

    /// Clears the slot once the tracked process is confirmed finished.
    pub fn finish(&mut self)
        ensures
            final(self).current_pid == slot_after_release(old(self).current_pid),
    {
        self.current_pid = None;
    }
}

/// Cancels the provisioning of `name`: takes the tracked process id, asks for
/// its process tree to be terminated when there was one, and always asks for a
/// best-effort removal of the partially created machine. Cancelling with no
/// tracked process is no error: only the cleanup is asked for.
pub fn cancel_create_vm(state: &mut ProvisioningState, name: &str) -> (r: CancelActions)
    ensures
        final(state).current_pid == slot_after_release(old(state).current_pid),
        r.kill_command is Some <==> cancel_kills(old(state).current_pid),
        old(state).current_pid matches Some(pid) ==> (r.kill_command matches Some(k) && k@
            == kill_command_text(pid)),
        r.cleanup_command@ == cleanup_command_text(name@),
{
    let pid = state.take();
    let kill_command = match pid {
        Some(p) => {
            let mut k = String::from_str("taskkill /PID ");
            let d = crate::text::decimal_string(p as u64);
            k.append(d.as_str());
            k.append(" /T /F");
            Some(k)
        },
        None => None,
    };
    let mut c = String::from_str("$vmName = '");
    c.append(name);
    c.append("'; Remove-VM -Name $vmName -Force -ErrorAction SilentlyContinue");
    CancelActions { kill_command, cleanup_command: c }
}

/// Taking the process id is a single-owner handoff: whatever the slot held,
/// of two cancels in a row at most one sends a termination signal, and a
/// cancel after the run path has released the slot sends none.
pub proof fn lemma_cancel_kills_at_most_once(slot: Option<u32>)
    ensures
        !(cancel_kills(slot) && cancel_kills(slot_after_release(slot))),
        !cancel_kills(slot_after_release(slot)),
{
}

} // verus!
