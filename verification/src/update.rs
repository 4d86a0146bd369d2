//! The update journal: the durable record of one operation.
//!
//! Every operation-producing handler builds an `Update`, appends `Log`
//! entries as work proceeds, and finalises it on exit. A janitor finalises
//! any record left in progress by a restart.

use vstd::prelude::*;

verus! {

/// Milliseconds since the epoch, as the rest of the system stamps time.
pub type Timestamp = i64;

/// The kind of resource an update targets.
#[derive(Clone, Copy, PartialEq, Eq, Structural, Debug)]
pub enum ResourceKind {
    Server,
    Deployment,
    Stack,
    Build,
    Repo,
    Procedure,
    Action,
    Alerter,
    Sync,
}

/// The operation an update records.
#[derive(Clone, Copy, PartialEq, Eq, Structural, Debug)]
pub enum Operation {
    CreateAction,
    UpdateAction,
    RenameAction,
    DeleteAction,
    RunAction,
    RunProcedure,
    Deploy,
    DeployStack,
    DeployStackIfChanged,
    PullStack,
    StartStack,
    RestartStack,
    PauseStack,
    UnpauseStack,
    StopStack,
    DestroyStack,
    StartContainer,
    RestartContainer,
    PauseContainer,
    UnpauseContainer,
    StopContainer,
    RemoveContainer,
}

/// Lifecycle of an update record.
#[derive(Clone, Copy, PartialEq, Eq, Structural, Debug)]
pub enum UpdateStatus {
    Queued,
    InProgress,
    Complete,
}

/// One command's record inside an update: what ran, what it printed,
/// whether it succeeded, and when it started and ended.
#[derive(Debug)]
pub struct Log {
    pub stage: String,
    pub command: String,
    pub stdout: String,
    pub stderr: String,
    pub success: bool,
    pub start_ts: Timestamp,
    pub end_ts: Timestamp,
}

impl Clone for Log {
    /// A clone carries exactly the same record.
    fn clone(&self) -> (res: Log)
        ensures
            res == *self,
    {
        Log {
            stage: self.stage.clone(),
            command: self.command.clone(),
            stdout: self.stdout.clone(),
            stderr: self.stderr.clone(),
            success: self.success,
            start_ts: self.start_ts,
            end_ts: self.end_ts,
        }
    }
}

impl Log {
    /// A log entry's timestamps are ordered.
    pub open spec fn wf(self) -> bool {
        self.start_ts <= self.end_ts
    }

    /// An informational entry: no command, both timestamps at `now`.
    pub fn simple(stage: &str, stdout: String, now: Timestamp) -> (log: Log)
        ensures
            log.wf(),
            log.stage@ == stage@,
            log.command@ == Seq::<char>::empty(),
            log.stdout == stdout,
            log.stderr@ == Seq::<char>::empty(),
            log.success,
            log.start_ts == now,
            log.end_ts == now,
    {
        Log {
            stage: stage.to_owned(),
            command: String::new(),
            stdout,
            stderr: String::new(),
            success: true,
            start_ts: now,
            end_ts: now,
        }
    }

    /// A failure entry: the message in stderr, both timestamps at `now`.
    pub fn error(stage: &str, stderr: String, now: Timestamp) -> (log: Log)
        ensures
            log.wf(),
            log.stage@ == stage@,
            log.command@ == Seq::<char>::empty(),
            log.stdout@ == Seq::<char>::empty(),
            log.stderr == stderr,
            !log.success,
            log.start_ts == now,
            log.end_ts == now,
    {
        Log {
            stage: stage.to_owned(),
            command: String::new(),
            stdout: String::new(),
            stderr,
            success: false,
            start_ts: now,
            end_ts: now,
        }
    }
}

/// The durable record of one operation: its target, its lifecycle status,
/// its outcome, and the ordered logs of the commands it ran.
#[derive(Debug)]
pub struct Update {
    pub id: String,
    pub target_kind: ResourceKind,
    pub target_id: String,
    pub operation: Operation,
    pub status: UpdateStatus,
    pub success: bool,
    pub start_ts: Timestamp,
    pub end_ts: Timestamp,
    pub user_id: String,
    pub logs: Vec<Log>,
}

/// Clones a log list, entry for entry.
pub fn clone_logs(v: &Vec<Log>) -> (r: Vec<Log>)
    ensures
        r@ == v@,
{
    let r = v.clone();
    proof {
        assert forall|i: int| 0 <= i < v@.len() implies r@[i] == v@[i] by {
            assert(vstd::pervasive::cloned::<Log>(v@[i], r@[i]));
        }
        assert(r@ =~= v@);
    }
    r
}

impl Clone for Update {
    /// A clone carries the same record: every field equal, the logs entry
    /// for entry.
    fn clone(&self) -> (res: Update)
        ensures
            res.id == self.id,
            res.target_kind == self.target_kind,
            res.target_id == self.target_id,
            res.operation == self.operation,
            res.status == self.status,
            res.success == self.success,
            res.start_ts == self.start_ts,
            res.end_ts == self.end_ts,
            res.user_id == self.user_id,
            res.logs@ == self.logs@,
    {
        Update {
            id: self.id.clone(),
            target_kind: self.target_kind,
            target_id: self.target_id.clone(),
            operation: self.operation,
            status: self.status,
            success: self.success,
            start_ts: self.start_ts,
            end_ts: self.end_ts,
            user_id: self.user_id.clone(),
            logs: clone_logs(&self.logs),
        }
    }
}

impl Update {
    /// Every log in the update succeeded.
    pub open spec fn spec_all_logs_success(self) -> bool {
        forall|i: int| 0 <= i < self.logs@.len() ==> #[trigger] self.logs@[i].success
    }

    /// No log ends later than `ts`.
    pub open spec fn logs_end_by(self, ts: Timestamp) -> bool {
        forall|i: int| 0 <= i < self.logs@.len() ==> #[trigger] self.logs@[i].end_ts <= ts
    }

    /// A finalised update's timestamps are ordered: it ends no earlier than
    /// it started, and no log ends after the update does.
    pub open spec fn times_ordered(self) -> bool {
        &&& self.start_ts <= self.end_ts
        &&& self.logs_end_by(self.end_ts)
    }

    /// A fresh record for an operation issued by `user_id` at `now`,
    /// queued, with no logs yet.
    pub fn new(
        target_kind: ResourceKind,
        target_id: String,
        operation: Operation,
        user_id: String,
        now: Timestamp,
    ) -> (update: Update)
        ensures
            update.target_kind == target_kind,
            update.target_id == target_id,
            update.operation == operation,
            update.user_id == user_id,
            update.status == UpdateStatus::Queued,
            update.start_ts == now,
            update.logs@ == Seq::<Log>::empty(),
            update.id@ == Seq::<char>::empty(),
    {
        Update {
            id: String::new(),
            target_kind,
            target_id,
            operation,
            status: UpdateStatus::Queued,
            success: false,
            start_ts: now,
            end_ts: now,
            user_id,
            logs: Vec::new(),
        }
    }

    /// Mark the record in progress; everything else is untouched.
    pub fn in_progress(&mut self)
        ensures
            *final(self) == (Update { status: UpdateStatus::InProgress, ..*old(self) }),
    {
        self.status = UpdateStatus::InProgress;
    }

    /// Append a log; order of appends is the order of the record.
    pub fn push_log(&mut self, log: Log)
        ensures
            final(self).logs@ == old(self).logs@.push(log),
            *final(self) == (Update { logs: final(self).logs, ..*old(self) }),
    {
        self.logs.push(log);
    }

    /// Append an informational log line.
    pub fn push_simple_log(&mut self, stage: &str, msg: String, now: Timestamp)
        ensures
            final(self).logs@.len() == old(self).logs@.len() + 1,
            final(self).logs@ == old(self).logs@.push(final(self).logs@.last()),
            final(self).logs@.last().stage@ == stage@,
            final(self).logs@.last().stdout == msg,
            final(self).logs@.last().success,
            final(self).logs@.last().start_ts == now,
            final(self).logs@.last().end_ts == now,
            *final(self) == (Update { logs: final(self).logs, ..*old(self) }),
    {
        let log = Log::simple(stage, msg, now);
        self.logs.push(log);
    }

    /// Append a failure log line.
    pub fn push_error_log(&mut self, stage: &str, msg: String, now: Timestamp)
        ensures
            final(self).logs@.len() == old(self).logs@.len() + 1,
            final(self).logs@ == old(self).logs@.push(final(self).logs@.last()),
            final(self).logs@.last().stage@ == stage@,
            final(self).logs@.last().stderr == msg,
            !final(self).logs@.last().success,
            final(self).logs@.last().start_ts == now,
            final(self).logs@.last().end_ts == now,
            *final(self) == (Update { logs: final(self).logs, ..*old(self) }),
    {
        let log = Log::error(stage, msg, now);
        self.logs.push(log);
    }

    /// All logs succeeded, decided executably.
    pub fn all_logs_success(&self) -> (r: bool)
        ensures
            r == self.spec_all_logs_success(),
    {
        let mut i: usize = 0;
        while i < self.logs.len()
            invariant
                i <= self.logs@.len(),
                forall|j: int| 0 <= j < i ==> #[trigger] self.logs@[j].success,
            decreases self.logs@.len() - i,
        {
            if !self.logs[i].success {
                return false;
            }
            i += 1;
        }
        true
    }

    /// Finalise the record: success iff every log succeeded, end stamped at
    /// `now`, status complete. The clock is monotonic, so `now` is no
    /// earlier than the start or than any log's end.
    pub fn finalize(&mut self, now: Timestamp)
        requires
            old(self).start_ts <= now,
            old(self).logs_end_by(now),
        ensures
            final(self).status == UpdateStatus::Complete,
            final(self).success == old(self).spec_all_logs_success(),
            final(self).end_ts == now,
            final(self).times_ordered(),
            final(self).logs == old(self).logs,
            final(self).start_ts == old(self).start_ts,
            final(self).id == old(self).id,
            final(self).target_kind == old(self).target_kind,
            final(self).target_id == old(self).target_id,
            final(self).operation == old(self).operation,
            final(self).user_id == old(self).user_id,
    {
        self.success = self.all_logs_success();
        self.end_ts = now;
        self.status = UpdateStatus::Complete;
    }

    /// The janitor's sweep at startup: an update still in progress is
    /// finalised as failed with a synthetic log line saying why.
    pub fn finalize_stale(&mut self, now: Timestamp)
        requires
            old(self).status == UpdateStatus::InProgress,
            old(self).start_ts <= now,
            old(self).logs_end_by(now),
        ensures
            final(self).status == UpdateStatus::Complete,
            !final(self).success,
            final(self).end_ts == now,
            final(self).times_ordered(),
            final(self).logs@.len() == old(self).logs@.len() + 1,
            final(self).logs@.subrange(0, old(self).logs@.len() as int) == old(self).logs@,
            final(self).logs@.last().stdout@ == "core restart while in-progress"@,
    {
        let len = self.logs.len();
        let ghost prior = self.logs@;
        self.logs.push(Log::simple("janitor", "core restart while in-progress".to_owned(), now));
        self.success = false;
        self.end_ts = now;
        self.status = UpdateStatus::Complete;
        proof {
            assert(self.logs@.subrange(0, prior.len() as int) =~= prior);
        }
    }
}

} // verus!
