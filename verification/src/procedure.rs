//! Procedures: ordered stages of executions, and the update protocol
//! around one run.
//!
//! A stage runs its executions together and succeeds only when every one
//! of them does. The procedure runs its stages in order and stops at the
//! first failing stage unless that stage asks to continue on error. The
//! run's update opens in progress with a line naming the procedure and
//! closes with a line saying how the run ended.

use vstd::prelude::*;

use crate::update::{Operation, ResourceKind, Timestamp, Update, UpdateStatus};

verus! {

/// One stage's outcome and whether its failure lets the run go on.
#[derive(Clone, Copy, PartialEq, Eq, Structural, Debug)]
pub struct StageOutcome {
    pub success: bool,
    pub continue_on_error: bool,
}

/// A stage succeeds exactly when all its executions do.
pub fn stage_success(children: &Vec<bool>) -> (r: bool)
    ensures
        r == forall|k: int| 0 <= k < children@.len() ==> #[trigger] children@[k],
{
    let mut k: usize = 0;
    while k < children.len()
        invariant
            k <= children@.len(),
            forall|m: int| 0 <= m < k ==> #[trigger] children@[m],
        decreases children@.len() - k,
    {
        if !children[k] {
            return false;
        }
        k += 1;
    }
    true
}

/// The number of stages a run executes: everything up to and including
/// the first failing stage not marked continue-on-error, or all of them.
pub open spec fn stages_executed(stages: Seq<StageOutcome>) -> int
    decreases stages.len(),
{
    if stages.len() == 0 {
        0
    } else if !stages[0].success && !stages[0].continue_on_error {
        1
    } else {
        1 + stages_executed(stages.skip(1))
    }
}

/// Every executed stage succeeded.
pub open spec fn stages_all_ok(stages: Seq<StageOutcome>, upto: int) -> bool {
    forall|k: int| 0 <= k < upto ==> (#[trigger] stages[k]).success
}

/// Walk a run's stage outcomes: how many stages ran before the run
/// stopped, and whether every stage that ran succeeded — the procedure's
/// own outcome.
pub fn procedure_outcome(stages: &Vec<StageOutcome>) -> (r: (usize, bool))
    ensures
        r.0 == stages_executed(stages@),
        r.1 == stages_all_ok(stages@, r.0 as int),
        r.0 <= stages@.len(),
{
    let mut i: usize = 0;
    let mut all_ok = true;
    proof {
        assert(stages@.skip(0) =~= stages@);
    }
    while i < stages.len()
        invariant
            i <= stages@.len(),
            all_ok == stages_all_ok(stages@, i as int),
            stages_executed(stages@) == i + stages_executed(stages@.skip(i as int)),
        decreases stages@.len() - i,
    {
        let st = stages[i];
        proof {
            assert(stages@.skip(i as int)[0] == stages@[i as int]);
            assert(stages@.skip(i as int).skip(1) =~= stages@.skip(i + 1));
            if i + 1 < stages@.len() {
                lemma_stages_executed_bounds(stages@.skip(i + 1));
            }
        }
        if !st.success && !st.continue_on_error {
            let executed = i + 1;
            let ok = all_ok && st.success;
            proof {
                assert(stages_executed(stages@.skip(i as int)) == 1);
                assert(!stages_all_ok(stages@, executed as int));
            }
            return (executed, ok);
        }
        all_ok = all_ok && st.success;
        i += 1;
        proof {
            assert(stages_all_ok(stages@, i as int) == (stages_all_ok(stages@, i - 1)
                && stages@[i - 1].success));
        }
    }
    proof {
        assert(stages@.skip(stages@.len() as int) =~= Seq::<StageOutcome>::empty());
    }
    (i, all_ok)
}

/// A run executes at least one stage when there is one, and never more
/// than there are.
proof fn lemma_stages_executed_bounds(stages: Seq<StageOutcome>)
    ensures
        0 <= stages_executed(stages) <= stages.len(),
        stages.len() > 0 ==> stages_executed(stages) >= 1,
    decreases stages.len(),
{
    if stages.len() > 0 && (stages[0].success || stages[0].continue_on_error) {
        lemma_stages_executed_bounds(stages.skip(1));
    }
}

/// Open a run's update: in progress, with one line naming the procedure.
pub fn begin_procedure_update(
    procedure_id: String,
    procedure_name: &str,
    user_id: String,
    now: Timestamp,
) -> (update: Update)
    ensures
        update.target_kind == ResourceKind::Procedure,
        update.target_id == procedure_id,
        update.operation == Operation::RunProcedure,
        update.user_id == user_id,
        update.status == UpdateStatus::InProgress,
        update.start_ts == now,
        update.logs@.len() == 1,
        update.logs@[0].stage@ == "execute procedure"@,
        update.logs@[0].stdout@ == "Executing procedure: "@ + procedure_name@,
        update.logs@[0].success,
        update.logs@[0].end_ts == now,
{
    let mut update = Update::new(
        ResourceKind::Procedure,
        procedure_id,
        Operation::RunProcedure,
        user_id,
        now,
    );
    update.in_progress();
    let mut msg = String::new();
    msg.append("Executing procedure: ");
    msg.append(procedure_name);
    update.push_simple_log("execute procedure", msg, now);
    proof {
        assert(update.logs@[0] == update.logs@.last());
    }
    update
}

/// Close a run's update: a success line when the run completed without
/// errors, an error line carrying the failure otherwise, then the record
/// is finalised — successful exactly when every log succeeded.
pub fn finish_procedure_update(update: &mut Update, error: Option<String>, now: Timestamp)
    requires
        old(update).start_ts <= now,
        old(update).logs_end_by(now),
    ensures
        final(update).status == UpdateStatus::Complete,
        final(update).times_ordered(),
        final(update).end_ts == now,
        final(update).logs@.len() == old(update).logs@.len() + 1,
        final(update).logs@.subrange(0, old(update).logs@.len() as int) == old(update).logs@,
        error is None ==> {
            let last = final(update).logs@.last();
            &&& last.stage@ == "execution ok"@
            &&& last.stdout@ == "the procedure has completed with no errors"@
            &&& last.success
        },
        error matches Some(msg) ==> {
            let last = final(update).logs@.last();
            &&& last.stage@ == "execution error"@
            &&& last.stderr == msg
            &&& !last.success
            &&& !final(update).success
        },
        error is None && old(update).spec_all_logs_success() ==> final(update).success,
    {
    let ghost prior = update.logs@;
    match error {
        Option::None => {
            update.push_simple_log(
                "execution ok",
                "the procedure has completed with no errors".to_owned(),
                now,
            );
        }
        Option::Some(msg) => {
            update.push_error_log("execution error", msg, now);
        }
    }
    update.finalize(now);
    proof {
        assert(update.logs@.subrange(0, prior.len() as int) =~= prior);
        assert(update.logs@.last() == update.logs@[prior.len() as int]);
    }
}

} // verus!
