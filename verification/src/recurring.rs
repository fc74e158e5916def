//! Runs of recurring work-order templates: whether a template may run, what
//! a run is titled and asks for, and which earlier deliverables it carries.

use vstd::prelude::*;
use crate::error::KernelError;
use crate::orchestrator::{
    AttachmentSpec, Orchestrator, attachment_content_type, infer_attachment_content_type,
    opt_view, work_order_payload,
};
use crate::text::{i64_text, int_text, owned, str_equals};

use crate::paths::{file_name_extension, last_segment, portable_file_path};
use crate::registry::RecurringWorkOrderScheduleRecord;
use crate::schedule::{
    compute_next_recurring_run_at, from_broken_down_error, next_run, schedule_arithmetic_fits,
    to_broken_down_error,
};
use crate::calendar::{FIRST_FOUR_DIGIT_SECOND, MAX_TIMESTAMP, timestamp_text};

verus! {

/// A template that may no longer run: cancelled or archived.
pub open spec fn template_retired(status: Seq<char>) -> bool {
    status == "CANCELLED"@ || status == "ARCHIVED"@
}

/// Refuses to run a retired template.
pub fn check_template_runnable(template_id: &str, status: &str) -> (r: Result<(), KernelError>)
    ensures
        template_retired(status@) ==> (r matches Err(KernelError::Internal(m)) && m@
            == "Recurring template "@ + template_id@ + " is not runnable in status "@ + status@),
        !template_retired(status@) ==> r is Ok,
{
    if str_equals(status, "CANCELLED") || str_equals(status, "ARCHIVED") {
        let mut m = owned("Recurring template ");
        m.append(template_id);
        m.append(" is not runnable in status ");
        m.append(status);
        return Err(KernelError::Internal(m));
    }
    Ok(())
}

/// What one run of a template asks for.
pub struct RecurringRunStart {
    pub run_title: String,
    pub payload: String,
    pub assignee_agent_id: String,
}

/// The run's title, its work-order payload, and its assignee (the
/// template's assignee, else its owner).
pub fn plan_recurring_run(
    template_title: &str,
    outcome: &str,
    constraints: Option<&str>,
    assignee_agent_id: Option<&str>,
    owner_agent_id: &str,
    run_number: i64,
) -> (r: RecurringRunStart)
    ensures
        r.run_title@ == template_title@ + " (Run #"@ + int_text(run_number as int) + ")"@,
        r.payload@ == work_order_payload(r.run_title@, outcome@, opt_view(constraints)),
        r.assignee_agent_id@ == match assignee_agent_id {
            Some(a) => a@,
            None => owner_agent_id@,
        },
{
    let run_title = Orchestrator::recurring_run_title(template_title, run_number);
    let payload = Orchestrator::build_work_order_payload(run_title.as_str(), outcome, constraints);
    let assignee = match assignee_agent_id {
        Some(a) => owned(a),
        None => owned(owner_agent_id),
    };
    RecurringRunStart { run_title, payload, assignee_agent_id: assignee }
}

/// The status a new run starts in: running when its work order was claimed,
/// queued otherwise.
pub fn recurring_run_status(claimed: u64) -> (r: &'static str)
    ensures
        r@ == (if claimed > 0 {
            "RUNNING"@
        } else {
            "QUEUED"@
        }),
{
    if claimed > 0 {
        "RUNNING"
    } else {
        "QUEUED"
    }
}

/// An earlier run's deliverable, attached to a new run.
pub fn prior_artifact_attachment(
    new_run_id: &str,
    artifact_id: i64,
    filename: &str,
    absolute_path: &str,
    size_bytes: i64,
    prior_swo_id: i64,
) -> (r: AttachmentSpec)
    ensures
        r.attachment_id@ == new_run_id@ + "-artifact-"@ + int_text(artifact_id as int),
        r.source_kind@ == "outbox_artifact"@,
        r.display_name@ == filename@,
        r.original_path@ == absolute_path@,
        exists|ext: Option<Seq<char>>| r.content_type@ == attachment_content_type(ext),
        portable_file_path(absolute_path@) ==> r.content_type@ == attachment_content_type(
            file_name_extension(last_segment(absolute_path@)),
        ),
        r.size_bytes == size_bytes,
        r.originating_swo_id == Some(prior_swo_id),
        r.originating_artifact_id == Some(artifact_id),
{
    let mut id = owned(new_run_id);
    id.append("-artifact-");
    id.append(i64_text(artifact_id).as_str());
    AttachmentSpec {
        attachment_id: id,
        source_kind: owned("outbox_artifact"),
        display_name: owned(filename),
        original_path: owned(absolute_path),
        content_type: infer_attachment_content_type(absolute_path),
        size_bytes,
        originating_swo_id: Some(prior_swo_id),
        originating_artifact_id: Some(artifact_id),
    }
}

/// Whether a run moves its template's next run time: runs the schedule
/// starts do; runs triggered by hand leave it as it was.
pub fn run_advances_schedule(trigger_source: &str) -> (r: bool)
    ensures
        r == (trigger_source@ == "schedule"@),
{
    str_equals(trigger_source, "schedule")
}

/// The template's next run time once a run has been queued: the next run
/// after `now_unix_secs` when the run advances the schedule, else the time
/// the template already had.
pub fn next_run_at_after_run(
    advance: bool,
    schedule: &RecurringWorkOrderScheduleRecord,
    now_unix_secs: i64,
    current: Option<String>,
) -> (r: Result<Option<String>, KernelError>)
    requires
        advance ==> schedule_arithmetic_fits(schedule, now_unix_secs as int),
        advance && schedule.cadence@ == "hourly"@ ==> FIRST_FOUR_DIGIT_SECOND <= next_run(
            schedule,
            now_unix_secs as int,
        ),
    ensures
        advance ==> (r is Ok <==> (now_unix_secs <= MAX_TIMESTAMP && (0 <= now_unix_secs
            || schedule.cadence@ == "hourly"@) && next_run(schedule, now_unix_secs as int)
            <= MAX_TIMESTAMP)),
        advance ==> (r matches Ok(v) ==> (v matches Some(s) && s@ == timestamp_text(
            next_run(schedule, now_unix_secs as int),
        ))),
        advance ==> (r matches Err(e) ==> (e matches KernelError::Internal(m) && (m@
            == to_broken_down_error() || m@ == from_broken_down_error()))),
        !advance ==> r == Ok::<Option<String>, KernelError>(current),
{
    if advance {
        match compute_next_recurring_run_at(schedule, now_unix_secs) {
            Ok(s) => Ok(Some(s)),
            Err(e) => Err(e),
        }
    } else {
        Ok(current)
    }
}

} // verus!
