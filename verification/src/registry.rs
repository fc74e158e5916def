//! Plain records that the kernel registry hands to the policy code.

use vstd::prelude::*;

verus! {

/// An agent as stored in the registry: identity, place in the org tree and
/// provider defaults.
pub struct AgentIdentity {
    pub id: String,
    pub name: String,
    pub parent_id: Option<String>,
    pub role: String,
    pub persona_prompt: String,
    pub raison_detre: String,
    pub default_provider: String,
    pub default_model: String,
    pub cron_interval_seconds: Option<i64>,
    pub triage_model: Option<String>,
    pub execution_model: Option<String>,
}


/// When a recurring work order fires: cadence (`hourly`, `daily`, `weekly`,
/// `monthly` or `custom`), interval, and the time fields that apply.
pub struct RecurringWorkOrderScheduleRecord {
    pub cadence: String,
    pub interval: i64,
    pub timezone: String,
    pub days_of_week: Option<Vec<i64>>,
    pub day_of_month: Option<i64>,
    pub hour: Option<i64>,
    pub minute: Option<i64>,
    pub cron_expression: Option<String>,
}

} // verus!
