//! Automations: the limits on a new automation and the definition it gets.
//! New automations always start disabled.

use vstd::prelude::*;
use crate::error::{ErrorKind, ErrorView, ObError, err_of, res_view};
use crate::json::JsonValue;
use crate::models::RiskLevel;
use crate::text::{chars_of, owned, trim_chars, trimmed};

verus! {

/// Most steps an automation may have.
pub const MAX_AUTOMATION_ACTIONS: u32 = 100;

/// A stored automation.
pub struct AutomationDefinition {
    pub id: String,
    pub name: String,
    pub trigger: JsonValue,
    pub steps: Vec<JsonValue>,
    pub permission_scope: JsonValue,
    pub risk: RiskLevel,
    pub enabled: bool,
    pub maximum_actions: u32,
    pub created_at: String,
    pub updated_at: String,
}

/// Whether an automation with this name and number of steps may be created.
pub open spec fn automation_verdict(name: Seq<char>, steps: nat) -> Result<(), ErrorView> {
    if trimmed(name).len() == 0 || steps == 0 {
        Err(err_of(ErrorKind::Validation, "Automation requires a name and at least one step"@))
    } else if steps > MAX_AUTOMATION_ACTIONS {
        Err(err_of(ErrorKind::Validation, "Automation exceeds the 100-action hard limit"@))
    } else {
        Ok(())
    }
}

/// Checks the name and the number of steps of a new automation.
pub fn check_automation(name: &str, steps: usize) -> (r: Result<(), ObError>)
    ensures
        res_view(r) == automation_verdict(name@, steps as nat),
{
    let c = chars_of(name);
    let t = trim_chars(&c);
    if t.len() == 0 || steps == 0 {
        return Err(ObError::Validation(owned("Automation requires a name and at least one step")));
    }
    if steps > 100 {
        return Err(ObError::Validation(owned("Automation exceeds the 100-action hard limit")));
    }
    Ok(())
}

/// The definition of a newly created automation: disabled, limited to the
/// hard maximum of actions, created and updated at `now`.
pub fn new_definition(
    id: String,
    name: &str,
    trigger: JsonValue,
    steps: Vec<JsonValue>,
    permission_scope: JsonValue,
    risk: RiskLevel,
    now: String,
) -> (r: AutomationDefinition)
    ensures
        r.id@ == id@,
        r.name@ == name@,
        r.trigger == trigger,
        r.steps == steps,
        r.permission_scope == permission_scope,
        r.risk == risk,
        !r.enabled,
        r.maximum_actions == MAX_AUTOMATION_ACTIONS,
        r.created_at@ == now@,
        r.updated_at@ == now@,
{
    let created = now.clone();
    AutomationDefinition {
        id,
        name: owned(name),
        trigger,
        steps,
        permission_scope,
        risk,
        enabled: false,
        maximum_actions: MAX_AUTOMATION_ACTIONS,
        created_at: created,
        updated_at: now,
    }
}

/// An automation that passes the checks has between one and a hundred steps.
pub proof fn law_automation_sizes(name: Seq<char>, steps: nat)
    ensures
        automation_verdict(name, steps) is Ok ==> 1 <= steps <= 100,
{
}

} // verus!
