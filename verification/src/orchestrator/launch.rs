//! The settings that an agent is launched with.

use vstd::prelude::*;

use crate::setup::Agent;

use crate::text::{copy_optional, optional_view, same};
use crate::record::GoalExecution;

verus! {

/// The settings of one agent: the model and the effort that it is bound to, and whether it may only read.
#[derive(Debug, Clone, PartialEq, Eq)]
pub struct AgentSettings {
    pub model: Option<String>,
    pub effort: Option<String>,
    pub read_only: bool,
}

/// The settings of a project that a launch goes by: its checks, and what each agent is bound to.
#[derive(Debug, Clone, PartialEq, Eq)]
pub struct LaunchSettings {
    pub verify: Vec<String>,
    pub claude: AgentSettings,
    pub codex: AgentSettings,
}

/// The settings of an agent. All others go by those of Codex.
pub open spec fn settings_for(s: LaunchSettings, agent: Agent) -> AgentSettings {
    if agent == Agent::Claude {
        s.claude
    } else {
        s.codex
    }
}

/// Whether settings differ in those of one agent at most, and perhaps in the checks.
pub open spec fn others_kept(a: LaunchSettings, b: LaunchSettings, agent: Agent) -> bool {
    if agent == Agent::Claude {
        a.codex == b.codex
    } else {
        a.claude == b.claude
    }
}

/// The settings of a planned invocation on an agent. A planner may only read. No check runs with the agent:
/// the checks of planned work run in a workspace of their own.
pub fn invocation_settings(project: LaunchSettings, agent: Agent, role: &str) -> (r: LaunchSettings)
    ensures
        r.verify@.len() == 0,
        others_kept(r, project, agent),
        settings_for(r, agent) == (AgentSettings {
            read_only: settings_for(project, agent).read_only || role@ == "planner"@,
            ..settings_for(project, agent)
        }),
{
    let mut out = project;
    out.verify = Vec::new();
    if same(role, "planner") {
        match agent {
            Agent::Claude => {
                out.claude.read_only = true;
            },
            _ => {
                out.codex.read_only = true;
            },
        }
    }
    out
}

/// The settings that a recovery is chosen under: what the attempt before it was bound to is no constraint
/// of the project, so its agent goes back to what the goal fixed.
pub fn recovery_settings(project: LaunchSettings, previous: Agent, policy: &GoalExecution) -> (r:
    LaunchSettings)
    ensures
        r.verify == project.verify,
        others_kept(r, project, previous),
        settings_for(r, previous).read_only == settings_for(project, previous).read_only,
        optional_view(settings_for(r, previous).model) == optional_view(policy.fixed_model),
        optional_view(settings_for(r, previous).effort) == optional_view(policy.fixed_effort),
{
    let mut out = project;
    let model = copy_optional(&policy.fixed_model);
    let effort = copy_optional(&policy.fixed_effort);
    match previous {
        Agent::Claude => {
            out.claude.model = model;
            out.claude.effort = effort;
        },
        _ => {
            out.codex.model = model;
            out.codex.effort = effort;
        },
    }
    out
}

} // verus!
