//! The automation runtime's decisions: the tools it offers, the scope its state lives under,
//! what a fire, a command monitor and a terminal monitor deliver, and when they stop.
use crate::automation::AutomationJob;
use crate::automation::AutomationKind;
use crate::automation::DeliveryAcknowledgement;
use crate::automation::DeliveryLeaseRequest;
use crate::automation::MonitorDefinition;
use crate::json::json_quote;
use crate::text::ascii_lower;
use crate::text::concat;
use crate::text::concat3;
use crate::text::concat5;
use crate::text::contains_seq;
use crate::text::decimal;
use crate::text::signed_decimal;
use crate::text::spec_approx_tokens;
use vstd::prelude::*;

verus! {

/// Largest approximate token count of an automation tool's result.
pub const MAX_AUTOMATION_TOOL_OUTPUT_TOKENS: usize = 8000;

/// How long a scheduler's claim on a due fire lasts, in milliseconds.
pub const DELIVERY_LEASE_MILLIS: i64 = 30000;

/// Poll interval of a terminal monitor created without one, in seconds.
pub const DEFAULT_MONITOR_POLL_SECONDS: u64 = 5;

// ---------------------------------------------------------------------------
// Tools
// ---------------------------------------------------------------------------

/// A function tool as offered to the model: its name, its description and the JSON schema of
/// its arguments.
#[derive(Clone, Debug, PartialEq, Eq)]
pub struct FunctionToolSpec {
    pub name: String,
    pub description: String,
    pub parameters: String,
}

/// The automation tools, the last four under the names the external team runtime gives them.
#[derive(Clone, Copy, Debug, PartialEq, Eq, Structural)]
pub enum AutomationToolKind {
    LoopCreate,
    LoopList,
    LoopStop,
    CronCreate,
    CronList,
    CronUpdate,
    CronDelete,
    CronRun,
    MonitorStart,
    MonitorList,
    MonitorStop,
    CronCreateClaude,
    CronListClaude,
    CronDeleteClaude,
    MonitorClaude,
}

impl AutomationToolKind {
    /// The name the model calls the tool by.
    pub open spec fn name_of(self) -> Seq<char> {
        match self {
            AutomationToolKind::LoopCreate => "loop_create"@,
            AutomationToolKind::LoopList => "loop_list"@,
            AutomationToolKind::LoopStop => "loop_stop"@,
            AutomationToolKind::CronCreate => "cron_create"@,
            AutomationToolKind::CronList => "cron_list"@,
            AutomationToolKind::CronUpdate => "cron_update"@,
            AutomationToolKind::CronDelete => "cron_delete"@,
            AutomationToolKind::CronRun => "cron_run"@,
            AutomationToolKind::MonitorStart => "monitor_start"@,
            AutomationToolKind::MonitorList => "monitor_list"@,
            AutomationToolKind::MonitorStop => "monitor_stop"@,
            AutomationToolKind::CronCreateClaude => "CronCreate"@,
            AutomationToolKind::CronListClaude => "CronList"@,
            AutomationToolKind::CronDeleteClaude => "CronDelete"@,
            AutomationToolKind::MonitorClaude => "Monitor"@,
        }
    }

    /// The name the model calls the tool by.
    pub fn name(self) -> (r: &'static str)
        ensures
            r@ == self.name_of(),
    {
        match self {
            AutomationToolKind::LoopCreate => "loop_create",
            AutomationToolKind::LoopList => "loop_list",
            AutomationToolKind::LoopStop => "loop_stop",
            AutomationToolKind::CronCreate => "cron_create",
            AutomationToolKind::CronList => "cron_list",
            AutomationToolKind::CronUpdate => "cron_update",
            AutomationToolKind::CronDelete => "cron_delete",
            AutomationToolKind::CronRun => "cron_run",
            AutomationToolKind::MonitorStart => "monitor_start",
            AutomationToolKind::MonitorList => "monitor_list",
            AutomationToolKind::MonitorStop => "monitor_stop",
            AutomationToolKind::CronCreateClaude => "CronCreate",
            AutomationToolKind::CronListClaude => "CronList",
            AutomationToolKind::CronDeleteClaude => "CronDelete",
            AutomationToolKind::MonitorClaude => "Monitor",
        }
    }

    /// Every automation tool, in the order they are offered.
    pub fn all() -> (r: Vec<AutomationToolKind>)
        ensures
            r@ == seq![
                AutomationToolKind::LoopCreate,
                AutomationToolKind::LoopList,
                AutomationToolKind::LoopStop,
                AutomationToolKind::CronCreate,
                AutomationToolKind::CronList,
                AutomationToolKind::CronUpdate,
                AutomationToolKind::CronDelete,
                AutomationToolKind::CronRun,
                AutomationToolKind::MonitorStart,
                AutomationToolKind::MonitorList,
                AutomationToolKind::MonitorStop,
                AutomationToolKind::CronCreateClaude,
                AutomationToolKind::CronListClaude,
                AutomationToolKind::CronDeleteClaude,
                AutomationToolKind::MonitorClaude,
            ],
    {
        vec![
            AutomationToolKind::LoopCreate,
            AutomationToolKind::LoopList,
            AutomationToolKind::LoopStop,
            AutomationToolKind::CronCreate,
            AutomationToolKind::CronList,
            AutomationToolKind::CronUpdate,
            AutomationToolKind::CronDelete,
            AutomationToolKind::CronRun,
            AutomationToolKind::MonitorStart,
            AutomationToolKind::MonitorList,
            AutomationToolKind::MonitorStop,
            AutomationToolKind::CronCreateClaude,
            AutomationToolKind::CronListClaude,
            AutomationToolKind::CronDeleteClaude,
            AutomationToolKind::MonitorClaude,
        ]
    }

    /// The tool's description for the model.
    pub open spec fn description_of(self) -> Seq<char> {
        match self {
            AutomationToolKind::LoopCreate => "Create a durable recurring self-loop. Exactly one of every_seconds or every_minutes is required. Each fire enters Codex through native inter-agent delivery and wakes an idle thread."@,
            AutomationToolKind::LoopList => "List recurring self-loops for this thread identity."@,
            AutomationToolKind::LoopStop => "Stop and delete a recurring self-loop."@,
            AutomationToolKind::CronCreate => "Create a durable UTC cron. Five-field expressions are accepted and run at second zero; six- and seven-field expressions are also accepted."@,
            AutomationToolKind::CronList => "List durable UTC cron jobs for this thread identity."@,
            AutomationToolKind::CronUpdate => "Update a cron prompt, expression, or enabled state."@,
            AutomationToolKind::CronDelete => "Delete a durable cron job."@,
            AutomationToolKind::CronRun => "Run a cron or loop immediately through native inter-agent delivery."@,
            AutomationToolKind::MonitorStart => "Attach a native monitor to an existing unified-exec process ID. This never launches a command. It wakes Codex when output matches, the process exits, or attachment fails."@,
            AutomationToolKind::MonitorList => "List native background-terminal monitors."@,
            AutomationToolKind::MonitorStop => "Stop a native background-terminal monitor."@,
            AutomationToolKind::CronCreateClaude => "Schedule a prompt on a recurring UTC cron. Standard 5-field cron expression. Each fire enters through native inter-agent delivery and wakes an idle thread. (compatibility alias of cron_create.)"@,
            AutomationToolKind::CronListClaude => "List scheduled cron jobs for this thread identity. (compatibility alias of cron_list.)"@,
            AutomationToolKind::CronDeleteClaude => "Cancel a cron job by id. (compatibility alias of cron_delete.)"@,
            AutomationToolKind::MonitorClaude => "Launch a command and stream its output as wake events: each stdout line (optionally filtered by `contains`) wakes this thread. Use for standing listeners (e.g. `campaign.py listen`, `peer.py listen`). Unlike monitor_start, this LAUNCHES the command. Set persistent=true for session-length watches. Stop via monitor_stop with the returned id."@,
        }
    }

    /// The tool's description for the model.
    pub fn description(self) -> (r: &'static str)
        ensures
            r@ == self.description_of(),
    {
        match self {
            AutomationToolKind::LoopCreate => "Create a durable recurring self-loop. Exactly one of every_seconds or every_minutes is required. Each fire enters Codex through native inter-agent delivery and wakes an idle thread.",
            AutomationToolKind::LoopList => "List recurring self-loops for this thread identity.",
            AutomationToolKind::LoopStop => "Stop and delete a recurring self-loop.",
            AutomationToolKind::CronCreate => "Create a durable UTC cron. Five-field expressions are accepted and run at second zero; six- and seven-field expressions are also accepted.",
            AutomationToolKind::CronList => "List durable UTC cron jobs for this thread identity.",
            AutomationToolKind::CronUpdate => "Update a cron prompt, expression, or enabled state.",
            AutomationToolKind::CronDelete => "Delete a durable cron job.",
            AutomationToolKind::CronRun => "Run a cron or loop immediately through native inter-agent delivery.",
            AutomationToolKind::MonitorStart => "Attach a native monitor to an existing unified-exec process ID. This never launches a command. It wakes Codex when output matches, the process exits, or attachment fails.",
            AutomationToolKind::MonitorList => "List native background-terminal monitors.",
            AutomationToolKind::MonitorStop => "Stop a native background-terminal monitor.",
            AutomationToolKind::CronCreateClaude => "Schedule a prompt on a recurring UTC cron. Standard 5-field cron expression. Each fire enters through native inter-agent delivery and wakes an idle thread. (compatibility alias of cron_create.)",
            AutomationToolKind::CronListClaude => "List scheduled cron jobs for this thread identity. (compatibility alias of cron_list.)",
            AutomationToolKind::CronDeleteClaude => "Cancel a cron job by id. (compatibility alias of cron_delete.)",
            AutomationToolKind::MonitorClaude => "Launch a command and stream its output as wake events: each stdout line (optionally filtered by `contains`) wakes this thread. Use for standing listeners (e.g. `campaign.py listen`, `peer.py listen`). Unlike monitor_start, this LAUNCHES the command. Set persistent=true for session-length watches. Stop via monitor_stop with the returned id.",
        }
    }

    /// The JSON schema of the tool's arguments, as compact JSON with its keys in order.
    pub open spec fn parameters_of(self) -> Seq<char> {
        match self {
            AutomationToolKind::LoopCreate => "{\"additionalProperties\":false,\"properties\":{\"every_minutes\":{\"minimum\":1,\"type\":\"integer\"},\"every_seconds\":{\"minimum\":1,\"type\":\"integer\"},\"name\":{\"type\":\"string\"},\"prompt\":{\"type\":\"string\"}},\"required\":[\"prompt\"],\"type\":\"object\"}"@,
            AutomationToolKind::LoopList => "{\"additionalProperties\":false,\"properties\":{},\"type\":\"object\"}"@,
            AutomationToolKind::LoopStop => "{\"additionalProperties\":false,\"properties\":{\"id\":{\"type\":\"string\"}},\"required\":[\"id\"],\"type\":\"object\"}"@,
            AutomationToolKind::CronCreate => "{\"additionalProperties\":false,\"properties\":{\"expression\":{\"type\":\"string\"},\"name\":{\"type\":\"string\"},\"prompt\":{\"type\":\"string\"}},\"required\":[\"expression\",\"prompt\"],\"type\":\"object\"}"@,
            AutomationToolKind::CronList => "{\"additionalProperties\":false,\"properties\":{},\"type\":\"object\"}"@,
            AutomationToolKind::CronUpdate => "{\"additionalProperties\":false,\"properties\":{\"enabled\":{\"type\":\"boolean\"},\"expression\":{\"type\":\"string\"},\"id\":{\"type\":\"string\"},\"prompt\":{\"type\":\"string\"}},\"required\":[\"id\"],\"type\":\"object\"}"@,
            AutomationToolKind::CronDelete => "{\"additionalProperties\":false,\"properties\":{\"id\":{\"type\":\"string\"}},\"required\":[\"id\"],\"type\":\"object\"}"@,
            AutomationToolKind::CronRun => "{\"additionalProperties\":false,\"properties\":{\"id\":{\"type\":\"string\"}},\"required\":[\"id\"],\"type\":\"object\"}"@,
            AutomationToolKind::MonitorStart => "{\"additionalProperties\":false,\"properties\":{\"contains\":{\"type\":\"string\"},\"name\":{\"type\":\"string\"},\"once\":{\"type\":\"boolean\"},\"poll_seconds\":{\"maximum\":3600,\"minimum\":1,\"type\":\"integer\"},\"process_id\":{\"type\":\"integer\"},\"prompt\":{\"type\":\"string\"}},\"required\":[\"process_id\",\"prompt\"],\"type\":\"object\"}"@,
            AutomationToolKind::MonitorList => "{\"additionalProperties\":false,\"properties\":{},\"type\":\"object\"}"@,
            AutomationToolKind::MonitorStop => "{\"additionalProperties\":false,\"properties\":{\"id\":{\"type\":\"string\"}},\"required\":[\"id\"],\"type\":\"object\"}"@,
            AutomationToolKind::CronCreateClaude => "{\"additionalProperties\":false,\"properties\":{\"cron\":{\"type\":\"string\"},\"durable\":{\"type\":\"boolean\"},\"prompt\":{\"type\":\"string\"},\"recurring\":{\"type\":\"boolean\"}},\"required\":[\"cron\",\"prompt\"],\"type\":\"object\"}"@,
            AutomationToolKind::CronListClaude => "{\"additionalProperties\":false,\"properties\":{},\"type\":\"object\"}"@,
            AutomationToolKind::CronDeleteClaude => "{\"additionalProperties\":false,\"properties\":{\"id\":{\"type\":\"string\"}},\"required\":[\"id\"],\"type\":\"object\"}"@,
            AutomationToolKind::MonitorClaude => "{\"additionalProperties\":false,\"properties\":{\"command\":{\"type\":\"string\"},\"contains\":{\"type\":\"string\"},\"description\":{\"type\":\"string\"},\"persistent\":{\"type\":\"boolean\"},\"timeout_ms\":{\"type\":\"integer\"}},\"required\":[\"command\"],\"type\":\"object\"}"@,
        }
    }

    /// The JSON schema of the tool's arguments, as compact JSON with its keys in order.
    pub fn parameters(self) -> (r: &'static str)
        ensures
            r@ == self.parameters_of(),
    {
        match self {
            AutomationToolKind::LoopCreate => "{\"additionalProperties\":false,\"properties\":{\"every_minutes\":{\"minimum\":1,\"type\":\"integer\"},\"every_seconds\":{\"minimum\":1,\"type\":\"integer\"},\"name\":{\"type\":\"string\"},\"prompt\":{\"type\":\"string\"}},\"required\":[\"prompt\"],\"type\":\"object\"}",
            AutomationToolKind::LoopList => "{\"additionalProperties\":false,\"properties\":{},\"type\":\"object\"}",
            AutomationToolKind::LoopStop => "{\"additionalProperties\":false,\"properties\":{\"id\":{\"type\":\"string\"}},\"required\":[\"id\"],\"type\":\"object\"}",
            AutomationToolKind::CronCreate => "{\"additionalProperties\":false,\"properties\":{\"expression\":{\"type\":\"string\"},\"name\":{\"type\":\"string\"},\"prompt\":{\"type\":\"string\"}},\"required\":[\"expression\",\"prompt\"],\"type\":\"object\"}",
            AutomationToolKind::CronList => "{\"additionalProperties\":false,\"properties\":{},\"type\":\"object\"}",
            AutomationToolKind::CronUpdate => "{\"additionalProperties\":false,\"properties\":{\"enabled\":{\"type\":\"boolean\"},\"expression\":{\"type\":\"string\"},\"id\":{\"type\":\"string\"},\"prompt\":{\"type\":\"string\"}},\"required\":[\"id\"],\"type\":\"object\"}",
            AutomationToolKind::CronDelete => "{\"additionalProperties\":false,\"properties\":{\"id\":{\"type\":\"string\"}},\"required\":[\"id\"],\"type\":\"object\"}",
            AutomationToolKind::CronRun => "{\"additionalProperties\":false,\"properties\":{\"id\":{\"type\":\"string\"}},\"required\":[\"id\"],\"type\":\"object\"}",
            AutomationToolKind::MonitorStart => "{\"additionalProperties\":false,\"properties\":{\"contains\":{\"type\":\"string\"},\"name\":{\"type\":\"string\"},\"once\":{\"type\":\"boolean\"},\"poll_seconds\":{\"maximum\":3600,\"minimum\":1,\"type\":\"integer\"},\"process_id\":{\"type\":\"integer\"},\"prompt\":{\"type\":\"string\"}},\"required\":[\"process_id\",\"prompt\"],\"type\":\"object\"}",
            AutomationToolKind::MonitorList => "{\"additionalProperties\":false,\"properties\":{},\"type\":\"object\"}",
            AutomationToolKind::MonitorStop => "{\"additionalProperties\":false,\"properties\":{\"id\":{\"type\":\"string\"}},\"required\":[\"id\"],\"type\":\"object\"}",
            AutomationToolKind::CronCreateClaude => "{\"additionalProperties\":false,\"properties\":{\"cron\":{\"type\":\"string\"},\"durable\":{\"type\":\"boolean\"},\"prompt\":{\"type\":\"string\"},\"recurring\":{\"type\":\"boolean\"}},\"required\":[\"cron\",\"prompt\"],\"type\":\"object\"}",
            AutomationToolKind::CronListClaude => "{\"additionalProperties\":false,\"properties\":{},\"type\":\"object\"}",
            AutomationToolKind::CronDeleteClaude => "{\"additionalProperties\":false,\"properties\":{\"id\":{\"type\":\"string\"}},\"required\":[\"id\"],\"type\":\"object\"}",
            AutomationToolKind::MonitorClaude => "{\"additionalProperties\":false,\"properties\":{\"command\":{\"type\":\"string\"},\"contains\":{\"type\":\"string\"},\"description\":{\"type\":\"string\"},\"persistent\":{\"type\":\"boolean\"},\"timeout_ms\":{\"type\":\"integer\"}},\"required\":[\"command\"],\"type\":\"object\"}",
        }
    }

    /// The tool as offered to the model: a function tool with its name, description and
    /// parameter schema.
    pub fn spec(self) -> (r: FunctionToolSpec)
        ensures
            r.name@ == self.name_of(),
            r.description@ == self.description_of(),
            r.parameters@ == self.parameters_of(),
    {
        FunctionToolSpec {
            name: crate::text::owned(self.name()),
            description: crate::text::owned(self.description()),
            parameters: crate::text::owned(self.parameters()),
        }
    }

    /// The kind of job a listing or deleting tool works on, if it works on jobs of one kind.
    pub fn job_kind(self) -> (r: Option<AutomationKind>)
        ensures
            r == match self {
                AutomationToolKind::LoopList | AutomationToolKind::LoopStop => Some(AutomationKind::Loop),
                AutomationToolKind::CronList | AutomationToolKind::CronDelete | AutomationToolKind::CronListClaude
                | AutomationToolKind::CronDeleteClaude => Some(AutomationKind::Cron),
                _ => None::<AutomationKind>,
            },
    {
        match self {
            AutomationToolKind::LoopList | AutomationToolKind::LoopStop => Some(AutomationKind::Loop),
            AutomationToolKind::CronList | AutomationToolKind::CronDelete | AutomationToolKind::CronListClaude
            | AutomationToolKind::CronDeleteClaude => Some(AutomationKind::Cron),
            _ => None,
        }
    }
}

/// The interval of a new loop from `every_seconds` or `every_minutes`: exactly one, positive.
pub open spec fn interval_seconds_of(every_seconds: Option<u64>, every_minutes: Option<u64>) -> Result<u64, Seq<char>> {
    match (every_seconds, every_minutes) {
        (Some(s), None) if s > 0 => Ok(s),
        (None, Some(m)) if m > 0 => if m * 60 > u64::MAX {
            Err("loop interval is too large"@)
        } else {
            Ok((m * 60) as u64)
        },
        (Some(_), Some(_)) => Err("pass exactly one of every_seconds or every_minutes"@),
        _ => Err("a positive every_seconds or every_minutes value is required"@),
    }
}

/// The interval of a new loop from `every_seconds` or `every_minutes`.
pub fn interval_seconds(every_seconds: Option<u64>, every_minutes: Option<u64>) -> (r: Result<u64, String>)
    ensures
        match interval_seconds_of(every_seconds, every_minutes) {
            Ok(v) => r == Ok::<u64, String>(v),
            Err(e) => r matches Err(x) && x@ == e,
        },
{
    match (every_seconds, every_minutes) {
        (Some(s), None) if s > 0 => Ok(s),
        (None, Some(m)) if m > 0 => match m.checked_mul(60) {
            Some(v) => Ok(v),
            None => Err("loop interval is too large".to_owned()),
        },
        (Some(_), Some(_)) => Err("pass exactly one of every_seconds or every_minutes".to_owned()),
        _ => Err("a positive every_seconds or every_minutes value is required".to_owned()),
    }
}


/// The arguments of an automation tool call, as parsed for the tool called.
#[derive(Clone, Debug, PartialEq, Eq)]
pub enum AutomationArgs {
    Empty,
    Id { id: String },
    LoopCreate { prompt: String, name: Option<String>, every_seconds: Option<u64>, every_minutes: Option<u64> },
    CronCreate { expression: String, prompt: String, name: Option<String> },
    CronUpdate { id: String, prompt: Option<String>, expression: Option<String>, enabled: Option<bool> },
    ClaudeCronCreate { cron: String, prompt: String, recurring: Option<bool>, durable: Option<bool> },
    ClaudeMonitor {
        command: String,
        description: Option<String>,
        contains: Option<String>,
        persistent: Option<bool>,
        timeout_ms: Option<u64>,
    },
    MonitorStart {
        process_id: i32,
        prompt: String,
        name: Option<String>,
        contains: Option<String>,
        poll_seconds: Option<u64>,
        once: Option<bool>,
    },
}

/// The runtime operation an automation tool call performs.
#[derive(Clone, Debug)]
pub enum AutomationCall {
    CreateLoop { name: Option<String>, prompt: String, every_seconds: u64 },
    ListJobs { kind: AutomationKind },
    DeleteJob { id: String, kind: AutomationKind },
    CreateCron { name: Option<String>, prompt: String, expression: String },
    UpdateJob { id: String, patch: crate::automation::JobPatch },
    RunJob { id: String },
    CreateMonitor { name: Option<String>, process_id: i32, prompt: String, contains: Option<String>, poll_seconds: u64, once: bool },
    ListMonitors,
    StopMonitor { id: String },
    LaunchMonitor { name: Option<String>, command: String, contains: Option<String>, once: bool },
}

/// The operation a call of the tool `kind` performs. The alias `CronCreate` is always durable
/// and recurring (there is no one-shot cron); the alias `Monitor` launches its command and
/// keeps watching until it exits or is stopped.
pub open spec fn planned_automation_call(kind: AutomationToolKind, args: AutomationArgs) -> Result<AutomationCall, Seq<char>> {
    match (kind, args) {
        (AutomationToolKind::LoopCreate, AutomationArgs::LoopCreate { prompt, name, every_seconds, every_minutes }) => match interval_seconds_of(every_seconds, every_minutes) {
            Ok(v) => Ok(AutomationCall::CreateLoop { name, prompt, every_seconds: v }),
            Err(e) => Err(e),
        },
        (AutomationToolKind::LoopList, AutomationArgs::Empty) => Ok(AutomationCall::ListJobs { kind: AutomationKind::Loop }),
        (AutomationToolKind::LoopStop, AutomationArgs::Id { id }) => Ok(AutomationCall::DeleteJob { id, kind: AutomationKind::Loop }),
        (AutomationToolKind::CronCreate, AutomationArgs::CronCreate { expression, prompt, name }) => Ok(AutomationCall::CreateCron { name, prompt, expression }),
        (AutomationToolKind::CronList, AutomationArgs::Empty) => Ok(AutomationCall::ListJobs { kind: AutomationKind::Cron }),
        (AutomationToolKind::CronUpdate, AutomationArgs::CronUpdate { id, prompt, expression, enabled }) => Ok(AutomationCall::UpdateJob {
            id,
            patch: crate::automation::JobPatch {
                prompt,
                enabled,
                schedule: match expression {
                    Some(e) => Some(crate::automation::ScheduleSpec::Cron { expression: e }),
                    None => None,
                },
            },
        }),
        (AutomationToolKind::CronDelete, AutomationArgs::Id { id }) => Ok(AutomationCall::DeleteJob { id, kind: AutomationKind::Cron }),
        (AutomationToolKind::CronRun, AutomationArgs::Id { id }) => Ok(AutomationCall::RunJob { id }),
        (AutomationToolKind::MonitorStart, AutomationArgs::MonitorStart { process_id, prompt, name, contains, poll_seconds, once }) => Ok(AutomationCall::CreateMonitor {
            name,
            process_id,
            prompt,
            contains,
            poll_seconds: match poll_seconds {
                Some(p) => p,
                None => DEFAULT_MONITOR_POLL_SECONDS,
            },
            once: match once {
                Some(o) => o,
                None => true,
            },
        }),
        (AutomationToolKind::MonitorList, AutomationArgs::Empty) => Ok(AutomationCall::ListMonitors),
        (AutomationToolKind::MonitorStop, AutomationArgs::Id { id }) => Ok(AutomationCall::StopMonitor { id }),
        (AutomationToolKind::CronCreateClaude, AutomationArgs::ClaudeCronCreate { cron, prompt, recurring, durable }) => Ok(AutomationCall::CreateCron { name: None, prompt, expression: cron }),
        (AutomationToolKind::CronListClaude, AutomationArgs::Empty) => Ok(AutomationCall::ListJobs { kind: AutomationKind::Cron }),
        (AutomationToolKind::CronDeleteClaude, AutomationArgs::Id { id }) => Ok(AutomationCall::DeleteJob { id, kind: AutomationKind::Cron }),
        (AutomationToolKind::MonitorClaude, AutomationArgs::ClaudeMonitor { command, description, contains, persistent, timeout_ms }) => Ok(AutomationCall::LaunchMonitor { name: description, command, contains, once: false }),
        _ => Err("invalid "@ + kind.name_of() + " arguments"@),
    }
}

/// The operation a call of the tool `kind` with `args` performs.
pub fn plan_automation_call(kind: AutomationToolKind, args: AutomationArgs) -> (r: Result<AutomationCall, String>)
    ensures
        match planned_automation_call(kind, args) {
            Ok(c) => r == Ok::<AutomationCall, String>(c),
            Err(e) => r matches Err(x) && x@ == e,
        },
{
    match (kind, args) {
        (AutomationToolKind::LoopCreate, AutomationArgs::LoopCreate { prompt, name, every_seconds, every_minutes }) => match interval_seconds(every_seconds, every_minutes) {
            Ok(v) => Ok(AutomationCall::CreateLoop { name, prompt, every_seconds: v }),
            Err(e) => Err(e),
        },
        (AutomationToolKind::LoopList, AutomationArgs::Empty) => Ok(AutomationCall::ListJobs { kind: AutomationKind::Loop }),
        (AutomationToolKind::LoopStop, AutomationArgs::Id { id }) => Ok(AutomationCall::DeleteJob { id, kind: AutomationKind::Loop }),
        (AutomationToolKind::CronCreate, AutomationArgs::CronCreate { expression, prompt, name }) => Ok(AutomationCall::CreateCron { name, prompt, expression }),
        (AutomationToolKind::CronList, AutomationArgs::Empty) => Ok(AutomationCall::ListJobs { kind: AutomationKind::Cron }),
        (AutomationToolKind::CronUpdate, AutomationArgs::CronUpdate { id, prompt, expression, enabled }) => Ok(AutomationCall::UpdateJob {
            id,
            patch: crate::automation::JobPatch {
                prompt,
                enabled,
                schedule: match expression {
                    Some(e) => Some(crate::automation::ScheduleSpec::Cron { expression: e }),
                    None => None,
                },
            },
        }),
        (AutomationToolKind::CronDelete, AutomationArgs::Id { id }) => Ok(AutomationCall::DeleteJob { id, kind: AutomationKind::Cron }),
        (AutomationToolKind::CronRun, AutomationArgs::Id { id }) => Ok(AutomationCall::RunJob { id }),
        (AutomationToolKind::MonitorStart, AutomationArgs::MonitorStart { process_id, prompt, name, contains, poll_seconds, once }) => {
            let (poll_seconds, once) = monitor_start_options(poll_seconds, once);
            Ok(AutomationCall::CreateMonitor { name, process_id, prompt, contains, poll_seconds, once })
        },
        (AutomationToolKind::MonitorList, AutomationArgs::Empty) => Ok(AutomationCall::ListMonitors),
        (AutomationToolKind::MonitorStop, AutomationArgs::Id { id }) => Ok(AutomationCall::StopMonitor { id }),
        (AutomationToolKind::CronCreateClaude, AutomationArgs::ClaudeCronCreate { cron, prompt, recurring, durable }) => Ok(AutomationCall::CreateCron { name: None, prompt, expression: cron }),
        (AutomationToolKind::CronListClaude, AutomationArgs::Empty) => Ok(AutomationCall::ListJobs { kind: AutomationKind::Cron }),
        (AutomationToolKind::CronDeleteClaude, AutomationArgs::Id { id }) => Ok(AutomationCall::DeleteJob { id, kind: AutomationKind::Cron }),
        (AutomationToolKind::MonitorClaude, AutomationArgs::ClaudeMonitor { command, description, contains, persistent, timeout_ms }) => Ok(AutomationCall::LaunchMonitor { name: description, command, contains, once: false }),
        (kind, _) => Err(concat3("invalid ", kind.name(), " arguments")),
    }
}

/// The refusal of an automation tool result `output` too large for a call whose token budget
/// is `token_budget`, if it is.
pub fn automation_output_error(output: &str, token_budget: usize) -> (r: Option<String>)
    ensures
        ({
            let tokens = spec_approx_tokens(output.len() as nat);
            let limit = crate::tasks::output_limit(token_budget as nat, MAX_AUTOMATION_TOOL_OUTPUT_TOKENS as nat);
            if tokens > limit {
                r matches Some(e) && e@ == "automation result is approximately "@ + decimal(tokens)
                    + " tokens, exceeding this call's "@ + decimal(limit) + "-token limit"@
            } else {
                r is None
            }
        }),
{
    let tokens = crate::text::approx_token_count(output);
    let limit = if token_budget < MAX_AUTOMATION_TOOL_OUTPUT_TOKENS {
        token_budget
    } else {
        MAX_AUTOMATION_TOOL_OUTPUT_TOKENS
    };
    if tokens > limit {
        let mut e = "automation result is approximately ".to_owned();
        crate::text::push_decimal(&mut e, tokens as u64);
        e.append(" tokens, exceeding this call's ");
        crate::text::push_decimal(&mut e, limit as u64);
        e.append("-token limit");
        Some(e)
    } else {
        None
    }
}

/// The poll interval and one-shot flag of a terminal monitor, defaults filled in.
pub fn monitor_start_options(poll_seconds: Option<u64>, once: Option<bool>) -> (r: (u64, bool))
    ensures
        r.0 == match poll_seconds {
            Some(p) => p,
            None => DEFAULT_MONITOR_POLL_SECONDS,
        },
        r.1 == match once {
            Some(o) => o,
            None => true,
        },
{
    (
        match poll_seconds {
            Some(p) => p,
            None => DEFAULT_MONITOR_POLL_SECONDS,
        },
        match once {
            Some(o) => o,
            None => true,
        },
    )
}

// ---------------------------------------------------------------------------
// Where the state lives
// ---------------------------------------------------------------------------

/// A character of a scope component: ASCII letters and digits in lower case, `-` and `_`
/// kept, anything else `_`.
pub open spec fn scope_char(c: char) -> char {
    if ('0' <= c && c <= '9') || ('a' <= c && c <= 'z') || ('A' <= c && c <= 'Z') || c == '-' || c == '_' {
        ascii_lower(c)
    } else {
        '_'
    }
}

/// `value` made safe as part of a file name.
pub open spec fn sanitized_component_of(value: Seq<char>) -> Seq<char> {
    value.map_values(|c: char| scope_char(c))
}

/// `value` made safe as part of a file name.
pub fn sanitized_component(value: &str) -> (r: String)
    ensures
        r@ == sanitized_component_of(value@),
{
    let v = crate::text::chars_of(value);
    let mut out: Vec<char> = Vec::new();
    for i in 0..v.len()
        invariant
            v@ == value@,
            out@ == sanitized_component_of(v@.take(i as int)),
    {
        let c = v[i];
        let m = if ('0' <= c && c <= '9') || ('a' <= c && c <= 'z') || ('A' <= c && c <= 'Z') || c == '-' || c == '_' {
            crate::text::to_ascii_lower(c)
        } else {
            '_'
        };
        out.push(m);
        proof {
            assert(sanitized_component_of(v@.take(i + 1)) =~= sanitized_component_of(v@.take(i as int)).push(m));
        }
    }
    proof {
        assert(v@.take(v.len() as int) =~= v@);
    }
    crate::text::string_of(&out)
}

/// The scope a thread's automations are stored under: the team member's identity for a
/// teammate, else the thread.
pub open spec fn automation_scope_of(team: Option<(Seq<char>, Seq<char>)>, thread_id: Seq<char>) -> Seq<char> {
    match team {
        Some(t) => "external--"@ + sanitized_component_of(t.0) + "--"@ + sanitized_component_of(t.1),
        None => "thread--"@ + thread_id,
    }
}

/// The scope a thread's automations are stored under, given the team and agent name when the
/// thread is a teammate.
pub fn automation_scope(team: Option<(&str, &str)>, thread_id: &str) -> (r: String)
    ensures
        r@ == automation_scope_of(
            match team {
                Some(t) => Some((t.0@, t.1@)),
                None => None,
            },
            thread_id@,
        ),
{
    match team {
        Some((team_name, agent_name)) => {
            let a = sanitized_component(team_name);
            let b = sanitized_component(agent_name);
            let r = concat3("external--", a.as_str(), "--");
            concat(r.as_str(), b.as_str())
        },
        None => concat("thread--", thread_id),
    }
}

/// The file name of the state of a scope, under `automations/` of the Codex home.
pub fn state_file_name(scope: &str) -> (r: String)
    ensures
        r@ == scope@ + ".json"@,
{
    concat(scope, ".json")
}


/// The developer instructions of a thread with automation.
pub fn automation_context_prompt() -> (r: &'static str)
    ensures
        r@ == "Native durable automation is available. Use loop_create/list/stop for recurring self-work, cron_create/list/update/delete/run for UTC schedules, and monitor_start/list/stop to attach to an existing background terminal. Scheduled and monitor events enter through native inter-agent delivery and wake idle threads; never use tmux keystrokes or ad-hoc sleep loops as a scheduler."@,
{
    "Native durable automation is available. Use loop_create/list/stop for recurring self-work, cron_create/list/update/delete/run for UTC schedules, and monitor_start/list/stop to attach to an existing background terminal. Scheduled and monitor events enter through native inter-agent delivery and wake idle threads; never use tmux keystrokes or ad-hoc sleep loops as a scheduler."
}

// ---------------------------------------------------------------------------
// What fires deliver
// ---------------------------------------------------------------------------

/// The agent path automation events come from.
pub fn automation_author() -> (r: &'static str)
    ensures
        r@ == "/root/automation"@,
{
    "/root/automation"
}

/// The message a fire of `job` delivers, labelled with its kind, its `source` (`SCHEDULED` or
/// `MANUAL`), its name and id.
pub open spec fn job_delivery_of(job: AutomationJob, source: Seq<char>) -> Seq<char> {
    "["@ + (match job.kind {
        AutomationKind::Loop => "LOOP"@,
        AutomationKind::Cron => "CRON"@,
    }) + ":"@ + source + " "@ + job.name@ + " ("@ + job.id@ + ")]\n"@ + job.prompt@
}

/// The message a fire of `job` delivers.
pub fn job_delivery(job: &AutomationJob, source: &str) -> (r: String)
    ensures
        r@ == job_delivery_of(*job, source@),
{
    let kind = match job.kind {
        AutomationKind::Loop => "LOOP",
        AutomationKind::Cron => "CRON",
    };
    let head = concat5("[", kind, ":", source, " ");
    let middle = concat5(head.as_str(), job.name.as_str(), " (", job.id.as_str(), ")]\n");
    concat(middle.as_str(), job.prompt.as_str())
}

/// A scheduler's request to claim what is due at `claimed_at`, leaving out the jobs whose
/// last fire the thread has not yet handled.
pub fn lease_request(owner: String, claimed_at: i64, excluded_job_ids: Vec<String>) -> (r: DeliveryLeaseRequest)
    ensures
        r.owner == owner,
        r.claimed_at == claimed_at,
        r.duration_millis == DELIVERY_LEASE_MILLIS,
        r.excluded_job_ids == excluded_job_ids,
{
    DeliveryLeaseRequest { owner, claimed_at, duration_millis: DELIVERY_LEASE_MILLIS, excluded_job_ids }
}

/// The acknowledgement of a delivered fire of `job`, when the job carries a claimed fire.
pub fn acknowledgement_for(job: &AutomationJob, owner: &str, delivered_at: i64) -> (r: Option<DeliveryAcknowledgement>)
    ensures
        job.pending_fire_at is None ==> r is None,
        job.pending_fire_at matches Some(f) ==> (r matches Some(a) && a.id@ == job.id@ && a.pending_fire_at == f
            && a.owner@ == owner@ && a.delivered_at == delivered_at),
{
    match job.pending_fire_at {
        Some(f) => Some(
            DeliveryAcknowledgement { id: job.id.clone(), pending_fire_at: f, owner: owner.to_owned(), delivered_at },
        ),
        None => None,
    }
}

/// What a scheduler does after trying to deliver a claimed fire: whether the job joins the
/// jobs whose fire the thread has yet to handle, and the acknowledgement to record, if any.
pub struct DeliveryFollowUp {
    pub mark_in_flight: bool,
    pub acknowledgement: Option<DeliveryAcknowledgement>,
}

/// The acknowledgement rule of the scheduler: a fire is acknowledged only after its delivery
/// went through, and only when the claimed job carries a fire id; a failed delivery leaves the
/// claim in place, to be delivered again once its lease expires.
pub fn after_delivery(job: &AutomationJob, owner: &str, delivered_at: i64, delivered: &Result<(), String>) -> (r: DeliveryFollowUp)
    ensures
        r.mark_in_flight == delivered is Ok,
        delivered is Err ==> r.acknowledgement is None,
        delivered is Ok && job.pending_fire_at is None ==> r.acknowledgement is None,
        delivered is Ok ==> (job.pending_fire_at matches Some(f) ==> (r.acknowledgement matches Some(a)
            && a.id@ == job.id@ && a.pending_fire_at == f && a.owner@ == owner@ && a.delivered_at == delivered_at)),
{
    match delivered {
        Ok(()) => DeliveryFollowUp {
            mark_in_flight: true,
            acknowledgement: acknowledgement_for(job, owner, delivered_at),
        },
        Err(_) => DeliveryFollowUp { mark_in_flight: false, acknowledgement: None },
    }
}

/// Records `id` among the jobs whose fire the thread has yet to handle.
pub fn mark_in_flight(in_flight: &mut Vec<String>, id: &str)
    ensures
        final(in_flight)@.map_values(|s: String| s@).to_set() == old(in_flight)@.map_values(|s: String| s@).to_set().insert(id@),
        !old(in_flight)@.map_values(|s: String| s@).contains(id@) ==> final(in_flight)@.map_values(|s: String| s@) == old(in_flight)@.map_values(|s: String| s@).push(id@),
        old(in_flight)@.map_values(|s: String| s@).contains(id@) ==> final(in_flight)@ == old(in_flight)@,
{
    let ghost before = in_flight@.map_values(|s: String| s@);
    let mut i: usize = 0;
    while i < in_flight.len()
        invariant
            i <= in_flight.len(),
            before == in_flight@.map_values(|s: String| s@),
            forall|k: int| 0 <= k < i ==> #[trigger] before[k] != id@,
        decreases in_flight.len() - i,
    {
        if crate::text::str_eq(in_flight[i].as_str(), id) {
            proof {
                assert(before[i as int] == id@);
                assert(before.to_set().insert(id@) =~= before.to_set());
            }
            return;
        }
        i = i + 1;
    }
    let s = id.to_owned();
    in_flight.push(s);
    proof {
        assert(in_flight@.map_values(|s: String| s@) =~= before.push(id@));
        assert(!before.contains(id@)) by {
            if before.contains(id@) {
                let k = choose|k: int| 0 <= k < before.len() && before[k] == id@;
            }
        }
        before.lemma_push_to_set_commute(id@);
    }
}

// ---------------------------------------------------------------------------
// Command monitors
// ---------------------------------------------------------------------------

/// Whether a line of a watched command's output matches the monitor's filter.
pub open spec fn line_matches(line: Seq<char>, contains: Option<Seq<char>>) -> bool {
    match contains {
        None => true,
        Some(needle) => contains_seq(line, needle),
    }
}

/// What a matching line of a launched command delivers.
pub open spec fn command_event_of(display: Seq<char>, id: Seq<char>, line: Seq<char>) -> Seq<char> {
    "[MONITOR:"@ + display + " "@ + id + "]\n"@ + line
}

/// The event a line of the command monitor `id` delivers, if the line matches; `name` is the
/// monitor's description, `monitor` by default.
pub fn command_monitor_event(name: &Option<String>, id: &str, line: &str, contains: &Option<String>) -> (r: Option<String>)
    ensures
        line_matches(line@, crate::extension_api::opt_view(*contains)) ==> (r matches Some(e) && e@ == command_event_of(
            match name {
                Some(n) => n@,
                None => "monitor"@,
            },
            id@,
            line@,
        )),
        !line_matches(line@, crate::extension_api::opt_view(*contains)) ==> r is None,
{
    let matched = match contains {
        None => true,
        Some(needle) => crate::text::contains_str(line, needle.as_str()),
    };
    if !matched {
        return None;
    }
    let display = match name {
        Some(n) => n.as_str(),
        None => "monitor",
    };
    let head = concat5("[MONITOR:", display, " ", id, "]\n");
    Some(concat(head.as_str(), line))
}

/// The tool result for a launched command monitor, as compact JSON with its keys in order.
pub open spec fn command_monitor_summary_of(id: Seq<char>, command: Seq<char>, contains: Option<Seq<char>>, once: bool) -> Seq<char> {
    "{\"command\":"@ + json_quote(command) + ",\"id\":"@ + json_quote(id) + ",\"kind\":\"command_monitor\",\"matching\":"@
        + (match contains {
        Some(c) => json_quote(c),
        None => "null"@,
    }) + ",\"once\":"@ + (if once {
        "true"@
    } else {
        "false"@
    }) + "}"@
}

/// The tool result for a launched command monitor.
pub fn command_monitor_summary(id: &str, command: &str, contains: &Option<String>, once: bool) -> (r: String)
    ensures
        r@ == command_monitor_summary_of(id@, command@, crate::extension_api::opt_view(*contains), once),
{
    let command_json = crate::json::json_string(command);
    let id_json = crate::json::json_string(id);
    let matching = match contains {
        Some(c) => crate::json::json_string(c.as_str()),
        None => "null".to_owned(),
    };
    let head = concat5("{\"command\":", command_json.as_str(), ",\"id\":", id_json.as_str(), ",\"kind\":\"command_monitor\",\"matching\":");
    let tail = concat3(matching.as_str(), ",\"once\":", if once { "true" } else { "false" });
    concat3(head.as_str(), tail.as_str(), "}")
}

// ---------------------------------------------------------------------------
// Launched command monitors
// ---------------------------------------------------------------------------

/// A command monitor started by a launch. It lives for the session only: it is never written
/// to the state file, and stopping it by its id cancels its watcher.
#[derive(Clone, Debug, PartialEq, Eq)]
pub struct LaunchedMonitor {
    pub id: String,
    pub name: Option<String>,
    pub command: String,
    pub contains: Option<String>,
    pub once: bool,
}

impl LaunchedMonitor {
    /// A field-by-field copy.
    pub fn duplicate(&self) -> (r: Self)
        ensures
            r == *self,
    {
        LaunchedMonitor {
            id: self.id.clone(),
            name: crate::text::copy_opt_string(&self.name),
            command: self.command.clone(),
            contains: crate::text::copy_opt_string(&self.contains),
            once: self.once,
        }
    }
}

/// `i` is the first launched monitor whose id is `id`.
pub open spec fn is_first_launched(s: Seq<LaunchedMonitor>, id: Seq<char>, i: int) -> bool {
    0 <= i < s.len() && s[i].id@ == id && forall|k: int| 0 <= k < i ==> (#[trigger] s[k]).id@ != id
}

/// Position of the launched monitor with id `id`, or -1.
pub open spec fn launched_position(s: Seq<LaunchedMonitor>, id: Seq<char>) -> int {
    if exists|i: int| is_first_launched(s, id, i) {
        choose|i: int| is_first_launched(s, id, i)
    } else {
        -1
    }
}

/// No two launched monitors share an id.
pub open spec fn distinct_launched_ids(s: Seq<LaunchedMonitor>) -> bool {
    forall|i: int, j: int|
        0 <= i < s.len() && 0 <= j < s.len() && i != j ==> (#[trigger] s[i]).id@ != (#[trigger] s[j]).id@
}

/// The running watchers after `m` is registered: it takes the place of a watcher with the
/// same id, or is added after the others.
pub open spec fn after_register(s: Seq<LaunchedMonitor>, m: LaunchedMonitor) -> Seq<LaunchedMonitor> {
    let i = launched_position(s, m.id@);
    if i >= 0 {
        s.update(i, m)
    } else {
        s.push(m)
    }
}

/// The running watchers after the watcher `id` is released.
pub open spec fn after_release(s: Seq<LaunchedMonitor>, id: Seq<char>) -> Seq<LaunchedMonitor> {
    let i = launched_position(s, id);
    if i >= 0 {
        s.remove(i)
    } else {
        s
    }
}

proof fn lemma_first_launched_exists(s: Seq<LaunchedMonitor>, id: Seq<char>, k: int)
    requires
        0 <= k < s.len(),
        s[k].id@ == id,
    ensures
        launched_position(s, id) >= 0,
        is_first_launched(s, id, launched_position(s, id)),
    decreases k,
{
    if forall|j: int| 0 <= j < k ==> (#[trigger] s[j]).id@ != id {
        assert(is_first_launched(s, id, k));
    } else {
        let j = choose|j: int| 0 <= j < k && (#[trigger] s[j]).id@ == id;
        lemma_first_launched_exists(s, id, j);
    }
}

proof fn lemma_launched_at(s: Seq<LaunchedMonitor>, id: Seq<char>, k: int)
    requires
        distinct_launched_ids(s),
        0 <= k < s.len(),
        s[k].id@ == id,
    ensures
        launched_position(s, id) == k,
{
    lemma_first_launched_exists(s, id, k);
    let p = launched_position(s, id);
    if p != k {
        assert(s[p].id@ != s[k].id@);
    }
}

proof fn lemma_launched_absent(s: Seq<LaunchedMonitor>, id: Seq<char>)
    requires
        forall|k: int| 0 <= k < s.len() ==> (#[trigger] s[k]).id@ != id,
    ensures
        launched_position(s, id) == -1,
{
    assert forall|i: int| !is_first_launched(s, id, i) by {
        if 0 <= i < s.len() {
            assert(s[i].id@ != id);
        }
    }
}

proof fn lemma_register_keeps_distinct(s: Seq<LaunchedMonitor>, m: LaunchedMonitor)
    requires
        distinct_launched_ids(s),
    ensures
        distinct_launched_ids(after_register(s, m)),
        launched_position(after_register(s, m), m.id@) >= 0,
        after_register(s, m)[launched_position(after_register(s, m), m.id@)] == m,
{
    let p = launched_position(s, m.id@);
    let t = after_register(s, m);
    if p >= 0 {
        assert(is_first_launched(s, m.id@, p));
        assert forall|i: int, j: int|
            0 <= i < t.len() && 0 <= j < t.len() && i != j implies (#[trigger] t[i]).id@ != (
            #[trigger] t[j]).id@ by {
            assert(s[i].id@ != s[j].id@);
        }
        lemma_launched_at(t, m.id@, p);
    } else {
        assert forall|k: int| 0 <= k < s.len() implies (#[trigger] s[k]).id@ != m.id@ by {
            if s[k].id@ == m.id@ {
                lemma_first_launched_exists(s, m.id@, k);
            }
        }
        assert forall|i: int, j: int|
            0 <= i < t.len() && 0 <= j < t.len() && i != j implies (#[trigger] t[i]).id@ != (
            #[trigger] t[j]).id@ by {
            if i < s.len() && j < s.len() {
                assert(s[i].id@ != s[j].id@);
            } else if i < s.len() {
                assert(s[i].id@ != m.id@);
            } else {
                assert(s[j].id@ != m.id@);
            }
        }
        lemma_launched_at(t, m.id@, s.len() as int);
    }
}

proof fn lemma_release_keeps_distinct(s: Seq<LaunchedMonitor>, id: Seq<char>)
    requires
        distinct_launched_ids(s),
    ensures
        distinct_launched_ids(after_release(s, id)),
        launched_position(after_release(s, id), id) == -1,
{
    let p = launched_position(s, id);
    let t = after_release(s, id);
    if p >= 0 {
        assert(is_first_launched(s, id, p));
        assert forall|i: int, j: int|
            0 <= i < t.len() && 0 <= j < t.len() && i != j implies (#[trigger] t[i]).id@ != (
            #[trigger] t[j]).id@ by {
            let a = if i < p { i } else { i + 1 };
            let b = if j < p { j } else { j + 1 };
            assert(t[i] == s[a]);
            assert(t[j] == s[b]);
            assert(s[a].id@ != s[b].id@);
        }
        assert forall|k: int| 0 <= k < t.len() implies (#[trigger] t[k]).id@ != id by {
            let a = if k < p { k } else { k + 1 };
            assert(t[k] == s[a]);
            assert(s[a].id@ != s[p].id@);
        }
    } else {
        assert forall|k: int| 0 <= k < t.len() implies (#[trigger] t[k]).id@ != id by {
            if t[k].id@ == id {
                lemma_first_launched_exists(s, id, k);
            }
        }
    }
    lemma_launched_absent(t, id);
}

/// A launched command monitor can be stopped with the id its launch returned: once it is
/// registered, the registry finds that very monitor under its id, and once it is released
/// no watcher under that id is left.
pub proof fn law_launched_monitor_is_stoppable(s: Seq<LaunchedMonitor>, m: LaunchedMonitor)
    requires
        distinct_launched_ids(s),
    ensures
        launched_position(after_register(s, m), m.id@) >= 0,
        after_register(s, m)[launched_position(after_register(s, m), m.id@)] == m,
        launched_position(after_release(after_register(s, m), m.id@), m.id@) == -1,
{
    lemma_register_keeps_distinct(s, m);
    lemma_release_keeps_distinct(after_register(s, m), m.id@);
}

/// The launched command monitors of a session whose watchers are running.
pub struct MonitorRegistry {
    launched: Vec<LaunchedMonitor>,
}

impl View for MonitorRegistry {
    type V = Seq<LaunchedMonitor>;

    closed spec fn view(&self) -> Seq<LaunchedMonitor> {
        self.launched@
    }
}

fn find_launched_index(s: &Vec<LaunchedMonitor>, id: &str) -> (r: Option<usize>)
    ensures
        r matches Some(i) ==> is_first_launched(s@, id@, i as int) && launched_position(s@, id@) == i,
        r is None ==> launched_position(s@, id@) == -1,
{
    let target = crate::text::owned(id);
    for i in 0..s.len()
        invariant
            target@ == id@,
            forall|k: int| 0 <= k < i ==> (#[trigger] s@[k]).id@ != id@,
    {
        if s[i].id == target {
            proof {
                let j = launched_position(s@, id@);
                assert(is_first_launched(s@, id@, i as int));
                assert(is_first_launched(s@, id@, j));
                if j < i {
                    assert(s@[j].id@ != id@);
                }
                if i < j {
                    assert(s@[i as int].id@ != id@);
                }
            }
            return Some(i);
        }
    }
    proof {
        lemma_launched_absent(s@, id@);
    }
    None
}

impl MonitorRegistry {
    /// No two running watchers share an id.
    pub closed spec fn well_formed(&self) -> bool {
        distinct_launched_ids(self@)
    }

    /// A registry with no running watcher.
    pub fn new() -> (r: Self)
        ensures
            r@ == Seq::<LaunchedMonitor>::empty(),
            r.well_formed(),
    {
        MonitorRegistry { launched: Vec::new() }
    }

    /// Whether the watcher of the launched monitor `id` is running.
    pub fn is_running(&self, id: &str) -> (r: bool)
        ensures
            r == (launched_position(self@, id@) >= 0),
    {
        find_launched_index(&self.launched, id).is_some()
    }

    /// Records the watcher of a monitor that was just launched.
    pub fn register(&mut self, m: LaunchedMonitor)
        requires
            old(self).well_formed(),
        ensures
            final(self).well_formed(),
            final(self)@ == after_register(old(self)@, m),
    {
        proof {
            lemma_register_keeps_distinct(self@, m);
        }
        match find_launched_index(&self.launched, m.id.as_str()) {
            Some(i) => {
                self.launched.set(i, m);
            },
            None => {
                self.launched.push(m);
            },
        }
    }

    /// Forgets the watcher `id`, which is to be cancelled, or which ended by itself, and
    /// returns its monitor if it was running.
    pub fn release(&mut self, id: &str) -> (r: Option<LaunchedMonitor>)
        requires
            old(self).well_formed(),
        ensures
            final(self).well_formed(),
            final(self)@ == after_release(old(self)@, id@),
            r is Some <==> launched_position(old(self)@, id@) >= 0,
            r matches Some(m) ==> m == old(self)@[launched_position(old(self)@, id@)],
    {
        proof {
            lemma_release_keeps_distinct(self@, id@);
        }
        match find_launched_index(&self.launched, id) {
            Some(i) => Some(self.launched.remove(i)),
            None => None,
        }
    }
}

/// A monitor that a stop request ended.
#[derive(Clone, Debug, PartialEq, Eq)]
pub enum StoppedMonitor {
    /// A stored terminal monitor, now disabled in the state.
    Stored(MonitorDefinition),
    /// A launched command monitor, whose watcher the caller cancels.
    Launched(LaunchedMonitor),
}

/// Stops the monitor `id`, whichever kind it is: a running launched watcher is released (its
/// caller cancels it) and a stored monitor is disabled. It fails only when neither has the id.
pub fn stop_monitor_and_watcher(
    state: &mut crate::automation::AutomationState,
    registry: &mut MonitorRegistry,
    id: &str,
) -> (r: Result<StoppedMonitor, String>)
    requires
        old(registry).well_formed(),
    ensures
        final(registry).well_formed(),
        final(registry)@ == after_release(old(registry)@, id@),
        r is Err <==> !crate::automation::has_monitor(old(state).monitors@, id@) && launched_position(
            old(registry)@,
            id@,
        ) < 0,
        r matches Err(e) ==> e@ == crate::automation::monitor_not_found(id@) && *final(state) == *old(state),
        r matches Ok(StoppedMonitor::Stored(m)) ==> {
            let i = crate::automation::monitor_position(old(state).monitors@, id@);
            &&& crate::automation::has_monitor(old(state).monitors@, id@)
            &&& 0 <= i
            &&& m == MonitorDefinition { enabled: false, ..old(state).monitors@[i] }
            &&& final(state).monitors@ == old(state).monitors@.update(i, m)
            &&& final(state).jobs == old(state).jobs
            &&& final(state).version == old(state).version
        },
        r matches Ok(StoppedMonitor::Launched(l)) ==> {
            &&& !crate::automation::has_monitor(old(state).monitors@, id@)
            &&& launched_position(old(registry)@, id@) >= 0
            &&& l == old(registry)@[launched_position(old(registry)@, id@)]
            &&& *final(state) == *old(state)
        },
        crate::automation::has_monitor(old(state).monitors@, id@) ==> r matches Ok(StoppedMonitor::Stored(_)),
        crate::automation::state_valid(*old(state)) ==> crate::automation::state_valid(*final(state)),
{
    let released = registry.release(id);
    match crate::automation::stop_monitor(state, id) {
        Ok(m) => Ok(StoppedMonitor::Stored(m)),
        Err(e) => match released {
            Some(l) => Ok(StoppedMonitor::Launched(l)),
            None => Err(e),
        },
    }
}

// ---------------------------------------------------------------------------
// Terminal monitors
// ---------------------------------------------------------------------------

/// One non-writing poll of a background terminal.
#[derive(Clone, Debug, PartialEq, Eq)]
pub struct BackgroundTerminalPoll {
    pub output: String,
    pub process_id: Option<i32>,
    pub exit_code: Option<i32>,
}

/// What a terminal monitor does after one poll: the events to deliver, in order, and whether
/// the monitor stops (and is marked stopped in the store).
#[derive(Clone, Debug, PartialEq, Eq)]
pub struct MonitorStep {
    pub deliveries: Vec<String>,
    pub stop: bool,
}

/// How long one poll of a terminal monitor waits, in seconds: at least one.
pub fn monitor_wait_seconds(poll_seconds: u64) -> (r: u64)
    ensures
        r == if poll_seconds < 1 {
            1
        } else {
            poll_seconds
        },
{
    if poll_seconds < 1 {
        1
    } else {
        poll_seconds
    }
}

/// Rust's `{:?}` of an optional exit code.
pub open spec fn debug_exit_code(code: Option<i32>) -> Seq<char> {
    match code {
        Some(c) => "Some("@ + signed_decimal(c as int) + ")"@,
        None => "None"@,
    }
}

/// The label of a monitor's events: `[MONITOR <name> (<id>)]`.
pub open spec fn monitor_label(m: MonitorDefinition) -> Seq<char> {
    "[MONITOR "@ + m.name@ + " ("@ + m.id@ + ")]"@
}

/// What a terminal monitor does after one poll of its process.
pub open spec fn monitor_step_of(m: MonitorDefinition, poll: Result<BackgroundTerminalPoll, Seq<char>>) -> (Seq<Seq<char>>, bool) {
    match poll {
        Err(e) => (
            seq![monitor_label(m) + " Process "@ + signed_decimal(m.process_id as int) + " is no longer attachable: "@ + e],
            true,
        ),
        Ok(p) => {
            let matched = p.output@.len() > 0 && line_matches(p.output@, crate::extension_api::opt_view(m.contains));
            let output_event = monitor_label(m) + " "@ + m.prompt@ + "\nProcess "@ + signed_decimal(m.process_id as int)
                + " output:\n"@ + p.output@;
            let exit_event = monitor_label(m) + " "@ + m.prompt@ + "\nProcess "@ + signed_decimal(m.process_id as int)
                + " exited with code "@ + debug_exit_code(p.exit_code) + "."@;
            if matched && m.once {
                (seq![output_event], true)
            } else if p.process_id is None {
                ((if matched {
                    seq![output_event]
                } else {
                    Seq::empty()
                }) + seq![exit_event], true)
            } else {
                (if matched {
                    seq![output_event]
                } else {
                    Seq::empty()
                }, false)
            }
        },
    }
}

fn label(m: &MonitorDefinition) -> (r: String)
    ensures
        r@ == monitor_label(*m),
{
    concat5("[MONITOR ", m.name.as_str(), " (", m.id.as_str(), ")]")
}

fn pid_text(pid: i32) -> (r: String)
    ensures
        r@ == signed_decimal(pid as int),
{
    let mut s = String::new();
    crate::text::push_signed_decimal(&mut s, pid as i64);
    s
}

/// When a terminal monitor stops: a failed poll and an exited process always stop it; while the
/// process runs, a repeating monitor keeps watching whatever the output, and a one-shot monitor
/// stops exactly when the poll brought non-empty output that contains its filter (any output
/// without a filter). Matching output is delivered first, labelled with the monitor's prompt and
/// process; an empty or non-matching poll of a running process delivers nothing.
pub proof fn law_monitor_stop_rule(m: MonitorDefinition, poll: Result<BackgroundTerminalPoll, Seq<char>>)
    ensures
        match poll {
            Err(_) => monitor_step_of(m, poll).1,
            Ok(p) => {
                let output_matches = p.output@.len() > 0 && match m.contains {
                    None => true,
                    Some(needle) => contains_seq(p.output@, needle@),
                };
                &&& p.process_id is None ==> monitor_step_of(m, poll).1
                &&& p.process_id is Some && !m.once ==> !monitor_step_of(m, poll).1
                &&& p.process_id is Some && m.once ==> (monitor_step_of(m, poll).1 <==> output_matches)
                &&& p.process_id is Some && !output_matches ==> monitor_step_of(m, poll).0.len() == 0
                &&& output_matches ==> monitor_step_of(m, poll).0.len() >= 1 && monitor_step_of(m, poll).0[0]
                    == monitor_label(m) + " "@ + m.prompt@ + "\nProcess "@ + signed_decimal(m.process_id as int)
                    + " output:\n"@ + p.output@
            },
        },
{
}

/// What a terminal monitor does after one poll of its process: a matching poll delivers the
/// output (and ends a one-shot monitor), an exited process delivers its exit, a failed poll
/// delivers the failure; the last two stop the monitor.
pub fn monitor_step(m: &MonitorDefinition, poll: &Result<BackgroundTerminalPoll, String>) -> (r: MonitorStep)
    ensures
        (r.deliveries@.map_values(|s: String| s@), r.stop) == monitor_step_of(
            *m,
            match poll {
                Ok(p) => Ok(*p),
                Err(e) => Err(e@),
            },
        ),
{
    let lab = label(m);
    let pid = pid_text(m.process_id);
    let mut deliveries: Vec<String> = Vec::new();
    match poll {
        Err(e) => {
            let head = concat5(lab.as_str(), " Process ", pid.as_str(), " is no longer attachable: ", e.as_str());
            deliveries.push(head);
            proof {
                assert(deliveries@.map_values(|s: String| s@) =~= seq![monitor_label(*m) + " Process "@ + signed_decimal(m.process_id as int) + " is no longer attachable: "@ + e@]);
            }
            MonitorStep { deliveries, stop: true }
        },
        Ok(p) => {
            let matched = !p.output.as_str().is_empty() && match &m.contains {
                None => true,
                Some(needle) => crate::text::contains_str(p.output.as_str(), needle.as_str()),
            };
            if matched {
                let head = concat5(lab.as_str(), " ", m.prompt.as_str(), "\nProcess ", pid.as_str());
                deliveries.push(concat3(head.as_str(), " output:\n", p.output.as_str()));
            }
            let ghost first = deliveries@.map_values(|s: String| s@);
            if matched && m.once {
                proof {
                    assert(first =~= monitor_step_of(*m, Ok(*p)).0);
                }
                return MonitorStep { deliveries, stop: true };
            }
            if p.process_id.is_none() {
                let code = match p.exit_code {
                    Some(c) => {
                        let mut s = "Some(".to_owned();
                        crate::text::push_signed_decimal(&mut s, c as i64);
                        s.append(")");
                        s
                    },
                    None => "None".to_owned(),
                };
                let head = concat5(lab.as_str(), " ", m.prompt.as_str(), "\nProcess ", pid.as_str());
                let body = concat3(head.as_str(), " exited with code ", code.as_str());
                let e = concat(body.as_str(), ".");
                proof {
                    assert(code@ == debug_exit_code(p.exit_code));
                }
                deliveries.push(e);
                proof {
                    assert(deliveries@.map_values(|s: String| s@) =~= first.push(e@));
                    assert(deliveries@.map_values(|s: String| s@) =~= monitor_step_of(*m, Ok(*p)).0);
                }
                return MonitorStep { deliveries, stop: true };
            }
            proof {
                assert(first =~= monitor_step_of(*m, Ok(*p)).0);
            }
            MonitorStep { deliveries, stop: false }
        },
    }
}

} // verus!
