//! The host side of a native teammate: its configuration block, the launcher that turns
//! the team runtime's teammate spawn arguments into configuration, and the terminal UI's
//! shutdown rule.
use crate::text::concat;
use crate::text::concat3;
use crate::text::has_prefix;
use crate::text::str_eq;
use crate::text::trim;
use vstd::prelude::*;

verus! {

// ---------------------------------------------------------------------------
// Configuration
// ---------------------------------------------------------------------------

/// Configuration for joining a team whose control plane is owned by another agent runtime.
#[derive(Clone, Debug, PartialEq, Eq)]
pub struct ExternalTeamConfigToml {
    pub provider: String,
    pub team_name: String,
    pub agent_name: String,
    pub agent_id: Option<String>,
    pub agent_role: Option<String>,
    pub parent_name: Option<String>,
    pub claude_home: String,
    pub poll_interval_ms: Option<u64>,
}

impl ExternalTeamConfigToml {
    /// Whether the provider names the supported runtime, in either of its two spellings.
    pub open spec fn provider_supported(self) -> bool {
        self.provider@ == "claude_code"@ || self.provider@ == "claudeCode"@
    }

    /// Why the block is refused at load time, if it is: an unsupported provider, then a blank
    /// team or agent name.
    pub open spec fn config_error(self) -> Option<Seq<char>> {
        if !self.provider_supported() {
            Some("unsupported external_team.provider `"@ + self.provider@ + "`; expected `claude_code`"@)
        } else if trim(self.team_name@).len() == 0 || trim(self.agent_name@).len() == 0 {
            Some("external_team.team_name and external_team.agent_name must not be empty"@)
        } else {
            None
        }
    }

    /// Validates the block at configuration load time; the error is reported as invalid input.
    pub fn validate(&self) -> (r: Result<(), String>)
        ensures
            match self.config_error() {
                Some(e) => r matches Err(x) && x@ == e,
                None => r is Ok,
            },
    {
        if !str_eq(self.provider.as_str(), "claude_code") && !str_eq(self.provider.as_str(), "claudeCode") {
            return Err(concat3(
                "unsupported external_team.provider `",
                self.provider.as_str(),
                "`; expected `claude_code`",
            ));
        }
        if crate::text::is_blank(self.team_name.as_str()) || crate::text::is_blank(self.agent_name.as_str()) {
            return Err("external_team.team_name and external_team.agent_name must not be empty".to_owned());
        }
        Ok(())
    }
}

// ---------------------------------------------------------------------------
// The terminal UI
// ---------------------------------------------------------------------------

/// A notification from the app server, as far as the shutdown rule reads it.
#[derive(Clone, Debug, PartialEq, Eq)]
pub enum ThreadNotification {
    ThreadClosed { thread_id: String },
    ThreadStatusChanged { thread_id: String, not_loaded: bool },
    Other,
}

/// The state of the terminal UI that the teammate rules read. Thread ids are in their text
/// form.
#[derive(Clone, Debug, PartialEq, Eq)]
pub struct App {
    pub external_team: Option<ExternalTeamConfigToml>,
    pub active_thread_id: Option<String>,
    pub primary_thread_id: Option<String>,
}

/// The thread a notification reports as closed: closed, or no longer loaded.
pub open spec fn closed_thread_of(n: ThreadNotification) -> Option<Seq<char>> {
    match n {
        ThreadNotification::ThreadClosed { thread_id } => Some(thread_id@),
        ThreadNotification::ThreadStatusChanged { thread_id, not_loaded } => if not_loaded {
            Some(thread_id@)
        } else {
            None
        },
        ThreadNotification::Other => None,
    }
}

impl App {
    /// The primary thread the teammate process exits for: only on a teammate, only when the
    /// primary thread is the active one and is the one the notification closes.
    pub open spec fn shutdown_exit_thread_of(self, n: ThreadNotification) -> Option<Seq<char>> {
        match closed_thread_of(n) {
            None => None,
            Some(closed) => if self.external_team is Some && self.active_thread_id is Some
                && self.primary_thread_id is Some && self.active_thread_id->0@ == self.primary_thread_id->0@
                && closed == self.primary_thread_id->0@ {
                Some(self.primary_thread_id->0@)
            } else {
                None
            },
        }
    }

    /// `teammate <agent> @ <team>` when this session is a native teammate.
    pub fn external_team_agent_label(&self) -> (r: Option<String>)
        ensures
            match self.external_team {
                Some(t) => r matches Some(l) && l@ == "teammate "@ + t.agent_name@ + " @ "@ + t.team_name@,
                None => r is None,
            },
    {
        match &self.external_team {
            Some(t) => {
                let head = concat3("teammate ", t.agent_name.as_str(), " @ ");
                Some(concat(head.as_str(), t.team_name.as_str()))
            },
            None => None,
        }
    }

    /// The primary thread id when a notification shuts down a teammate's primary thread.
    pub fn external_team_shutdown_exit_thread(&self, notification: &ThreadNotification) -> (r: Option<String>)
        ensures
            crate::extension_api::opt_view(r) == self.shutdown_exit_thread_of(*notification),
    {
        let closed = match notification {
            ThreadNotification::ThreadClosed { thread_id } => thread_id,
            ThreadNotification::ThreadStatusChanged { thread_id, not_loaded } => {
                if !*not_loaded {
                    return None;
                }
                thread_id
            },
            ThreadNotification::Other => {
                return None;
            },
        };
        if self.external_team.is_none() {
            return None;
        }
        let active = match &self.active_thread_id {
            Some(a) => a,
            None => {
                return None;
            },
        };
        let primary = match &self.primary_thread_id {
            Some(p) => p,
            None => {
                return None;
            },
        };
        if str_eq(active.as_str(), primary.as_str()) && str_eq(closed.as_str(), primary.as_str()) {
            Some(primary.clone())
        } else {
            None
        }
    }

    /// Whether a buffered event, a notification or something else, shuts down this teammate's
    /// primary thread.
    pub fn external_team_shutdown_completed(&self, notification: Option<&ThreadNotification>) -> (r: bool)
        ensures
            r == match notification {
                Some(n) => self.shutdown_exit_thread_of(*n) is Some,
                None => false,
            },
    {
        match notification {
            Some(n) => self.external_team_shutdown_exit_thread(n).is_some(),
            None => false,
        }
    }

    /// Whether the process exits now: exactly when the primary thread's shutdown completed.
    pub fn finish_external_team_shutdown(&self, shutdown_completed: bool) -> (exit: bool)
        ensures
            exit == shutdown_completed,
    {
        shutdown_completed
    }
}

/// The teammate process exits only for its own active primary thread, never for another
/// thread or a thread that is not in front.
pub proof fn law_teammate_exits_only_for_its_active_primary(app: App, n: ThreadNotification)
    requires
        app.shutdown_exit_thread_of(n) is Some,
    ensures
        app.external_team is Some,
        app.active_thread_id is Some && app.primary_thread_id is Some,
        app.active_thread_id->0@ == app.primary_thread_id->0@,
        closed_thread_of(n) == Some(app.primary_thread_id->0@),
{
}

// ---------------------------------------------------------------------------
// The teammate launcher
// ---------------------------------------------------------------------------

/// The arguments of the team runtime's teammate spawn contract.
#[derive(Clone, Debug, PartialEq, Eq)]
pub struct TeammateCommand {
    pub team_name: String,
    pub agent_name: String,
    pub agent_id: Option<String>,
    pub agent_type: Option<String>,
    pub agent: Option<String>,
    pub agent_color: Option<String>,
    pub parent_session_id: Option<String>,
    pub model: Option<String>,
    pub effort: Option<String>,
    pub claude_home: Option<String>,
    pub poll_interval_ms: u64,
    pub dangerously_skip_permissions: bool,
    pub remote_control: Option<String>,
}

/// What the launcher changes in the interactive session: the model, whether approvals and the
/// sandbox are bypassed, and the configuration overrides it appends.
#[derive(Clone, Debug, PartialEq, Eq)]
pub struct TeammateLaunch {
    pub model: Option<String>,
    pub bypass_approvals_and_sandbox: bool,
    pub overrides: Vec<String>,
}

/// A value as the TOML string `toml` writes for it.
pub uninterp spec fn toml_quote(value: Seq<char>) -> Seq<char>;

/// `toml::Value::String(value).to_string()`: `value` as a TOML string, delimiters included, in
/// the form (basic or literal, single- or multi-line) the writer picks for it. The contract
/// names the text; the writer's choice of form and its escaping are not restated.
#[verifier::external_body]
fn toml_string(value: &str) -> (r: String)
    ensures
        r@ == toml_quote(value@),
{
    toml::Value::String(value.to_string()).to_string()
}

/// `key=<value as a TOML string>`.
pub fn toml_string_override(key: &str, value: &str) -> (r: String)
    ensures
        r@ == key@ + "="@ + toml_quote(value@),
{
    let quoted = toml_string(value);
    concat3(key, "=", quoted.as_str())
}

/// The team runtime's home the launcher uses: the one given, else `$CLAUDE_CONFIG_DIR`. With
/// neither there is no home to use.
pub open spec fn claude_home_of(given: Option<Seq<char>>, claude_config_dir: Option<Seq<char>>) -> Option<Seq<char>> {
    match given {
        Some(g) => Some(g),
        None => claude_config_dir,
    }
}

/// The team runtime's home the launcher uses, from the argument and the environment.
pub fn claude_home(given: Option<String>, claude_config_dir: Option<String>) -> (r: Option<String>)
    ensures
        crate::extension_api::opt_view(r) == claude_home_of(
            crate::extension_api::opt_view(given),
            crate::extension_api::opt_view(claude_config_dir),
        ),
{
    match given {
        Some(g) => Some(g),
        None => claude_config_dir,
    }
}

/// The role a teammate announces: `--agent-type`, else `--agent`.
pub open spec fn teammate_role_of(t: TeammateCommand) -> Option<Seq<char>> {
    match t.agent_type {
        Some(r) => Some(r@),
        None => crate::extension_api::opt_view(t.agent),
    }
}

/// An optional override: `key=<value as a TOML string>` when there is a value.
pub open spec fn optional_override(key: Seq<char>, value: Option<Seq<char>>) -> Seq<Seq<char>> {
    match value {
        Some(v) => seq![key + "="@ + toml_quote(v)],
        None => Seq::empty(),
    }
}

/// The overrides every teammate gets, in order.
pub open spec fn base_overrides_of(t: TeammateCommand, claude_home: Seq<char>) -> Seq<Seq<char>> {
    seq![
        "external_team.provider"@ + "="@ + toml_quote("claude_code"@),
        "external_team.team_name"@ + "="@ + toml_quote(t.team_name@),
        "external_team.agent_name"@ + "="@ + toml_quote(t.agent_name@),
        "external_team.claude_home"@ + "="@ + toml_quote(claude_home),
        "external_team.poll_interval_ms="@ + crate::text::decimal(t.poll_interval_ms as nat),
        "features.multi_agent_v2.enabled=true"@,
        "features.multi_agent_v2.tool_namespace"@ + "="@ + toml_quote("external_team"@),
    ]
}

/// The overrides the launcher appends, in order.
pub open spec fn teammate_overrides_of(t: TeammateCommand, claude_home: Seq<char>) -> Seq<Seq<char>> {
    base_overrides_of(t, claude_home)
        + optional_override("external_team.agent_id"@, crate::extension_api::opt_view(t.agent_id))
        + optional_override("external_team.agent_role"@, teammate_role_of(t))
        + optional_override("model_reasoning_effort"@, crate::extension_api::opt_view(t.effort))
}

/// Turns the spawn arguments into session settings. The runtime home must be absolute and, as
/// a path, valid UTF-8; `claude_home` is its text.
pub fn configure_external_teammate(
    teammate: &TeammateCommand,
    claude_home: &str,
    claude_home_is_utf8: bool,
) -> (r: Result<TeammateLaunch, String>)
    ensures
        !has_prefix(claude_home@, "/"@) ==> (r matches Err(e) && e@ == "claude_home must be an absolute path; got "@ + claude_home@),
        has_prefix(claude_home@, "/"@) && !claude_home_is_utf8 ==> (r matches Err(e) && e@ == "claude_home is not valid UTF-8"@),
        has_prefix(claude_home@, "/"@) && claude_home_is_utf8 ==> (r matches Ok(l)
            && crate::extension_api::opt_view(l.model) == crate::extension_api::opt_view(teammate.model)
            && l.bypass_approvals_and_sandbox == teammate.dangerously_skip_permissions
            && l.overrides@.map_values(|s: String| s@) == teammate_overrides_of(*teammate, claude_home@)),
{
    if !crate::text::starts_with(claude_home, "/") {
        return Err(concat("claude_home must be an absolute path; got ", claude_home));
    }
    if !claude_home_is_utf8 {
        return Err("claude_home is not valid UTF-8".to_owned());
    }
    let mut overrides: Vec<String> = Vec::new();
    overrides.push(toml_string_override("external_team.provider", "claude_code"));
    overrides.push(toml_string_override("external_team.team_name", teammate.team_name.as_str()));
    overrides.push(toml_string_override("external_team.agent_name", teammate.agent_name.as_str()));
    overrides.push(toml_string_override("external_team.claude_home", claude_home));
    let mut poll = "external_team.poll_interval_ms=".to_owned();
    crate::text::push_decimal(&mut poll, teammate.poll_interval_ms);
    overrides.push(poll);
    overrides.push("features.multi_agent_v2.enabled=true".to_owned());
    overrides.push(toml_string_override("features.multi_agent_v2.tool_namespace", "external_team"));
    let ghost base = overrides@.map_values(|s: String| s@);
    proof {
        assert(base =~= base_overrides_of(*teammate, claude_home@));
    }
    if let Some(agent_id) = &teammate.agent_id {
        overrides.push(toml_string_override("external_team.agent_id", agent_id.as_str()));
    }
    let ghost with_id = overrides@.map_values(|s: String| s@);
    proof {
        assert(with_id =~= base + optional_override("external_team.agent_id"@, crate::extension_api::opt_view(teammate.agent_id)));
    }
    let role = match &teammate.agent_type {
        Some(r) => Some(r),
        None => match &teammate.agent {
            Some(a) => Some(a),
            None => None,
        },
    };
    if let Some(role) = role {
        overrides.push(toml_string_override("external_team.agent_role", role.as_str()));
    }
    let ghost with_role = overrides@.map_values(|s: String| s@);
    proof {
        assert(with_role =~= with_id + optional_override("external_team.agent_role"@, teammate_role_of(*teammate)));
    }
    if let Some(effort) = &teammate.effort {
        overrides.push(toml_string_override("model_reasoning_effort", effort.as_str()));
    }
    proof {
        assert(overrides@.map_values(|s: String| s@) =~= with_role + optional_override("model_reasoning_effort"@, crate::extension_api::opt_view(teammate.effort)));
    }
    Ok(TeammateLaunch {
        model: crate::text::copy_opt_string(&teammate.model),
        bypass_approvals_and_sandbox: teammate.dangerously_skip_permissions,
        overrides,
    })
}

} // verus!
