//! The provider boundary for teams whose roster and transport are owned by another runtime.
use vstd::prelude::*;

verus! {

/// One agent whose lifecycle is owned by an external team runtime.
#[derive(Clone, Debug, PartialEq, Eq)]
pub struct ExternalAgent {
    pub id: String,
    pub name: String,
    pub role: Option<String>,
    pub status: ExternalAgentStatus,
}

/// Provider-neutral status for an external teammate.
#[derive(Clone, Copy, Debug, PartialEq, Eq, Structural)]
pub enum ExternalAgentStatus {
    Active,
    Idle,
    Stopped,
    Unknown,
}

/// Whether a message is informational or should wake an idle teammate.
#[derive(Clone, Copy, Debug, PartialEq, Eq, Structural)]
pub enum ExternalMessageDelivery {
    Queue,
    Wake,
}

/// An optional string by its characters.
pub open spec fn opt_view(o: Option<String>) -> Option<Seq<char>> {
    match o {
        Some(s) => Some(s@),
        None => None,
    }
}

/// An agent by the values of its fields.
pub open spec fn agent_view(a: ExternalAgent) -> (Seq<char>, Seq<char>, Option<Seq<char>>, ExternalAgentStatus) {
    (a.id@, a.name@, opt_view(a.role), a.status)
}

/// Field-by-field copy of an agent.
pub fn copy_agent(a: &ExternalAgent) -> (r: ExternalAgent)
    ensures
        agent_view(r) == agent_view(*a),
{
    ExternalAgent {
        id: a.id.clone(),
        name: a.name.clone(),
        role: crate::text::copy_opt_string(&a.role),
        status: a.status,
    }
}

/// Provider boundary for a team whose roster and transport are not owned by Codex.
///
/// Implementations keep agent IDs stable for the lifetime of a team, return exact matches from
/// `resolve_agent`, and provide at-least-once delivery or report an error.
pub trait ExternalTeamProvider {
    fn identity(&self) -> ExternalAgent;

    fn parent(&self) -> ExternalAgent;

    fn resolve_agent(&self, target: &str) -> Result<Option<ExternalAgent>, String>;

    fn list_agents(&self) -> Result<Vec<ExternalAgent>, String>;

    fn send_message(
        &self,
        target: &ExternalAgent,
        content: &str,
        delivery: ExternalMessageDelivery,
    ) -> Result<(), String>;

    fn interrupt(&self, target: &ExternalAgent, reason: &str) -> Result<(), String>;
}

/// Thread-scoped access to an installed external team provider.
pub struct ExternalTeamHandle<P: ExternalTeamProvider + ?Sized> {
    provider: std::sync::Arc<P>,
}

impl<P: ExternalTeamProvider + ?Sized> ExternalTeamHandle<P> {
    /// The provider this handle gives access to.
    pub closed spec fn held_provider(&self) -> std::sync::Arc<P> {
        self.provider
    }

    pub fn new(provider: std::sync::Arc<P>) -> (handle: Self)
        ensures
            handle.held_provider() == provider,
    {
        ExternalTeamHandle { provider: provider }
    }

    pub fn provider(&self) -> (provider: &std::sync::Arc<P>)
        ensures
            *provider == self.held_provider(),
    {
        &self.provider
    }
}

impl<P: ExternalTeamProvider + ?Sized> Clone for ExternalTeamHandle<P> {
    fn clone(&self) -> (r: Self)
        ensures
            r.held_provider() == self.held_provider(),
    {
        ExternalTeamHandle { provider: self.provider.clone() }
    }
}

} // verus!
