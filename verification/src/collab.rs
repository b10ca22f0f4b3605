//! How the collaboration tools reach external teammates: which targets go to the external
//! provider, how delivery modes and statuses translate, and the plaintext message wrapper.
use crate::extension_api::agent_view;
use crate::extension_api::ExternalAgent;
use crate::extension_api::ExternalAgentStatus;
use crate::extension_api::ExternalMessageDelivery;
use crate::text::has_prefix;
use crate::text::str_eq;
use crate::text::trim;
use vstd::prelude::*;

verus! {

/// The statuses `list_agents` reports for external teammates.
#[derive(Clone, Copy, Debug, PartialEq, Eq, Structural)]
pub enum AgentStatus {
    PendingInit,
    Running,
    Shutdown,
}

/// One entry of a `list_agents` result.
#[derive(Clone, Debug, PartialEq, Eq)]
pub struct ListedAgent {
    pub agent_name: String,
    pub agent_status: AgentStatus,
}

/// How a `send_message` or `followup_task` call delivers.
#[derive(Clone, Copy, Debug, PartialEq, Eq, Structural)]
pub enum MessageDeliveryMode {
    QueueOnly,
    TriggerTurn,
}

/// The status a teammate of the given external status is listed with.
pub open spec fn agent_status_of(status: ExternalAgentStatus) -> AgentStatus {
    match status {
        ExternalAgentStatus::Active => AgentStatus::Running,
        ExternalAgentStatus::Idle => AgentStatus::PendingInit,
        ExternalAgentStatus::Unknown => AgentStatus::PendingInit,
        ExternalAgentStatus::Stopped => AgentStatus::Shutdown,
    }
}

/// Maps an external status to the status `list_agents` reports.
pub fn agent_status(status: ExternalAgentStatus) -> (r: AgentStatus)
    ensures
        r == agent_status_of(status),
{
    match status {
        ExternalAgentStatus::Active => AgentStatus::Running,
        ExternalAgentStatus::Idle | ExternalAgentStatus::Unknown => AgentStatus::PendingInit,
        ExternalAgentStatus::Stopped => AgentStatus::Shutdown,
    }
}

/// The external delivery of a delivery mode: queued, or waking the teammate.
pub fn delivery_for(mode: MessageDeliveryMode) -> (r: ExternalMessageDelivery)
    ensures
        r == match mode {
            MessageDeliveryMode::QueueOnly => ExternalMessageDelivery::Queue,
            MessageDeliveryMode::TriggerTurn => ExternalMessageDelivery::Wake,
        },
{
    match mode {
        MessageDeliveryMode::QueueOnly => ExternalMessageDelivery::Queue,
        MessageDeliveryMode::TriggerTurn => ExternalMessageDelivery::Wake,
    }
}

/// Whether a `list_agents` call with this path prefix shows external teammates: with no
/// prefix, `external`, or a prefix starting with `external:`.
pub open spec fn external_agents_visible_for(prefix: Option<Seq<char>>) -> bool {
    match prefix {
        None => true,
        Some(p) => p == "external"@ || has_prefix(p, "external:"@),
    }
}

/// Whether a `list_agents` call with this path prefix shows external teammates.
pub fn external_agents_visible(path_prefix: Option<&str>) -> (r: bool)
    ensures
        r == external_agents_visible_for(
            match path_prefix {
                Some(p) => Some(p@),
                None => None,
            },
        ),
{
    match path_prefix {
        None => true,
        Some(p) => str_eq(p, "external") || crate::text::starts_with(p, "external:"),
    }
}

/// The `list_agents` entries of the external roster, in roster order.
pub fn external_listing(agents: &Vec<ExternalAgent>) -> (r: Vec<ListedAgent>)
    ensures
        r@.len() == agents@.len(),
        forall|i: int| 0 <= i < r@.len() ==> (#[trigger] r@[i]).agent_name@ == agents@[i].name@
            && r@[i].agent_status == agent_status_of(agents@[i].status),
{
    let mut r: Vec<ListedAgent> = Vec::new();
    for i in 0..agents.len()
        invariant
            r@.len() == i,
            forall|k: int| 0 <= k < i ==> (#[trigger] r@[k]).agent_name@ == agents@[k].name@
                && r@[k].agent_status == agent_status_of(agents@[k].status),
    {
        r.push(ListedAgent { agent_name: agents[i].name.clone(), agent_status: agent_status(agents[i].status) });
    }
    r
}

/// Where a tool-facing agent target is looked up.
#[derive(Clone, Debug, PartialEq, Eq)]
pub enum TargetRoute {
    /// `external:<name>` on a thread attached to a team: ask the provider for `name`.
    External(String),
    /// `external:<name>` on a thread attached to no team.
    NotAttached,
    /// Any other target: resolve locally; when that fails and `external_fallback` holds, ask
    /// the provider for the target before reporting the local error.
    Local { external_fallback: bool },
}

/// The error for `external:<name>` on a thread attached to no team.
pub open spec fn not_attached_message() -> Seq<char> {
    "this thread is not attached to an external agent team"@
}

/// Where `target` is looked up, given whether the thread is attached to an external team.
/// Paths (`/…`) never fall back to the provider.
pub fn route_target(target: &str, attached: bool) -> (r: TargetRoute)
    ensures
        has_prefix(target@, "external:"@) && attached ==> (r matches TargetRoute::External(name) && name@ == target@.skip(9)),
        has_prefix(target@, "external:"@) && !attached ==> r == TargetRoute::NotAttached,
        !has_prefix(target@, "external:"@) ==> r == (TargetRoute::Local {
            external_fallback: attached && !has_prefix(target@, "/"@),
        }),
{
    if crate::text::starts_with(target, "external:") {
        if attached {
            let name = crate::provider::strip_external_prefix(target);
            TargetRoute::External(name)
        } else {
            TargetRoute::NotAttached
        }
    } else {
        TargetRoute::Local { external_fallback: attached && !crate::text::starts_with(target, "/") }
    }
}

/// The message for an `external:` target that names nobody.
pub fn not_attached_error() -> (r: String)
    ensures
        r@ == not_attached_message(),
{
    "this thread is not attached to an external agent team".to_owned()
}

/// The outcome of an explicit `external:<target>` lookup: a blank name is refused before the
/// provider is asked; otherwise the provider's answer, where no agent is an error.
pub open spec fn external_lookup_of(
    target: Seq<char>,
    resolved: Result<Option<(Seq<char>, Seq<char>, Option<Seq<char>>, ExternalAgentStatus)>, Seq<char>>,
) -> Result<(Seq<char>, Seq<char>, Option<Seq<char>>, ExternalAgentStatus), Seq<char>> {
    if trim(target).len() == 0 {
        Err("external agent target must not be empty"@)
    } else {
        match resolved {
            Err(e) => Err(e),
            Ok(None) => Err("external agent `"@ + target + "` was not found"@),
            Ok(Some(a)) => Ok(a),
        }
    }
}

/// Refuses a blank external target before the provider is asked.
pub fn check_external_name(target: &str) -> (r: Result<(), String>)
    ensures
        r is Ok <==> trim(target@).len() > 0,
        r matches Err(e) ==> e@ == "external agent target must not be empty"@,
{
    if crate::text::is_blank(target) {
        Err("external agent target must not be empty".to_owned())
    } else {
        Ok(())
    }
}

/// The teammate an explicit `external:<target>` names, from the provider's answer.
pub fn external_lookup(target: &str, resolved: Result<Option<ExternalAgent>, String>) -> (r: Result<ExternalAgent, String>)
    requires
        trim(target@).len() > 0,
    ensures
        match resolved {
            Err(e) => r matches Err(x) && x@ == e@,
            Ok(None) => r matches Err(x) && x@ == "external agent `"@ + target@ + "` was not found"@,
            Ok(Some(a)) => r matches Ok(x) && agent_view(x) == agent_view(a),
        },
{
    match resolved {
        Err(e) => Err(e),
        Ok(None) => Err(crate::text::concat3("external agent `", target, "` was not found")),
        Ok(Some(a)) => Ok(a),
    }
}

/// The outcome when a bare target did not resolve locally: the provider's teammate if it knows
/// one, its error if it failed, else the local error.
pub fn fallback_outcome(local_error: String, resolved: Result<Option<ExternalAgent>, String>) -> (r: Result<ExternalAgent, String>)
    ensures
        match resolved {
            Err(e) => r matches Err(x) && x@ == e@,
            Ok(None) => r matches Err(x) && x@ == local_error@,
            Ok(Some(a)) => r matches Ok(x) && agent_view(x) == agent_view(a),
        },
{
    match resolved {
        Err(e) => Err(e),
        Ok(None) => Err(local_error),
        Ok(Some(a)) => Ok(a),
    }
}

/// The reason given to a provider when a Codex teammate interrupts an external one.
pub fn interrupt_reason() -> (r: &'static str)
    ensures
        r@ == "interrupt requested by a Codex teammate"@,
{
    "interrupt requested by a Codex teammate"
}

/// Wraps `send_message` and `followup_task` so that, on a thread of an external team, the
/// `message` argument is asked for and handled in plaintext: the provider must read it to
/// forward it. Off such a thread the wrapper passes everything through.
pub struct ExternalTeamMessageTool<H> {
    inner: H,
    plaintext: bool,
}

impl<H> ExternalTeamMessageTool<H> {
    pub closed spec fn spec_inner(&self) -> H {
        self.inner
    }

    pub closed spec fn spec_plaintext(&self) -> bool {
        self.plaintext
    }

    pub fn new(inner: H, plaintext: bool) -> (r: Self)
        ensures
            r.spec_inner() == inner,
            r.spec_plaintext() == plaintext,
    {
        ExternalTeamMessageTool { inner, plaintext }
    }

    /// The wrapped handler.
    pub fn inner(&self) -> (r: &H)
        ensures
            *r == self.spec_inner(),
    {
        &self.inner
    }

    /// Whether messages go in plaintext.
    pub fn plaintext(&self) -> (r: bool)
        ensures
            r == self.spec_plaintext(),
    {
        self.plaintext
    }

    /// The `encrypted` flag of the `message` parameter in the tool's schema, from the wrapped
    /// handler's: cleared in plaintext mode.
    pub fn message_encrypted(&self, inner_encrypted: Option<bool>) -> (r: Option<bool>)
        ensures
            r == if self.spec_plaintext() {
                None
            } else {
                inner_encrypted
            },
    {
        if self.plaintext {
            None
        } else {
            inner_encrypted
        }
    }

    /// Whether a call is relabelled as a direct plaintext message: in plaintext mode, every
    /// direct call.
    pub fn labels_plaintext(&self, direct: bool) -> (r: bool)
        ensures
            r == (self.spec_plaintext() && direct),
    {
        self.plaintext && direct
    }
}

/// Wraps `handler` in plaintext mode exactly when the thread belongs to an external team.
pub fn plaintext_when_external<H>(handler: H, external_team_configured: bool) -> (r: ExternalTeamMessageTool<H>)
    ensures
        r.spec_inner() == handler,
        r.spec_plaintext() == external_team_configured,
{
    ExternalTeamMessageTool::new(handler, external_team_configured)
}

} // verus!
