use std::sync::Arc;

use codex_native_team::collab::agent_status;
use codex_native_team::collab::check_external_name;
use codex_native_team::collab::delivery_for;
use codex_native_team::collab::external_agents_visible;
use codex_native_team::collab::external_listing;
use codex_native_team::collab::external_lookup;
use codex_native_team::collab::fallback_outcome;
use codex_native_team::collab::plaintext_when_external;
use codex_native_team::collab::route_target;
use codex_native_team::collab::AgentStatus;
use codex_native_team::collab::ExternalTeamMessageTool;
use codex_native_team::collab::MessageDeliveryMode;
use codex_native_team::collab::TargetRoute;
use codex_native_team::extension_api::ExternalAgent;
use codex_native_team::extension_api::ExternalAgentStatus;
use codex_native_team::extension_api::ExternalMessageDelivery;
use codex_native_team::extension_api::ExternalTeamHandle;
use codex_native_team::extension_api::ExternalTeamProvider;

fn lead() -> ExternalAgent {
    ExternalAgent {
        id: "lead-agent@fixture".to_string(),
        name: "lead-agent".to_string(),
        role: Some("lead".to_string()),
        status: ExternalAgentStatus::Idle,
    }
}

#[test]
fn plaintext_wrapper_strips_message_encryption_only_when_enabled() {
    assert_eq!(ExternalTeamMessageTool::new((), true).message_encrypted(Some(true)), None);
    assert_eq!(ExternalTeamMessageTool::new((), false).message_encrypted(Some(true)), Some(true));
    assert!(plaintext_when_external((), true).labels_plaintext(true));
    assert!(!plaintext_when_external((), false).labels_plaintext(true));
    assert!(!plaintext_when_external((), true).labels_plaintext(false));
}

#[test]
fn external_prefix_routes_to_the_provider() {
    assert_eq!(route_target("external:lead-agent", true), TargetRoute::External("lead-agent".to_string()));
    assert_eq!(route_target("external:lead-agent", false), TargetRoute::NotAttached);
    assert_eq!(route_target("/root/child", true), TargetRoute::Local { external_fallback: false });
    assert_eq!(route_target("lead-agent", true), TargetRoute::Local { external_fallback: true });
    assert_eq!(route_target("lead-agent", false), TargetRoute::Local { external_fallback: false });
}

#[test]
fn external_lookups_report_missing_agents() {
    assert_eq!(check_external_name("  "), Err("external agent target must not be empty".to_string()));
    assert_eq!(
        external_lookup("ghost", Ok(None)),
        Err("external agent `ghost` was not found".to_string())
    );
    assert_eq!(external_lookup("lead-agent", Ok(Some(lead()))), Ok(lead()));
    assert_eq!(fallback_outcome("no local agent".to_string(), Ok(None)), Err("no local agent".to_string()));
    assert_eq!(fallback_outcome("x".to_string(), Err("provider down".to_string())), Err("provider down".to_string()));
}

#[test]
fn statuses_and_deliveries_translate() {
    assert_eq!(agent_status(ExternalAgentStatus::Active), AgentStatus::Running);
    assert_eq!(agent_status(ExternalAgentStatus::Idle), AgentStatus::PendingInit);
    assert_eq!(agent_status(ExternalAgentStatus::Unknown), AgentStatus::PendingInit);
    assert_eq!(agent_status(ExternalAgentStatus::Stopped), AgentStatus::Shutdown);
    assert_eq!(delivery_for(MessageDeliveryMode::QueueOnly), ExternalMessageDelivery::Queue);
    assert_eq!(delivery_for(MessageDeliveryMode::TriggerTurn), ExternalMessageDelivery::Wake);
    let listed = external_listing(&vec![lead()]);
    assert_eq!(listed[0].agent_name, "lead-agent");
    assert_eq!(listed[0].agent_status, AgentStatus::PendingInit);
}

#[test]
fn external_agents_show_only_under_external_prefixes() {
    assert!(external_agents_visible(None));
    assert!(external_agents_visible(Some("external")));
    assert!(external_agents_visible(Some("external:peer")));
    assert!(!external_agents_visible(Some("/root")));
}

struct FixedProvider;

impl ExternalTeamProvider for FixedProvider {
    fn identity(&self) -> ExternalAgent {
        lead()
    }
    fn parent(&self) -> ExternalAgent {
        lead()
    }
    fn resolve_agent(&self, _target: &str) -> Result<Option<ExternalAgent>, String> {
        Ok(Some(lead()))
    }
    fn list_agents(&self) -> Result<Vec<ExternalAgent>, String> {
        Ok(vec![lead()])
    }
    fn send_message(&self, _t: &ExternalAgent, _c: &str, _d: ExternalMessageDelivery) -> Result<(), String> {
        Ok(())
    }
    fn interrupt(&self, _t: &ExternalAgent, _r: &str) -> Result<(), String> {
        Ok(())
    }
}

#[test]
fn handles_share_their_provider() {
    let provider = Arc::new(FixedProvider);
    let handle = ExternalTeamHandle::new(provider.clone());
    assert!(Arc::ptr_eq(handle.provider(), &provider));
    assert_eq!(handle.clone().provider().identity().name, "lead-agent");
}
