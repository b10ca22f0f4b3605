//! The team provider: its roster, inbox and outbound rules over the team runtime's
//! files. The files are read and written by the host; this module decides what they mean.
use crate::digest::hex_sha256;
use crate::digest::sha256_hex;
use crate::digest::text_sha256_hex;
use crate::extension_api::agent_view;
use crate::extension_api::copy_agent;
use crate::extension_api::opt_view;
use crate::extension_api::ExternalAgent;
use crate::extension_api::ExternalAgentStatus;
use crate::json::JsonField;
use crate::text::approx_token_count;
use crate::text::ascii_lower_seq;
use crate::text::concat;
use crate::text::concat3;
use crate::text::concat5;
use crate::text::copy_opt_string;
use crate::text::decimal;
use crate::text::is_blank;
use crate::text::spec_approx_tokens;
use crate::text::str_eq;
use crate::text::trim;
use crate::text::byte_len;
use vstd::prelude::*;

verus! {

/// Largest team configuration file the provider reads.
pub const MAX_TEAM_FILE_BYTES: u64 = 4194304;

/// Largest inbox file the provider reads.
pub const MAX_INBOX_FILE_BYTES: u64 = 16777216;

/// Largest message, in bytes, accepted in either direction.
pub const MAX_MESSAGE_BYTES: usize = 131072;

/// Largest approximate token count of a message shown to the model.
pub const MAX_MODEL_MESSAGE_TOKENS: usize = 8000;

/// How many times an outbound append is written and checked before it is reported as failed.
pub const OUTBOUND_WRITE_ATTEMPTS: usize = 4;

/// Configuration of the provider for one Codex teammate.
#[derive(Clone, Debug)]
pub struct ClaudeProviderConfig {
    pub claude_home: String,
    pub team_name: String,
    pub agent_name: String,
    pub agent_id: String,
    pub agent_role: Option<String>,
    pub parent_name: Option<String>,
}

/// One member of the team configuration file.
#[derive(Clone, Debug)]
pub struct ClaudeMember {
    pub agent_id: Option<String>,
    pub name: String,
    pub agent_type: Option<String>,
    pub status: Option<String>,
    pub prompt: String,
}

/// The team configuration file: the lead and the members.
#[derive(Clone, Debug)]
pub struct ClaudeTeamConfig {
    pub lead_agent_id: String,
    pub members: Vec<ClaudeMember>,
}

/// One well-formed entry of an inbox file. `encoded` is the entry re-encoded as compact JSON,
/// from which an entry without a message id gets a stable one.
#[derive(Clone, Debug)]
pub struct ClaudeMessage {
    pub from: String,
    pub text: String,
    pub msg_id: String,
    pub kind: String,
    pub encoded: Vec<u8>,
}

/// A message addressed to this teammate, ready for delivery into the thread.
#[derive(Clone, Debug, PartialEq, Eq)]
pub struct ClaudeInboundMessage {
    pub id: String,
    pub author: String,
    pub content: String,
    pub kind: String,
}

/// The envelope of a message this teammate appends to another member's inbox.
#[derive(Clone, Debug, PartialEq, Eq)]
pub struct OutboundEnvelope {
    pub from: String,
    pub text: String,
    pub timestamp: String,
    pub msg_version: u8,
    pub msg_id: String,
    pub kind: String,
    pub read: bool,
}

/// The version an inbox entry without `msgV` has.
pub fn message_version() -> (r: u8)
    ensures
        r == 1,
{
    1
}

/// The kind an inbox entry without `type` has.
pub fn message_kind() -> (r: String)
    ensures
        r@ == "message"@,
{
    "message".to_owned()
}

/// The outcome of reading a provider file.
#[derive(Clone, Debug)]
pub enum FileRead<T> {
    /// The file does not exist; the text says which.
    Missing(String),
    /// The file could not be read or parsed; the text says why.
    Failed(String),
    Loaded(T),
}

/// The provider of one Codex teammate in an externally managed team.
#[derive(Clone, Debug)]
pub struct ClaudeCodeProvider {
    config: ClaudeProviderConfig,
}

/// A message by its id, author, content and kind.
pub open spec fn inbound_view(m: ClaudeInboundMessage) -> (Seq<char>, Seq<char>, Seq<char>, Seq<char>) {
    (m.id@, m.author@, m.content@, m.kind@)
}

// ---------------------------------------------------------------------------
// Path components
// ---------------------------------------------------------------------------

/// Whether `value` may name a directory or file below the team directory: not empty, not `.`
/// or `..`, and free of `/`, `\` and NUL.
pub open spec fn valid_component(value: Seq<char>) -> bool {
    &&& value.len() > 0
    &&& value != seq!['.']
    &&& value != seq!['.', '.']
    &&& !value.contains('/')
    &&& !value.contains('\\')
    &&& !value.contains('\0')
}

/// Rejects a team, agent or target name that is not a single path component.
pub fn validate_component(label: &str, value: &str) -> (r: Result<(), String>)
    ensures
        r is Ok <==> valid_component(value@),
        r matches Err(e) ==> e@ == "invalid "@ + label@ + " `"@ + value@ + "`"@,
{
    let v = crate::text::chars_of(value);
    let mut bad = v.len() == 0;
    if v.len() == 1 && v[0] == '.' {
        proof {
            assert(value@ =~= seq!['.']);
        }
        bad = true;
    }
    if v.len() == 2 && v[0] == '.' && v[1] == '.' {
        proof {
            assert(value@ =~= seq!['.', '.']);
        }
        bad = true;
    }
    proof {
        if v.len() == 1 && v[0] != '.' {
            assert(value@[0] != seq!['.'][0]);
        }
        if v.len() == 2 && !(v[0] == '.' && v[1] == '.') {
            assert(value@ != seq!['.', '.']) by {
                if value@ == seq!['.', '.'] {
                    assert(value@[0] == '.' && value@[1] == '.');
                }
            }
        }
    }
    let mut i: usize = 0;
    let mut separator = false;
    while i < v.len()
        invariant
            i <= v.len(),
            v@ == value@,
            separator <==> exists|k: int| 0 <= k < i && (v@[k] == '/' || v@[k] == '\\' || v@[k] == '\0'),
        decreases v.len() - i,
    {
        if v[i] == '/' || v[i] == '\\' || v[i] == '\0' {
            separator = true;
        }
        i = i + 1;
    }
    proof {
        if value@.contains('/') {
            let k = choose|k: int| 0 <= k < value@.len() && value@[k] == '/';
            assert(v@[k] == '/');
        }
        if value@.contains('\\') {
            let k = choose|k: int| 0 <= k < value@.len() && value@[k] == '\\';
            assert(v@[k] == '\\');
        }
        if value@.contains('\0') {
            let k = choose|k: int| 0 <= k < value@.len() && value@[k] == '\0';
            assert(v@[k] == '\0');
        }
        if separator {
            let k = choose|k: int| 0 <= k < i && (v@[k] == '/' || v@[k] == '\\' || v@[k] == '\0');
            assert(value@[k] == v@[k]);
        }
    }
    if bad || separator {
        Err(concat5("invalid ", label, " `", value, "`"))
    } else {
        Ok(())
    }
}

// ---------------------------------------------------------------------------
// Lead and parent
// ---------------------------------------------------------------------------

/// Index of the first `@` in `s`, or its length.
pub open spec fn first_at(s: Seq<char>, from: int) -> int
    decreases s.len() - from,
{
    if from >= s.len() {
        s.len() as int
    } else if s[from] == '@' {
        from
    } else {
        first_at(s, from + 1)
    }
}

/// The lead's name: its agent id up to the first `@`, when that is not empty.
pub open spec fn lead_name_of(lead_agent_id: Seq<char>) -> Option<Seq<char>> {
    let k = first_at(lead_agent_id, 0);
    if k == 0 {
        None
    } else {
        Some(lead_agent_id.take(k))
    }
}

proof fn lemma_first_at_bounds(s: Seq<char>, from: int)
    requires
        0 <= from <= s.len(),
    ensures
        from <= first_at(s, from) <= s.len(),
        first_at(s, from) < s.len() ==> s[first_at(s, from)] == '@',
        forall|k: int| from <= k < first_at(s, from) ==> s[k] != '@',
    decreases s.len() - from,
{
    if from < s.len() && s[from] != '@' {
        lemma_first_at_bounds(s, from + 1);
    }
}

/// The part of `lead_agent_id` before the first `@`, when it is not empty.
pub fn lead_name(lead_agent_id: &str) -> (r: Option<String>)
    ensures
        opt_view(r) == lead_name_of(lead_agent_id@),
{
    let v = crate::text::chars_of(lead_agent_id);
    let mut i: usize = 0;
    while i < v.len() && v[i] != '@'
        invariant
            i <= v.len(),
            v@ == lead_agent_id@,
            first_at(v@, 0) == first_at(v@, i as int),
        decreases v.len() - i,
    {
        i = i + 1;
    }
    if i == 0 {
        None
    } else {
        Some(crate::text::sub_string(&v, 0, i))
    }
}

/// The parent's name: the configured one, else `team-lead`.
pub open spec fn parent_name_of(config: ClaudeProviderConfig) -> Seq<char> {
    match config.parent_name {
        Some(p) => p@,
        None => "team-lead"@,
    }
}

/// The parent's name as the team file gives it: the configured one, else the lead's name,
/// else `team-lead`.
pub open spec fn parent_name_from_team_of(config: ClaudeProviderConfig, team: ClaudeTeamConfig) -> Seq<char> {
    match config.parent_name {
        Some(p) => p@,
        None => match lead_name_of(team.lead_agent_id@) {
            Some(n) => n,
            None => "team-lead"@,
        },
    }
}

// ---------------------------------------------------------------------------
// Status and roster
// ---------------------------------------------------------------------------

/// The provider-neutral status for a status word of the team file, compared ignoring ASCII case.
pub open spec fn external_status_of(status: Seq<char>) -> ExternalAgentStatus {
    let s = ascii_lower_seq(status);
    if s == "active"@ || s == "working"@ {
        ExternalAgentStatus::Active
    } else if s == "idle"@ {
        ExternalAgentStatus::Idle
    } else if s == "stopped"@ || s == "shutdown"@ {
        ExternalAgentStatus::Stopped
    } else {
        ExternalAgentStatus::Unknown
    }
}

/// Maps a status word of the team file to a provider-neutral status.
pub fn external_status(status: &str) -> (r: ExternalAgentStatus)
    ensures
        r == external_status_of(status@),
{
    let lower = crate::text::string_of(&crate::text::ascii_lowercase_chars(status));
    let s = lower.as_str();
    if str_eq(s, "active") || str_eq(s, "working") {
        ExternalAgentStatus::Active
    } else if str_eq(s, "idle") {
        ExternalAgentStatus::Idle
    } else if str_eq(s, "stopped") || str_eq(s, "shutdown") {
        ExternalAgentStatus::Stopped
    } else {
        ExternalAgentStatus::Unknown
    }
}

/// The agent a member of the team file stands for.
pub open spec fn member_agent(
    team_name: Seq<char>,
    m: ClaudeMember,
) -> (Seq<char>, Seq<char>, Option<Seq<char>>, ExternalAgentStatus) {
    (
        match m.agent_id {
            Some(id) => id@,
            None => m.name@ + "@"@ + team_name,
        },
        m.name@,
        opt_view(m.agent_type),
        match m.status {
            Some(s) => external_status_of(s@),
            None => ExternalAgentStatus::Unknown,
        },
    )
}

/// The agents of a roster, in file order.
pub open spec fn roster_of(
    team_name: Seq<char>,
    members: Seq<ClaudeMember>,
) -> Seq<(Seq<char>, Seq<char>, Option<Seq<char>>, ExternalAgentStatus)> {
    members.map_values(|m: ClaudeMember| member_agent(team_name, m))
}

/// Whether an agent answers to `target`, by name or by id.
pub open spec fn answers_to(
    a: (Seq<char>, Seq<char>, Option<Seq<char>>, ExternalAgentStatus),
    target: Seq<char>,
) -> bool {
    a.1 == target || a.0 == target
}

/// The first agent, from index `from` on, that answers to `target`.
pub open spec fn first_answering(
    agents: Seq<(Seq<char>, Seq<char>, Option<Seq<char>>, ExternalAgentStatus)>,
    target: Seq<char>,
    from: int,
) -> Option<(Seq<char>, Seq<char>, Option<Seq<char>>, ExternalAgentStatus)>
    decreases agents.len() - from,
{
    if from < 0 || from >= agents.len() {
        None
    } else if answers_to(agents[from], target) {
        Some(agents[from])
    } else {
        first_answering(agents, target, from + 1)
    }
}

/// `target` without a leading `external:`.
pub open spec fn without_external_prefix(target: Seq<char>) -> Seq<char> {
    if crate::text::has_prefix(target, "external:"@) {
        target.skip(9)
    } else {
        target
    }
}

/// The optional agent by its fields.
pub open spec fn opt_agent_view(o: Option<ExternalAgent>) -> Option<
    (Seq<char>, Seq<char>, Option<Seq<char>>, ExternalAgentStatus),
> {
    match o {
        Some(a) => Some(agent_view(a)),
        None => None,
    }
}

/// The index of the first member named `name`, from `from` on, or the number of members.
pub open spec fn first_named(members: Seq<ClaudeMember>, name: Seq<char>, from: int) -> int
    decreases members.len() - from,
{
    if from < 0 || from >= members.len() {
        members.len() as int
    } else if members[from].name@ == name {
        from
    } else {
        first_named(members, name, from + 1)
    }
}

proof fn lemma_first_named_bounds(members: Seq<ClaudeMember>, name: Seq<char>, from: int)
    requires
        0 <= from <= members.len(),
    ensures
        from <= first_named(members, name, from) <= members.len(),
        first_named(members, name, from) < members.len() ==> members[first_named(members, name, from)].name@ == name,
        forall|k: int| from <= k < first_named(members, name, from) ==> members[k].name@ != name,
    decreases members.len() - from,
{
    if from < members.len() && members[from].name@ != name {
        lemma_first_named_bounds(members, name, from + 1);
    }
}

impl ClaudeCodeProvider {
    /// The configuration the provider runs with.
    pub closed spec fn config(&self) -> ClaudeProviderConfig {
        self.config
    }

    /// Validates the team, agent and parent names and completes the parent from the lead named
    /// by the team file, whose lead agent id is `team_lead_id` when the file could be read.
    pub fn new(config: ClaudeProviderConfig, team_lead_id: Option<String>) -> (r: Result<Self, String>)
        ensures
            r is Ok <==> (valid_component(config.team_name@) && valid_component(config.agent_name@)
                && (config.parent_name matches Some(p) ==> valid_component(p@))),
            !valid_component(config.team_name@) ==> (r matches Err(e) && e@ == "invalid "@ + "team name"@ + " `"@ + config.team_name@ + "`"@),
            valid_component(config.team_name@) && !valid_component(config.agent_name@) ==> (r matches Err(e) && e@ == "invalid "@ + "agent name"@ + " `"@ + config.agent_name@ + "`"@),
            match config.parent_name {
                Some(p) => valid_component(config.team_name@) && valid_component(config.agent_name@) && !valid_component(p@)
                    ==> (r matches Err(e) && e@ == "invalid "@ + "parent name"@ + " `"@ + p@ + "`"@),
                None => true,
            },
            r matches Ok(p) ==> {
                &&& p.config().claude_home == config.claude_home
                &&& p.config().team_name == config.team_name
                &&& p.config().agent_name == config.agent_name
                &&& p.config().agent_id == config.agent_id
                &&& p.config().agent_role == config.agent_role
                &&& opt_view(p.config().parent_name) == match config.parent_name {
                    Some(n) => Some(n@),
                    None => match team_lead_id {
                        Some(l) => lead_name_of(l@),
                        None => None,
                    },
                }
            },
    {
        let mut config = config;
        if let Err(e) = validate_component("team name", config.team_name.as_str()) {
            return Err(e);
        }
        if let Err(e) = validate_component("agent name", config.agent_name.as_str()) {
            return Err(e);
        }
        match &config.parent_name {
            Some(parent_name) => {
                if let Err(e) = validate_component("parent name", parent_name.as_str()) {
                    return Err(e);
                }
            },
            None => {
                config.parent_name = match &team_lead_id {
                    Some(lead) => lead_name(lead.as_str()),
                    None => None,
                };
            },
        }
        Ok(ClaudeCodeProvider { config })
    }

    pub fn team_name(&self) -> (r: &str)
        ensures
            r@ == self.config().team_name@,
    {
        self.config.team_name.as_str()
    }

    pub fn agent_name(&self) -> (r: &str)
        ensures
            r@ == self.config().agent_name@,
    {
        self.config.agent_name.as_str()
    }

    /// This teammate, always active.
    pub fn identity(&self) -> (r: ExternalAgent)
        ensures
            agent_view(r) == (self.config().agent_id@, self.config().agent_name@, opt_view(self.config().agent_role), ExternalAgentStatus::Active),
    {
        ExternalAgent {
            id: self.config.agent_id.clone(),
            name: self.config.agent_name.clone(),
            role: copy_opt_string(&self.config.agent_role),
            status: ExternalAgentStatus::Active,
        }
    }

    /// The external parent: the configured parent (else `team-lead`), in the role `lead`.
    pub fn parent(&self) -> (r: ExternalAgent)
        ensures
            agent_view(r) == (
                parent_name_of(self.config()) + "@"@ + self.config().team_name@,
                parent_name_of(self.config()),
                Some("lead"@),
                ExternalAgentStatus::Unknown,
            ),
    {
        let name = match &self.config.parent_name {
            Some(p) => p.clone(),
            None => "team-lead".to_owned(),
        };
        ExternalAgent {
            id: concat3(name.as_str(), "@", self.config.team_name.as_str()),
            name,
            role: Some("lead".to_owned()),
            status: ExternalAgentStatus::Unknown,
        }
    }

    /// The parent's name as the team file gives it.
    pub fn parent_name_from_team(&self, team: &ClaudeTeamConfig) -> (r: String)
        ensures
            r@ == parent_name_from_team_of(self.config(), *team),
    {
        match &self.config.parent_name {
            Some(p) => p.clone(),
            None => match lead_name(team.lead_agent_id.as_str()) {
                Some(n) => n,
                None => "team-lead".to_owned(),
            },
        }
    }

    /// The agents of the team file, in file order.
    pub fn list_agents(&self, team: &ClaudeTeamConfig) -> (r: Vec<ExternalAgent>)
        ensures
            r@.map_values(|a: ExternalAgent| agent_view(a)) == roster_of(self.config().team_name@, team.members@),
    {
        let mut out: Vec<ExternalAgent> = Vec::new();
        let ghost expected = roster_of(self.config().team_name@, team.members@);
        for i in 0..team.members.len()
            invariant
                expected == roster_of(self.config().team_name@, team.members@),
                out@.len() == i,
                forall|k: int| 0 <= k < i ==> agent_view(#[trigger] out@[k]) == expected[k],
        {
            let m = &team.members[i];
            let id = match &m.agent_id {
                Some(id) => id.clone(),
                None => concat3(m.name.as_str(), "@", self.config.team_name.as_str()),
            };
            let status = match &m.status {
                Some(s) => external_status(s.as_str()),
                None => ExternalAgentStatus::Unknown,
            };
            out.push(ExternalAgent { id, name: m.name.clone(), role: copy_opt_string(&m.agent_type), status });
        }
        proof {
            assert(out@.map_values(|a: ExternalAgent| agent_view(a)) =~= expected);
        }
        out
    }

    /// The first agent of the team file whose name or id is `target`, a leading `external:`
    /// removed.
    pub fn resolve_agent(&self, team: &ClaudeTeamConfig, target: &str) -> (r: Option<ExternalAgent>)
        ensures
            opt_agent_view(r) == first_answering(
                roster_of(self.config().team_name@, team.members@),
                without_external_prefix(target@),
                0,
            ),
    {
        let agents = self.list_agents(team);
        let wanted = strip_external_prefix(target);
        let ghost views = agents@.map_values(|a: ExternalAgent| agent_view(a));
        let mut i: usize = 0;
        while i < agents.len()
            invariant
                i <= agents.len(),
                views == agents@.map_values(|a: ExternalAgent| agent_view(a)),
                views == roster_of(self.config().team_name@, team.members@),
                first_answering(views, wanted@, 0) == first_answering(views, wanted@, i as int),
                wanted@ == without_external_prefix(target@),
            decreases agents.len() - i,
        {
            let a = &agents[i];
            proof {
                assert(views[i as int] == agent_view(agents@[i as int]));
            }
            if str_eq(a.name.as_str(), wanted.as_str()) || str_eq(a.id.as_str(), wanted.as_str()) {
                return Some(copy_agent(a));
            }
            i = i + 1;
        }
        None
    }
}

/// `target` without a leading `external:`.
pub fn strip_external_prefix(target: &str) -> (r: String)
    ensures
        r@ == without_external_prefix(target@),
{
    if crate::text::starts_with(target, "external:") {
        let v = crate::text::chars_of(target);
        proof {
            reveal_strlit("external:");
        }
        let mut out: Vec<char> = Vec::new();
        let mut i: usize = 9;
        while i < v.len()
            invariant
                9 <= i <= v.len(),
                v@ == target@,
                out@ == v@.subrange(9, i as int),
            decreases v.len() - i,
        {
            out.push(v[i]);
            proof {
                assert(v@.subrange(9, i + 1) =~= v@.subrange(9, i as int).push(v@[i as int]));
            }
            i = i + 1;
        }
        proof {
            assert(v@.subrange(9, v.len() as int) =~= target@.skip(9));
        }
        crate::text::string_of(&out)
    } else {
        target.to_owned()
    }
}


// ---------------------------------------------------------------------------
// Model-visible bound
// ---------------------------------------------------------------------------

/// Whether a message is small enough to show to the model.
pub open spec fn within_model_limit(content: Seq<char>) -> bool {
    spec_approx_tokens(byte_len(content)) <= MAX_MODEL_MESSAGE_TOKENS
}

/// The error for a message too large to show to the model.
pub open spec fn model_limit_message(content: Seq<char>) -> Seq<char> {
    "teammate message is approximately "@ + decimal(spec_approx_tokens(byte_len(content)))
        + " tokens; the model-visible limit is 8000"@
}

/// Rejects a message whose approximate token count exceeds the model-visible limit.
pub fn validate_model_message(content: &str) -> (r: Result<(), String>)
    ensures
        r is Ok <==> within_model_limit(content@),
        r matches Err(e) ==> e@ == model_limit_message(content@),
{
    let tokens = approx_token_count(content);
    if tokens > MAX_MODEL_MESSAGE_TOKENS {
        let mut e = "teammate message is approximately ".to_owned();
        crate::text::push_decimal(&mut e, tokens as u64);
        e.append(" tokens; the model-visible limit is 8000");
        Err(e)
    } else {
        Ok(())
    }
}

// ---------------------------------------------------------------------------
// Inbound messages
// ---------------------------------------------------------------------------

/// The initial assignment: the prompt of the first member named like this teammate, when it is
/// not blank, authored by the parent as the team file gives it.
pub open spec fn initial_assignment_of(
    config: ClaudeProviderConfig,
    team: ClaudeTeamConfig,
) -> Option<(Seq<char>, Seq<char>)> {
    let k = first_named(team.members@, config.agent_name@, 0);
    if k >= team.members@.len() {
        None
    } else if trim(team.members@[k].prompt@).len() == 0 {
        None
    } else {
        Some((parent_name_from_team_of(config, team), team.members@[k].prompt@))
    }
}

/// The id of an inbox entry: its own id, else one derived from the entry's encoding.
pub open spec fn entry_id(m: ClaudeMessage) -> Seq<char> {
    if m.msg_id@.len() == 0 {
        "legacy:"@ + hex_sha256(m.encoded@)
    } else {
        m.msg_id@
    }
}

/// What the inbox entry at `index` delivers: nothing when it is malformed, too large, beyond
/// the model-visible limit, or the first entry repeating the initial assignment.
pub open spec fn inbox_item(
    initial: Option<(Seq<char>, Seq<char>)>,
    index: int,
    entry: Option<ClaudeMessage>,
) -> Option<(Seq<char>, Seq<char>, Seq<char>, Seq<char>)> {
    match entry {
        None => None,
        Some(m) => if byte_len(m.text@) > MAX_MESSAGE_BYTES {
            None
        } else if !within_model_limit(m.text@) {
            None
        } else if index == 0 && (initial matches Some(a) && m.from@ == a.0 && m.text@ == a.1) {
            None
        } else {
            Some((entry_id(m), m.from@, m.text@, m.kind@))
        },
    }
}

/// What the first `n` inbox entries deliver, in order.
pub open spec fn inbox_items(
    initial: Option<(Seq<char>, Seq<char>)>,
    entries: Seq<Option<ClaudeMessage>>,
    n: int,
) -> Seq<(Seq<char>, Seq<char>, Seq<char>, Seq<char>)>
    decreases n,
{
    if n <= 0 {
        Seq::empty()
    } else {
        inbox_items(initial, entries, n - 1) + match inbox_item(initial, n - 1, entries[n - 1]) {
            Some(v) => seq![v],
            None => Seq::empty(),
        }
    }
}

/// The text of a failed or missing read.
pub open spec fn read_error<T>(r: FileRead<T>) -> Option<Seq<char>> {
    match r {
        FileRead::Missing(m) => Some(m@),
        FileRead::Failed(m) => Some(m@),
        FileRead::Loaded(_) => None,
    }
}

/// The messages `pending_messages` returns for a loaded team file and inbox.
pub open spec fn pending_of(
    config: ClaudeProviderConfig,
    team: ClaudeTeamConfig,
    entries: Seq<Option<ClaudeMessage>>,
) -> Seq<(Seq<char>, Seq<char>, Seq<char>, Seq<char>)> {
    let initial = initial_assignment_of(config, team);
    let first = match initial {
        Some(a) => seq![("initial:"@ + hex_sha256(vstd::utf8::encode_utf8(a.1)), a.0, a.1, "new_task"@)],
        None => Seq::empty(),
    };
    first + inbox_items(initial, entries, entries.len() as int)
}

fn inbound_message(id: String, author: String, content: String, kind: String) -> (m: ClaudeInboundMessage)
    ensures
        inbound_view(m) == (id@, author@, content@, kind@),
{
    ClaudeInboundMessage { id, author, content, kind }
}

/// Whether a member is named `name`.
pub open spec fn has_member(members: Seq<ClaudeMember>, name: Seq<char>) -> bool {
    exists|k: int| 0 <= k < members.len() && #[trigger] members[k].name@ == name
}


/// Every message delivered from the inbox fits the model-visible limit and the message size
/// limit.
proof fn lemma_inbox_items_bounded(
    initial: Option<(Seq<char>, Seq<char>)>,
    entries: Seq<Option<ClaudeMessage>>,
    n: int,
)
    requires
        0 <= n <= entries.len(),
    ensures
        forall|i: int| 0 <= i < inbox_items(initial, entries, n).len() ==> {
            let m = #[trigger] inbox_items(initial, entries, n)[i];
            within_model_limit(m.2) && byte_len(m.2) <= MAX_MESSAGE_BYTES
        },
    decreases n,
{
    if n > 0 {
        lemma_inbox_items_bounded(initial, entries, n - 1);
        let prev = inbox_items(initial, entries, n - 1);
        let all = inbox_items(initial, entries, n);
        assert forall|i: int| 0 <= i < all.len() implies {
            let m = #[trigger] all[i];
            within_model_limit(m.2) && byte_len(m.2) <= MAX_MESSAGE_BYTES
        } by {
            if i < prev.len() {
                assert(all[i] == prev[i]);
            }
        }
    }
}

/// Nothing the provider delivers into the thread exceeds the model-visible limit: the initial
/// assignment is refused when it does, and inbox messages that do are dropped, as are those
/// over the message size limit.
pub proof fn law_pending_messages_fit_the_model_limit(
    config: ClaudeProviderConfig,
    team: ClaudeTeamConfig,
    entries: Seq<Option<ClaudeMessage>>,
)
    requires
        initial_assignment_of(config, team) matches Some(a) ==> within_model_limit(a.1),
    ensures
        forall|i: int| 0 <= i < pending_of(config, team, entries).len() ==> within_model_limit(
            (#[trigger] pending_of(config, team, entries)[i]).2,
        ),
{
    let initial = initial_assignment_of(config, team);
    let items = inbox_items(initial, entries, entries.len() as int);
    lemma_inbox_items_bounded(initial, entries, entries.len() as int);
    let first: Seq<(Seq<char>, Seq<char>, Seq<char>, Seq<char>)> = match initial {
        Some(a) => seq![("initial:"@ + hex_sha256(vstd::utf8::encode_utf8(a.1)), a.0, a.1, "new_task"@)],
        None => Seq::empty(),
    };
    let all = pending_of(config, team, entries);
    assert(all == first + items);
    assert forall|i: int| 0 <= i < all.len() implies within_model_limit((#[trigger] all[i]).2) by {
        if i >= first.len() {
            assert(all[i] == items[i - first.len()]);
        }
    }
}

impl ClaudeCodeProvider {
    /// Whether this teammate is a member of the team file; a missing file is an absent roster.
    pub fn is_on_roster(&self, team: &FileRead<ClaudeTeamConfig>) -> (r: Result<bool, String>)
        ensures
            match team {
                FileRead::Loaded(t) => r == Ok::<bool, String>(has_member(t.members@, self.config().agent_name@)),
                FileRead::Missing(_) => r == Ok::<bool, String>(false),
                FileRead::Failed(m) => r matches Err(e) && e@ == m@,
            },
    {
        match team {
            FileRead::Loaded(t) => {
                let mut i: usize = 0;
                while i < t.members.len()
                    invariant
                        i <= t.members.len(),
                        *team == FileRead::<ClaudeTeamConfig>::Loaded(*t),
                        forall|k: int| 0 <= k < i ==> #[trigger] t.members@[k].name@ != self.config().agent_name@,
                    decreases t.members.len() - i,
                {
                    if str_eq(t.members[i].name.as_str(), self.config.agent_name.as_str()) {
                        proof {
                            assert(t.members@[i as int].name@ == self.config().agent_name@);
                        }
                        return Ok(true);
                    }
                    i = i + 1;
                }
                Ok(false)
            },
            FileRead::Missing(_) => Ok(false),
            FileRead::Failed(m) => Err(m.clone()),
        }
    }

    /// The initial assignment of the team file, if any.
    fn initial_assignment(&self, team: &ClaudeTeamConfig) -> (r: Option<(String, String)>)
        ensures
            match r {
                Some(a) => initial_assignment_of(self.config(), *team) == Some((a.0@, a.1@)),
                None => initial_assignment_of(self.config(), *team) is None,
            },
    {
        let mut i: usize = 0;
        while i < team.members.len() && !str_eq(team.members[i].name.as_str(), self.config.agent_name.as_str())
            invariant
                i <= team.members.len(),
                first_named(team.members@, self.config().agent_name@, 0) == first_named(team.members@, self.config().agent_name@, i as int),
            decreases team.members.len() - i,
        {
            i = i + 1;
        }
        if i == team.members.len() {
            return None;
        }
        let m = &team.members[i];
        if is_blank(m.prompt.as_str()) {
            None
        } else {
            Some((self.parent_name_from_team(team), m.prompt.clone()))
        }
    }

    /// The messages waiting for this teammate: the initial assignment of the team file, then
    /// the deliverable entries of its inbox in order. A missing inbox is empty.
    pub fn pending_messages(
        &self,
        team: &FileRead<ClaudeTeamConfig>,
        inbox: &FileRead<Vec<Option<ClaudeMessage>>>,
    ) -> (r: Result<Vec<ClaudeInboundMessage>, String>)
        ensures
            read_error(*team) matches Some(m) ==> (r matches Err(e) && e@ == m),
            match team {
                FileRead::Loaded(t) => match initial_assignment_of(self.config(), *t) {
                    Some(a) if !within_model_limit(a.1) => r matches Err(e) && e@ == model_limit_message(a.1),
                    _ => match inbox {
                        FileRead::Failed(m) => r matches Err(e) && e@ == m@,
                        FileRead::Missing(_) => r matches Ok(v) && v@.map_values(|m: ClaudeInboundMessage| inbound_view(m))
                            == pending_of(self.config(), *t, Seq::empty()),
                        FileRead::Loaded(entries) => r matches Ok(v) && v@.map_values(|m: ClaudeInboundMessage| inbound_view(m))
                            == pending_of(self.config(), *t, entries@),
                    },
                },
                _ => true,
            },
    {
        let t = match team {
            FileRead::Loaded(t) => t,
            FileRead::Missing(m) => {
                return Err(m.clone());
            },
            FileRead::Failed(m) => {
                return Err(m.clone());
            },
        };
        let initial = self.initial_assignment(t);
        let ghost init_spec = initial_assignment_of(self.config(), *t);
        let mut messages: Vec<ClaudeInboundMessage> = Vec::new();
        match &initial {
            Some((author, content)) => {
                if let Err(e) = validate_model_message(content.as_str()) {
                    return Err(e);
                }
                let digest = text_sha256_hex(content.as_str());
                messages.push(inbound_message(
                    concat("initial:", digest.as_str()),
                    author.clone(),
                    content.clone(),
                    "new_task".to_owned(),
                ));
            },
            None => {},
        }
        let ghost first = messages@.map_values(|m: ClaudeInboundMessage| inbound_view(m));
        let empty: Vec<Option<ClaudeMessage>> = Vec::new();
        let entries: &Vec<Option<ClaudeMessage>> = match inbox {
            FileRead::Loaded(entries) => entries,
            FileRead::Missing(_) => &empty,
            FileRead::Failed(m) => {
                return Err(m.clone());
            },
        };
        proof {
            assert(first == pending_of(self.config(), *t, entries@).take(first.len() as int)) by {
                assert(inbox_items(init_spec, entries@, 0) =~= Seq::<(Seq<char>, Seq<char>, Seq<char>, Seq<char>)>::empty());
            }
            assert(messages@.map_values(|m: ClaudeInboundMessage| inbound_view(m)) =~= first + inbox_items(init_spec, entries@, 0));
        }
        let mut i: usize = 0;
        while i < entries.len()
            invariant
                i <= entries.len(),
                init_spec == initial_assignment_of(self.config(), *t),
                match initial {
                    Some(a) => init_spec == Some((a.0@, a.1@)),
                    None => init_spec is None,
                },
                messages@.map_values(|m: ClaudeInboundMessage| inbound_view(m)) == first + inbox_items(init_spec, entries@, i as int),
            decreases entries.len() - i,
        {
            let ghost before = messages@.map_values(|m: ClaudeInboundMessage| inbound_view(m));
            match &entries[i] {
                None => {},
                Some(m) => {
                    let id = if m.msg_id.as_str().is_empty() {
                        let digest = sha256_hex(&m.encoded);
                        concat("legacy:", digest.as_str())
                    } else {
                        m.msg_id.clone()
                    };
                    let oversized = m.text.as_str().len() > MAX_MESSAGE_BYTES;
                    let beyond = !oversized && validate_model_message(m.text.as_str()).is_err();
                    let repeat = !oversized && !beyond && i == 0 && match &initial {
                        Some((author, content)) => str_eq(m.from.as_str(), author.as_str()) && str_eq(m.text.as_str(), content.as_str()),
                        None => false,
                    };
                    proof {
                        assert(id@ == entry_id(*m));
                        assert(oversized == (byte_len(m.text@) > MAX_MESSAGE_BYTES));
                        let item = inbox_item(init_spec, i as int, entries@[i as int]);
                        if !oversized && !beyond && !repeat {
                            assert(item == Some((id@, m.from@, m.text@, m.kind@)));
                        } else {
                            assert(item is None);
                        }
                    }
                    if !oversized && !beyond && !repeat {
                        let msg = inbound_message(id, m.from.clone(), m.text.clone(), m.kind.clone());
                        messages.push(msg);
                        proof {
                            assert(messages@.map_values(|m: ClaudeInboundMessage| inbound_view(m)) =~= before.push(inbound_view(msg)));
                        }
                    }
                },
            }
            proof {
                let item = inbox_item(init_spec, i as int, entries@[i as int]);
                assert(inbox_items(init_spec, entries@, i + 1) == inbox_items(init_spec, entries@, i as int) + match item {
                    Some(v) => seq![v],
                    None => Seq::empty(),
                });
                assert(messages@.map_values(|m: ClaudeInboundMessage| inbound_view(m)) =~= first + inbox_items(init_spec, entries@, i + 1));
            }
            i = i + 1;
        }
        Ok(messages)
    }
}


// ---------------------------------------------------------------------------
// Outbound messages and authority
// ---------------------------------------------------------------------------

/// The agent of the team file that answers to `target`.
pub open spec fn resolved_in(
    config: ClaudeProviderConfig,
    team: ClaudeTeamConfig,
    target: Seq<char>,
) -> Option<(Seq<char>, Seq<char>, Option<Seq<char>>, ExternalAgentStatus)> {
    first_answering(roster_of(config.team_name@, team.members@), without_external_prefix(target), 0)
}

/// The text of a shutdown acknowledgement for `request_id`, as compact JSON with its keys in
/// order.
pub open spec fn shutdown_acknowledgement_of(request_id: Seq<char>) -> Seq<char> {
    "{\"approve\":true,\"reason\":\"Codex teammate acknowledged the native shutdown request.\",\"request_id\":"@
        + crate::json::json_quote(request_id) + ",\"type\":\"shutdown_response\"}"@
}

/// The control message that acknowledges the shutdown request `request_id`.
pub fn shutdown_acknowledgement(request_id: &str) -> (r: String)
    ensures
        r@ == shutdown_acknowledgement_of(request_id@),
{
    let quoted = crate::json::json_string(request_id);
    concat3(
        "{\"approve\":true,\"reason\":\"Codex teammate acknowledged the native shutdown request.\",\"request_id\":",
        quoted.as_str(),
        ",\"type\":\"shutdown_response\"}",
    )
}

/// Whether an outbound message may be appended to the inbox of the member `target_name`.
pub open spec fn outbound_error(target_name: Seq<char>, content: Seq<char>) -> Option<Seq<char>> {
    if trim(content).len() == 0 {
        Some("external teammate messages must not be empty"@)
    } else if byte_len(content) > MAX_MESSAGE_BYTES {
        Some("external teammate message exceeds 131072 bytes"@)
    } else if !valid_component(target_name) {
        Some("invalid "@ + "target name"@ + " `"@ + target_name + "`"@)
    } else {
        None
    }
}

/// The id of a raw inbox entry by its `msg_id` and `id` fields: `msg_id` when the entry has
/// it, else `id`, in either case only when it is a string.
pub open spec fn entry_message_id(msg_id: JsonField, id: JsonField) -> Option<Seq<char>> {
    match msg_id {
        JsonField::Text(t) => Some(t@),
        JsonField::Other => None,
        _ => match id {
            JsonField::Text(t) => Some(t@),
            _ => None,
        },
    }
}

/// The id of a raw inbox entry by its `msg_id` and `id` fields.
pub fn message_id(msg_id: &JsonField, id: &JsonField) -> (r: Option<String>)
    ensures
        opt_view(r) == entry_message_id(*msg_id, *id),
{
    match msg_id {
        JsonField::Text(t) => Some(t.clone()),
        JsonField::Other => None,
        _ => match id {
            JsonField::Text(t) => Some(t.clone()),
            _ => None,
        },
    }
}

/// Whether an inbox, given by the `msg_id` and `id` fields of its entries, holds the message
/// `id`.
pub fn inbox_has_message(entries: &Vec<(JsonField, JsonField)>, id: &str) -> (r: bool)
    ensures
        r == exists|k: int| 0 <= k < entries@.len() && #[trigger] entry_message_id(entries@[k].0, entries@[k].1) == Some(id@),
{
    let mut i: usize = 0;
    while i < entries.len()
        invariant
            i <= entries.len(),
            forall|k: int| 0 <= k < i ==> #[trigger] entry_message_id(entries@[k].0, entries@[k].1) != Some(id@),
        decreases entries.len() - i,
    {
        let found = match message_id(&entries[i].0, &entries[i].1) {
            Some(m) => str_eq(m.as_str(), id),
            None => false,
        };
        if found {
            proof {
                assert(entry_message_id(entries@[i as int].0, entries@[i as int].1) == Some(id@));
            }
            return true;
        }
        i = i + 1;
    }
    false
}

impl ClaudeCodeProvider {
    /// Checks a message before it is appended to the inbox of `target_name`.
    pub fn check_outbound(&self, target_name: &str, content: &str) -> (r: Result<(), String>)
        ensures
            match outbound_error(target_name@, content@) {
                Some(e) => r matches Err(x) && x@ == e,
                None => r is Ok,
            },
    {
        if is_blank(content) {
            return Err("external teammate messages must not be empty".to_owned());
        }
        if content.len() > MAX_MESSAGE_BYTES {
            return Err("external teammate message exceeds 131072 bytes".to_owned());
        }
        validate_component("target name", target_name)
    }

    /// Where a message to `target` goes: the inbox of `target`'s name, when the team file still
    /// lists an agent with `target`'s id under that name and the message passes
    /// `check_outbound`.
    pub fn send_message(
        &self,
        team: &FileRead<ClaudeTeamConfig>,
        target: &ExternalAgent,
        content: &str,
    ) -> (r: Result<String, String>)
        ensures
            read_error(*team) matches Some(m) ==> (r matches Err(e) && e@ == m),
            match team {
                FileRead::Loaded(t) => {
                    let resolved = resolved_in(self.config(), *t, target.id@);
                    if !(resolved matches Some(a) && a.1 == target.name@) {
                        r matches Err(e) && e@ == "external agent `"@ + target.name@ + "` is no longer on team `"@
                            + self.config().team_name@ + "`"@
                    } else {
                        match outbound_error(target.name@, content@) {
                            Some(e) => r matches Err(x) && x@ == e,
                            None => r matches Ok(n) && n@ == target.name@,
                        }
                    }
                },
                _ => true,
            },
    {
        let t = match team {
            FileRead::Loaded(t) => t,
            FileRead::Missing(m) => {
                return Err(m.clone());
            },
            FileRead::Failed(m) => {
                return Err(m.clone());
            },
        };
        let resolved = self.resolve_agent(t, target.id.as_str());
        let current = match &resolved {
            Some(a) => str_eq(a.name.as_str(), target.name.as_str()),
            None => false,
        };
        if !current {
            return Err(concat5(
                "external agent `",
                target.name.as_str(),
                "` is no longer on team `",
                self.config.team_name.as_str(),
                "`",
            ));
        }
        match self.check_outbound(target.name.as_str(), content) {
            Ok(()) => Ok(target.name.clone()),
            Err(e) => Err(e),
        }
    }

    /// The envelope of an outbound message from this teammate.
    pub fn outbound_envelope(&self, content: &str, timestamp: String, msg_id: String) -> (r: OutboundEnvelope)
        ensures
            r.from@ == self.config().agent_name@,
            r.text@ == content@,
            r.timestamp@ == timestamp@,
            r.msg_version == 1,
            r.msg_id@ == msg_id@,
            r.kind@ == "message"@,
            !r.read,
    {
        OutboundEnvelope {
            from: self.config.agent_name.clone(),
            text: content.to_owned(),
            timestamp,
            msg_version: 1,
            msg_id,
            kind: "message".to_owned(),
            read: false,
        }
    }

    /// The parent as the team file lists it.
    pub fn parent_target(&self, team: &FileRead<ClaudeTeamConfig>) -> (r: Result<ExternalAgent, String>)
        ensures
            read_error(*team) matches Some(m) ==> (r matches Err(e) && e@ == m),
            match team {
                FileRead::Loaded(t) => match resolved_in(self.config(), *t, parent_name_of(self.config())) {
                    Some(a) => r matches Ok(x) && agent_view(x) == a,
                    None => r matches Err(e) && e@ == "external parent `"@ + parent_name_of(self.config())
                        + "` is not on team `"@ + self.config().team_name@ + "`"@,
                },
                _ => true,
            },
    {
        let t = match team {
            FileRead::Loaded(t) => t,
            FileRead::Missing(m) => {
                return Err(m.clone());
            },
            FileRead::Failed(m) => {
                return Err(m.clone());
            },
        };
        let parent = self.parent();
        match self.resolve_agent(t, parent.name.as_str()) {
            Some(a) => Ok(a),
            None => Err(concat5(
                "external parent `",
                parent.name.as_str(),
                "` is not on team `",
                self.config.team_name.as_str(),
                "`",
            )),
        }
    }

    /// The author of a shutdown request, when the team file lists it and it is the parent.
    pub fn shutdown_requester(&self, team: &FileRead<ClaudeTeamConfig>, author: &str) -> (r: Result<ExternalAgent, String>)
        ensures
            read_error(*team) matches Some(m) ==> (r matches Err(e) && e@ == m),
            match team {
                FileRead::Loaded(t) => match resolved_in(self.config(), *t, author@) {
                    None => r matches Err(e) && e@ == "shutdown requester `"@ + author@ + "` is not on the external team"@,
                    Some(a) => if a.1 != parent_name_of(self.config()) {
                        r matches Err(e) && e@ == "external agent `"@ + a.1 + "` is not authorized to shut down `"@
                            + self.config().agent_name@ + "`"@
                    } else {
                        r matches Ok(x) && agent_view(x) == a
                    },
                },
                _ => true,
            },
    {
        let t = match team {
            FileRead::Loaded(t) => t,
            FileRead::Missing(m) => {
                return Err(m.clone());
            },
            FileRead::Failed(m) => {
                return Err(m.clone());
            },
        };
        let requester = match self.resolve_agent(t, author) {
            Some(a) => a,
            None => {
                return Err(concat3("shutdown requester `", author, "` is not on the external team"));
            },
        };
        let parent = self.parent();
        if !str_eq(requester.name.as_str(), parent.name.as_str()) {
            return Err(concat5(
                "external agent `",
                requester.name.as_str(),
                "` is not authorized to shut down `",
                self.config.agent_name.as_str(),
                "`",
            ));
        }
        Ok(requester)
    }

    /// Whether `author` is the parent as the team file lists it.
    pub fn is_parent(&self, team: &FileRead<ClaudeTeamConfig>, author: &str) -> (r: Result<bool, String>)
        ensures
            read_error(*team) matches Some(m) ==> (r matches Err(e) && e@ == m),
            match team {
                FileRead::Loaded(t) => r == Ok::<bool, String>(
                    resolved_in(self.config(), *t, author@) matches Some(a) && a.1 == parent_name_of(self.config()),
                ),
                _ => true,
            },
    {
        let t = match team {
            FileRead::Loaded(t) => t,
            FileRead::Missing(m) => {
                return Err(m.clone());
            },
            FileRead::Failed(m) => {
                return Err(m.clone());
            },
        };
        let parent = self.parent();
        match self.resolve_agent(t, author) {
            Some(a) => Ok(str_eq(a.name.as_str(), parent.name.as_str())),
            None => Ok(false),
        }
    }

    /// The team runtime offers no interrupt; every request is refused.
    pub fn interrupt(&self, target: &ExternalAgent) -> (r: Result<(), String>)
        ensures
            r matches Err(e) && e@ == "the external team runtime does not expose a stable interrupt contract for `"@
                + target.name@ + "`"@,
    {
        Err(concat3(
            "the external team runtime does not expose a stable interrupt contract for `",
            target.name.as_str(),
            "`",
        ))
    }
}

} // verus!
