//! The inbox worker of a Codex teammate: how external messages enter the thread, how the
//! parent's shutdown request is honoured, and how the final answer and idle state go back.
use crate::provider::ClaudeInboundMessage;
use crate::digest::hex_sha256;
use crate::digest::text_sha256_hex;
use crate::journal::DeliveryJournalIds;
use crate::json::has_text_field;
use crate::json::json_quote;
use crate::json::json_top_level_field;
use crate::json::JsonField;
use crate::text::ascii_lower;
use crate::text::chars_of;
use crate::text::concat;
use crate::text::concat3;
use crate::text::concat5;
use crate::text::str_eq;
use crate::text::string_of;
use crate::text::sub_string;
use crate::text::trim;
use vstd::prelude::*;

verus! {

/// How many characters of the final answer the idle notification repeats.
pub const SUMMARY_CHARS: usize = 500;

/// Default interval between inbox polls, in milliseconds.
pub const DEFAULT_POLL_INTERVAL_MS: u64 = 200;

/// Shortest accepted interval between inbox polls, in milliseconds.
pub const MIN_POLL_INTERVAL_MS: u64 = 50;

/// Longest accepted interval between inbox polls, in milliseconds.
pub const MAX_POLL_INTERVAL_MS: u64 = 5000;

// ---------------------------------------------------------------------------
// Idle summary
// ---------------------------------------------------------------------------

/// The first `SUMMARY_CHARS` characters of `text`, with `…` appended when characters were cut.
pub open spec fn bounded_summary_of(text: Seq<char>) -> Seq<char> {
    if text.len() > SUMMARY_CHARS {
        text.take(SUMMARY_CHARS as int).push('…')
    } else {
        text
    }
}

/// The summary of a final answer carried by the idle notification.
pub fn bounded_summary(text: &str) -> (r: String)
    ensures
        r@ == bounded_summary_of(text@),
{
    let v = chars_of(text);
    if v.len() > SUMMARY_CHARS {
        let mut out: Vec<char> = Vec::new();
        for i in 0..SUMMARY_CHARS
            invariant
                v@ == text@,
                v.len() > SUMMARY_CHARS,
                out@ == v@.take(i as int),
        {
            out.push(v[i]);
            proof {
                assert(v@.take(i + 1) =~= v@.take(i as int).push(v@[i as int]));
            }
        }
        out.push('…');
        string_of(&out)
    } else {
        text.to_owned()
    }
}

// ---------------------------------------------------------------------------
// Agent paths of external authors
// ---------------------------------------------------------------------------

pub open spec fn is_ascii_alnum(c: char) -> bool {
    ('0' <= c && c <= '9') || ('a' <= c && c <= 'z') || ('A' <= c && c <= 'Z')
}

/// A character of an agent path: ASCII letters and digits in lower case, anything else `_`.
pub open spec fn path_char(c: char) -> char {
    if is_ascii_alnum(c) {
        ascii_lower(c)
    } else {
        '_'
    }
}

/// `s` with every run of `_` reduced to one.
pub open spec fn collapse_underscores(s: Seq<char>) -> Seq<char>
    decreases s.len(),
{
    if s.len() == 0 {
        s
    } else {
        let p = collapse_underscores(s.drop_last());
        if s.last() == '_' && p.len() > 0 && p.last() == '_' {
            p
        } else {
            p.push(s.last())
        }
    }
}

/// `s` without leading `_`.
pub open spec fn strip_leading_underscores(s: Seq<char>) -> Seq<char>
    decreases s.len(),
{
    if s.len() > 0 && s[0] == '_' {
        strip_leading_underscores(s.drop_first())
    } else {
        s
    }
}

/// `s` without trailing `_`.
pub open spec fn strip_trailing_underscores(s: Seq<char>) -> Seq<char>
    decreases s.len(),
{
    if s.len() > 0 && s.last() == '_' {
        strip_trailing_underscores(s.drop_last())
    } else {
        s
    }
}

/// The sanitized form of an external name: path characters, runs of `_` collapsed, `_`
/// trimmed at both ends.
pub open spec fn sanitized_name(name: Seq<char>) -> Seq<char> {
    strip_trailing_underscores(
        strip_leading_underscores(collapse_underscores(name.map_values(|c: char| path_char(c)))),
    )
}

/// The last segment of an external author's agent path: the sanitized name, unless that is
/// empty or `root`, in which case `agent_` and the first twelve hexadecimal digits of the
/// SHA-256 digest of the name.
pub open spec fn external_leaf(name: Seq<char>) -> Seq<char> {
    let s = sanitized_name(name);
    if s.len() == 0 || s == "root"@ {
        "agent_"@ + hex_sha256(vstd::utf8::encode_utf8(name)).take(12)
    } else {
        s
    }
}

/// The agent path under which messages of the external author `name` enter the thread.
pub open spec fn external_agent_path_of(name: Seq<char>) -> Seq<char> {
    "/root/external/"@ + external_leaf(name)
}

fn path_char_exec(c: char) -> (r: char)
    ensures
        r == path_char(c),
{
    if ('0' <= c && c <= '9') || ('a' <= c && c <= 'z') || ('A' <= c && c <= 'Z') {
        crate::text::to_ascii_lower(c)
    } else {
        '_'
    }
}

proof fn lemma_strip_leading_skip(s: Seq<char>, a: int)
    requires
        0 <= a <= s.len(),
        forall|k: int| 0 <= k < a ==> s[k] == '_',
    ensures
        strip_leading_underscores(s) == strip_leading_underscores(s.skip(a)),
    decreases a,
{
    if a > 0 {
        assert(s.drop_first().skip(a - 1) =~= s.skip(a));
        lemma_strip_leading_skip(s.drop_first(), a - 1);
    } else {
        assert(s.skip(0) =~= s);
    }
}

proof fn lemma_strip_trailing_take(s: Seq<char>, b: int)
    requires
        0 <= b <= s.len(),
        forall|k: int| b <= k < s.len() ==> s[k] == '_',
    ensures
        strip_trailing_underscores(s) == strip_trailing_underscores(s.take(b)),
    decreases s.len() - b,
{
    if b < s.len() {
        assert(s.drop_last().take(b) =~= s.take(b));
        lemma_strip_trailing_take(s.drop_last(), b);
    } else {
        assert(s.take(b) =~= s);
    }
}

/// The sanitized form of an external name.
fn sanitize_name(name: &str) -> (r: Vec<char>)
    ensures
        r@ == sanitized_name(name@),
{
    let v = chars_of(name);
    let ghost mapped = name@.map_values(|c: char| path_char(c));
    let mut out: Vec<char> = Vec::new();
    for i in 0..v.len()
        invariant
            v@ == name@,
            mapped == name@.map_values(|c: char| path_char(c)),
            out@ == collapse_underscores(mapped.take(i as int)),
    {
        let c = path_char_exec(v[i]);
        let n = out.len();
        proof {
            let t = mapped.take(i + 1);
            assert(t.drop_last() =~= mapped.take(i as int));
            assert(t.last() == c);
        }
        if c == '_' && n > 0 && out[n - 1] == '_' {
        } else {
            out.push(c);
        }
    }
    proof {
        assert(mapped.take(v.len() as int) =~= mapped);
    }
    let ghost collapsed = out@;
    let mut a: usize = 0;
    while a < out.len() && out[a] == '_'
        invariant
            a <= out.len(),
            out@ == collapsed,
            forall|k: int| 0 <= k < a ==> collapsed[k] == '_',
        decreases out.len() - a,
    {
        a = a + 1;
    }
    proof {
        lemma_strip_leading_skip(collapsed, a as int);
        let u = collapsed.skip(a as int);
        if u.len() > 0 {
            assert(u[0] == collapsed[a as int]);
        }
    }
    let ghost lead = collapsed.skip(a as int);
    let mut b: usize = out.len();
    while b > a && out[b - 1] == '_'
        invariant
            a <= b <= out.len(),
            out@ == collapsed,
            lead == collapsed.skip(a as int),
            forall|k: int| b <= k < out.len() ==> collapsed[k] == '_',
        decreases b,
    {
        b = b - 1;
    }
    proof {
        let m = (b - a) as int;
        assert forall|k: int| m <= k < lead.len() implies lead[k] == '_' by {
            assert(lead[k] == collapsed[k + a]);
        }
        lemma_strip_trailing_take(lead, m);
        let w = lead.take(m);
        if w.len() > 0 {
            assert(w.last() == collapsed[b - 1]);
        }
    }
    let mut r: Vec<char> = Vec::new();
    let mut i: usize = a;
    while i < b
        invariant
            a <= i <= b <= out.len(),
            out@ == collapsed,
            r@ == collapsed.subrange(a as int, i as int),
        decreases b - i,
    {
        r.push(out[i]);
        proof {
            assert(collapsed.subrange(a as int, i + 1) =~= collapsed.subrange(a as int, i as int).push(collapsed[i as int]));
        }
        i = i + 1;
    }
    proof {
        assert(r@ =~= lead.take((b - a) as int));
    }
    r
}

/// The agent path under which messages of the external author `name` enter the thread.
///
/// Every author gets `/root/external/` and a sanitized last segment, so no external author can
/// pose as `root` or leave the `external` subtree.
pub fn external_agent_path(name: &str) -> (r: String)
    ensures
        r@ == external_agent_path_of(name@),
        r@ == "/root/external/"@ + external_leaf(name@),
        is_sanitized_leaf(external_leaf(name@)),
{
    let sanitized = sanitize_name(name);
    let s = string_of(&sanitized);
    let leaf = if sanitized.len() == 0 || str_eq(s.as_str(), "root") {
        let digest = chars_of(text_sha256_hex(name).as_str());
        proof {
            lemma_external_leaf_is_sanitized(name@);
        }
        let prefix = sub_string(&digest, 0, 12);
        concat("agent_", prefix.as_str())
    } else {
        proof {
            lemma_external_leaf_is_sanitized(name@);
        }
        s
    };
    concat("/root/external/", leaf.as_str())
}

// ---------------------------------------------------------------------------
// Control messages
// ---------------------------------------------------------------------------

/// Whether a message is shaped like a shutdown request: JSON whose `type` is
/// `shutdown_request`.
pub open spec fn is_shutdown_request_of(content: Seq<char>) -> bool {
    has_text_field(content, "type"@, "shutdown_request"@)
}

/// Whether the message is shaped like a shutdown request, before its authority is checked.
pub fn is_shutdown_request(content: &str) -> (r: bool)
    ensures
        r == is_shutdown_request_of(content@),
{
    crate::json::text_field_is(content, "type", "shutdown_request")
}

/// The request id of a shutdown request, from its `requestId` or `request_id` field; an error
/// when neither or both are there, or when the one there is not a string.
pub open spec fn shutdown_request_id_of(content: Seq<char>) -> Result<Seq<char>, Seq<char>> {
    let camel = json_top_level_field(content, "requestId"@);
    let snake = json_top_level_field(content, "request_id"@);
    match camel {
        JsonField::Text(a) => match snake {
            JsonField::Absent => Ok(a@),
            _ => Err("malformed shutdown_request payload: duplicate field `requestId`"@),
        },
        JsonField::Other => Err("malformed shutdown_request payload: invalid type, expected a string"@),
        _ => match snake {
            JsonField::Text(b) => Ok(b@),
            JsonField::Other => Err("malformed shutdown_request payload: invalid type, expected a string"@),
            _ => Err("malformed shutdown_request payload: missing field `requestId`"@),
        },
    }
}

/// The shutdown request carried by a message: none when it is not shaped like one, else its
/// request id or why it is malformed.
pub fn shutdown_request(content: &str) -> (r: Result<Option<String>, String>)
    ensures
        !is_shutdown_request_of(content@) ==> r == Ok::<Option<String>, String>(None),
        is_shutdown_request_of(content@) ==> match shutdown_request_id_of(content@) {
            Ok(id) => r matches Ok(Some(x)) && x@ == id,
            Err(e) => r matches Err(x) && x@ == e,
        },
{
    if !is_shutdown_request(content) {
        return Ok(None);
    }
    let camel = crate::json::top_level_field(content, "requestId");
    let snake = crate::json::top_level_field(content, "request_id");
    match camel {
        JsonField::Text(a) => match snake {
            JsonField::Absent => Ok(Some(a)),
            _ => Err("malformed shutdown_request payload: duplicate field `requestId`".to_owned()),
        },
        JsonField::Other => Err("malformed shutdown_request payload: invalid type, expected a string".to_owned()),
        _ => match snake {
            JsonField::Text(b) => Ok(Some(b)),
            JsonField::Other => Err("malformed shutdown_request payload: invalid type, expected a string".to_owned()),
            _ => Err("malformed shutdown_request payload: missing field `requestId`".to_owned()),
        },
    }
}

/// The idle notification sent to the parent after a final answer, as compact JSON with its
/// keys in order.
pub open spec fn idle_notification_of(agent_name: Seq<char>, timestamp: Seq<char>, summary: Seq<char>) -> Seq<char> {
    "{\"from\":"@ + json_quote(agent_name) + ",\"idleReason\":\"available\",\"summary\":"@
        + json_quote(summary) + ",\"timestamp\":"@ + json_quote(timestamp)
        + ",\"type\":\"idle_notification\"}"@
}

/// The idle notification for a final answer `text`.
pub fn idle_notification(agent_name: &str, timestamp: &str, text: &str) -> (r: String)
    ensures
        r@ == idle_notification_of(agent_name@, timestamp@, bounded_summary_of(text@)),
{
    let summary = bounded_summary(text);
    let from = crate::json::json_string(agent_name);
    let summary = crate::json::json_string(summary.as_str());
    let timestamp = crate::json::json_string(timestamp);
    let head = concat5(
        "{\"from\":",
        from.as_str(),
        ",\"idleReason\":\"available\",\"summary\":",
        summary.as_str(),
        ",\"timestamp\":",
    );
    concat3(head.as_str(), timestamp.as_str(), ",\"type\":\"idle_notification\"}")
}

// ---------------------------------------------------------------------------
// Final answer and idle state
// ---------------------------------------------------------------------------

/// The last non-commentary answer of a turn, kept for delivery when the thread goes idle.
#[derive(Clone, Debug, PartialEq, Eq)]
pub struct FinalMessage {
    pub id: String,
    pub text: String,
}

/// A message for the parent, and the journal id recorded once it is sent.
#[derive(Clone, Debug, PartialEq, Eq)]
pub struct ParentDelivery {
    pub journal_id: String,
    pub content: String,
}

/// The messages owed to the parent for a final answer: the answer itself, then the idle
/// notification, each unless the journal shows it sent.
pub open spec fn final_deliveries_of(
    journal: Seq<Seq<char>>,
    id: Seq<char>,
    text: Seq<char>,
    agent_name: Seq<char>,
    timestamp: Seq<char>,
) -> Seq<(Seq<char>, Seq<char>)> {
    let final_id = "final:"@ + id;
    let idle_id = "idle:"@ + id;
    (if journal.contains(final_id) {
        Seq::empty()
    } else {
        seq![(final_id, text)]
    }) + (if journal.contains(idle_id) {
        Seq::empty()
    } else {
        seq![(idle_id, idle_notification_of(agent_name, timestamp, bounded_summary_of(text)))]
    })
}

/// The messages owed to the parent for `final_message`, in the order they are sent. The host
/// sends them in order, records each journal id after its send, stops at the first failure,
/// and forgets the final answer once all were sent.
pub fn final_deliveries(
    journal: &DeliveryJournalIds,
    final_message: &FinalMessage,
    agent_name: &str,
    timestamp: &str,
) -> (r: Vec<ParentDelivery>)
    requires
        journal.well_formed(),
    ensures
        r@.map_values(|d: ParentDelivery| (d.journal_id@, d.content@)) == final_deliveries_of(
            journal@,
            final_message.id@,
            final_message.text@,
            agent_name@,
            timestamp@,
        ),
{
    let mut r: Vec<ParentDelivery> = Vec::new();
    let final_id = concat("final:", final_message.id.as_str());
    if !journal.contains(final_id.as_str()) {
        r.push(ParentDelivery { journal_id: final_id, content: final_message.text.clone() });
    }
    let ghost first = r@.map_values(|d: ParentDelivery| (d.journal_id@, d.content@));
    let idle_id = concat("idle:", final_message.id.as_str());
    if !journal.contains(idle_id.as_str()) {
        let content = idle_notification(agent_name, timestamp, final_message.text.as_str());
        let d = ParentDelivery { journal_id: idle_id, content };
        r.push(d);
        proof {
            assert(r@.map_values(|d: ParentDelivery| (d.journal_id@, d.content@)) =~= first.push((d.journal_id@, d.content@)));
        }
    }
    proof {
        assert(r@.map_values(|d: ParentDelivery| (d.journal_id@, d.content@)) =~= final_deliveries_of(
            journal@,
            final_message.id@,
            final_message.text@,
            agent_name@,
            timestamp@,
        ));
    }
    r
}

/// The answer text of an agent message worth keeping as the final answer: its text parts
/// joined, unless the message is commentary or the text is blank.
pub open spec fn final_text_of(commentary: bool, parts: Seq<Seq<char>>) -> Option<Seq<char>> {
    let text = parts.fold_left(Seq::<char>::empty(), |acc: Seq<char>, p: Seq<char>| acc + p);
    if commentary || trim(text).len() == 0 {
        None
    } else {
        Some(text)
    }
}

/// The final answer an agent message contributes, if any.
pub fn final_text(commentary: bool, parts: &Vec<String>) -> (r: Option<String>)
    ensures
        crate::extension_api::opt_view(r) == final_text_of(commentary, parts@.map_values(|p: String| p@)),
{
    let ghost views = parts@.map_values(|p: String| p@);
    let mut text = String::new();
    for i in 0..parts.len()
        invariant
            views == parts@.map_values(|p: String| p@),
            text@ == views.take(i as int).fold_left(Seq::<char>::empty(), |acc: Seq<char>, p: Seq<char>| acc + p),
    {
        text.append(parts[i].as_str());
        proof {
            let f = |acc: Seq<char>, p: Seq<char>| acc + p;
            let t = views.take(i + 1);
            assert(t.drop_last() =~= views.take(i as int));
            assert(t.last() == parts@[i as int]@);
            assert(t.fold_left(Seq::<char>::empty(), f) == f(t.drop_last().fold_left(Seq::<char>::empty(), f), t.last()));
        }
    }
    proof {
        assert(views.take(parts.len() as int) =~= views);
    }
    if commentary || crate::text::is_blank(text.as_str()) {
        None
    } else {
        Some(text)
    }
}

// ---------------------------------------------------------------------------
// The inbox worker
// ---------------------------------------------------------------------------

/// What the worker learns from a roster check: whether the teammate has been seen on the
/// roster, and whether it was removed from it after that (which shuts the thread down).
pub open spec fn roster_step_of(first_roster_seen: bool, on_roster: Result<bool, Seq<char>>) -> (bool, bool) {
    match on_roster {
        Ok(true) => (true, false),
        Ok(false) => (first_roster_seen, first_roster_seen),
        Err(_) => (first_roster_seen, false),
    }
}

/// The worker's next roster state and whether to shut the thread down.
pub fn roster_step(first_roster_seen: bool, on_roster: &Result<bool, String>) -> (r: (bool, bool))
    ensures
        r == roster_step_of(
            first_roster_seen,
            match on_roster {
                Ok(b) => Ok(*b),
                Err(e) => Err(e@),
            },
        ),
{
    match on_roster {
        Ok(true) => (true, false),
        Ok(false) => (first_roster_seen, first_roster_seen),
        Err(_) => (first_roster_seen, false),
    }
}

/// What the worker does with one pending message.
#[derive(Clone, Debug, PartialEq, Eq)]
pub enum InboundAction {
    /// The journal shows it delivered.
    Skip,
    /// Submit `content` into the thread as a message from `author_path`, then journal the id.
    Deliver { author_path: String, content: String },
    /// The parent asked to shut down: acknowledge `request_id`, journal the id, and shut the
    /// thread down.
    Shutdown { request_id: String },
    /// Stop working through this batch; `error` says why.
    Halt { error: String },
}

/// The content a message delivers into the thread: new tasks are marked as such.
pub open spec fn delivered_content_of(kind: Seq<char>, content: Seq<char>) -> Seq<char> {
    if kind == "new_task"@ {
        "[NEW_TASK]\n"@ + content
    } else {
        content
    }
}

/// Whether deciding on `message` needs to know if its author is the parent.
pub fn needs_authority(message: &ClaudeInboundMessage) -> (r: bool)
    ensures
        r == is_shutdown_request_of(message.content@),
{
    is_shutdown_request(message.content.as_str())
}

/// What the worker does with a pending message. `journaled` says whether the journal holds its
/// id; `authority` whether its author is the parent, consulted only for shutdown requests. A
/// shutdown request from anyone but the parent is delivered as an ordinary message.
pub fn inbound_action(
    message: &ClaudeInboundMessage,
    journaled: bool,
    authority: &Result<bool, String>,
) -> (r: InboundAction)
    ensures
        journaled ==> r == InboundAction::Skip,
        !journaled && is_shutdown_request_of(message.content@) && authority is Err ==> (r matches InboundAction::Halt { error } && authority matches Err(e) && error@ == e@),
        !journaled && is_shutdown_request_of(message.content@) && authority == Ok::<bool, String>(true) ==> match shutdown_request_id_of(message.content@) {
            Ok(id) => r matches InboundAction::Shutdown { request_id } && request_id@ == id,
            Err(e) => r matches InboundAction::Halt { error } && error@ == e,
        },
        !journaled && (!is_shutdown_request_of(message.content@) || authority == Ok::<bool, String>(false)) ==> (
            r matches InboundAction::Deliver { author_path, content }
                && author_path@ == external_agent_path_of(message.author@)
                && content@ == delivered_content_of(message.kind@, message.content@)
        ),
        r is Shutdown ==> is_shutdown_request_of(message.content@) && authority == Ok::<bool, String>(true),
{
    if journaled {
        return InboundAction::Skip;
    }
    if is_shutdown_request(message.content.as_str()) {
        match authority {
            Err(e) => {
                return InboundAction::Halt { error: e.clone() };
            },
            Ok(true) => {
                return match shutdown_request(message.content.as_str()) {
                    Ok(Some(request_id)) => InboundAction::Shutdown { request_id },
                    Ok(None) => InboundAction::Skip,
                    Err(error) => InboundAction::Halt { error },
                };
            },
            Ok(false) => {},
        }
    }
    let author_path = external_agent_path(message.author.as_str());
    let content = if str_eq(message.kind.as_str(), "new_task") {
        concat("[NEW_TASK]\n", message.content.as_str())
    } else {
        message.content.clone()
    };
    InboundAction::Deliver { author_path, content }
}

/// What follows an attempt to hand a message on (a submit into the thread, an acknowledgement,
/// or a send to the parent).
#[derive(Clone, Debug, PartialEq, Eq)]
pub enum SubmitStep {
    /// It was handed on: record `id` in the delivery journal.
    Journal { id: String },
    /// It was not: leave the id out of the journal and stop the batch, so that the message is
    /// tried again on a later pass.
    Stop,
}

/// The journal rule: a message id is journaled only after its message was handed on, and a
/// failed hand-off stops the batch.
pub fn after_submit(message_id: &str, submitted: &Result<(), String>) -> (r: SubmitStep)
    ensures
        submitted is Ok <==> (r matches SubmitStep::Journal { id } && id@ == message_id@),
        submitted is Err <==> r is Stop,
{
    match submitted {
        Ok(()) => SubmitStep::Journal { id: message_id.to_owned() },
        Err(_) => SubmitStep::Stop,
    }
}

/// Whether the batch goes on after the journal write: only when the id was recorded.
pub fn after_journal(recorded: &Result<(), String>) -> (r: bool)
    ensures
        r == recorded is Ok,
{
    recorded.is_ok()
}

// ---------------------------------------------------------------------------
// Thread start
// ---------------------------------------------------------------------------

/// The configured agent id, else `<agent>@<team>`.
pub fn default_agent_id(agent_id: &Option<String>, agent_name: &str, team_name: &str) -> (r: String)
    ensures
        r@ == match agent_id {
            Some(id) => id@,
            None => agent_name@ + "@"@ + team_name@,
        },
{
    match agent_id {
        Some(id) => id.clone(),
        None => concat3(agent_name, "@", team_name),
    }
}

/// The inbox poll interval: the configured one (else the default), clamped to the accepted
/// range.
pub fn poll_interval_ms(configured: Option<u64>) -> (r: u64)
    ensures
        r == {
            let v = match configured {
                Some(v) => v,
                None => DEFAULT_POLL_INTERVAL_MS,
            };
            if v < MIN_POLL_INTERVAL_MS {
                MIN_POLL_INTERVAL_MS
            } else if v > MAX_POLL_INTERVAL_MS {
                MAX_POLL_INTERVAL_MS
            } else {
                v
            }
        },
{
    let v = match configured {
        Some(v) => v,
        None => DEFAULT_POLL_INTERVAL_MS,
    };
    if v < MIN_POLL_INTERVAL_MS {
        MIN_POLL_INTERVAL_MS
    } else if v > MAX_POLL_INTERVAL_MS {
        MAX_POLL_INTERVAL_MS
    } else {
        v
    }
}

/// The file name of a teammate's delivery journal, under `external-team/<team>/` of the Codex
/// home.
pub fn journal_file_name(agent_name: &str) -> (r: String)
    ensures
        r@ == agent_name@ + ".journal.json"@,
{
    concat(agent_name, ".journal.json")
}

/// The developer instructions of a teammate thread.
pub fn team_context_prompt(identity_name: &str, parent_name: &str) -> (r: String)
    ensures
        r@ == "You are Codex teammate `"@ + identity_name@ + "` in an externally managed agent team. The external parent is `"@
            + parent_name@ + "`. Use the existing `send_message` and `followup_task` collaboration tools with external teammate names; use `task_list`, `task_get`, `task_create`, `task_claim`, `task_update`, and `task_complete` for the shared team task board. Do not use terminal input, tmux, or provider-specific bus tools for team communication. Your private Codex subagents remain under `/root/...`. Your final answer is automatically delivered to the external parent."@,
{
    concat5(
        "You are Codex teammate `",
        identity_name,
        "` in an externally managed agent team. The external parent is `",
        parent_name,
        "`. Use the existing `send_message` and `followup_task` collaboration tools with external teammate names; use `task_list`, `task_get`, `task_create`, `task_claim`, `task_update`, and `task_complete` for the shared team task board. Do not use terminal input, tmux, or provider-specific bus tools for team communication. Your private Codex subagents remain under `/root/...`. Your final answer is automatically delivered to the external parent.",
    )
}



/// What a teammate thread starts with: its provider, its task board, its inbox poll interval
/// and the path of its delivery journal.
#[derive(Clone, Debug)]
pub struct TeammateSetup {
    pub provider: crate::provider::ClaudeCodeProvider,
    pub task_store: crate::tasks::ClaudeTaskStore,
    pub poll_interval_ms: u64,
    pub journal_path: String,
}

/// The setup of a teammate thread from its configuration block; `team_lead_id` is the lead
/// agent id of the team file when it could be read, and `codex_home` the Codex home. Fails
/// when the provider refuses the configuration.
pub fn teammate_setup(
    config: &crate::host::ExternalTeamConfigToml,
    team_lead_id: Option<String>,
    codex_home: &str,
) -> (r: Result<TeammateSetup, String>)
    ensures
        r is Ok <==> (crate::provider::valid_component(config.team_name@) && crate::provider::valid_component(config.agent_name@)
            && (config.parent_name matches Some(p) ==> crate::provider::valid_component(p@))),
        r matches Ok(s) ==> {
            &&& s.provider.config().claude_home@ == config.claude_home@
            &&& s.provider.config().team_name@ == config.team_name@
            &&& s.provider.config().agent_name@ == config.agent_name@
            &&& s.provider.config().agent_id@ == match config.agent_id {
                Some(id) => id@,
                None => config.agent_name@ + "@"@ + config.team_name@,
            }
            &&& crate::extension_api::opt_view(s.provider.config().agent_role) == crate::extension_api::opt_view(config.agent_role)
            &&& crate::extension_api::opt_view(s.provider.config().parent_name) == match config.parent_name {
                Some(n) => Some(n@),
                None => match team_lead_id {
                    Some(l) => crate::provider::lead_name_of(l@),
                    None => None,
                },
            }
            &&& s.task_store.spec_root() == crate::paths::joined(crate::paths::joined(config.claude_home@, "tasks"@), config.team_name@)
            &&& s.task_store.spec_agent_name() == config.agent_name@
            &&& s.poll_interval_ms == {
                let v = match config.poll_interval_ms {
                    Some(v) => v,
                    None => DEFAULT_POLL_INTERVAL_MS,
                };
                if v < MIN_POLL_INTERVAL_MS {
                    MIN_POLL_INTERVAL_MS
                } else if v > MAX_POLL_INTERVAL_MS {
                    MAX_POLL_INTERVAL_MS
                } else {
                    v
                }
            }
            &&& s.journal_path@ == crate::paths::joined(
                crate::paths::joined(crate::paths::joined(codex_home@, "external-team"@), config.team_name@),
                config.agent_name@ + ".journal.json"@,
            )
        },
{
    let agent_id = default_agent_id(&config.agent_id, config.agent_name.as_str(), config.team_name.as_str());
    let task_store = crate::tasks::ClaudeTaskStore::new(
        config.claude_home.as_str(),
        config.team_name.as_str(),
        config.agent_name.as_str(),
    );
    let provider_config = crate::provider::ClaudeProviderConfig {
        claude_home: config.claude_home.clone(),
        team_name: config.team_name.clone(),
        agent_name: config.agent_name.clone(),
        agent_id,
        agent_role: crate::text::copy_opt_string(&config.agent_role),
        parent_name: crate::text::copy_opt_string(&config.parent_name),
    };
    let provider = match crate::provider::ClaudeCodeProvider::new(provider_config, team_lead_id) {
        Ok(p) => p,
        Err(e) => {
            return Err(e);
        },
    };
    let poll_interval_ms = poll_interval_ms(config.poll_interval_ms);
    let base = crate::paths::join(codex_home, "external-team");
    let team_dir = crate::paths::join(base.as_str(), config.team_name.as_str());
    let file = journal_file_name(config.agent_name.as_str());
    let journal_path = crate::paths::join(team_dir.as_str(), file.as_str());
    Ok(TeammateSetup { provider, task_store, poll_interval_ms, journal_path })
}

// ---------------------------------------------------------------------------
// Agent path laws
// ---------------------------------------------------------------------------

/// A character allowed in the last segment of an external agent path.
pub open spec fn is_leaf_char(c: char) -> bool {
    ('0' <= c && c <= '9') || ('a' <= c && c <= 'z') || c == '_'
}

/// A well-formed last segment: not empty, of lowercase ASCII letters, digits and `_`, with no
/// `_` at either end or twice in a row, and not `root`.
pub open spec fn is_sanitized_leaf(s: Seq<char>) -> bool {
    &&& s.len() > 0
    &&& forall|i: int| 0 <= i < s.len() ==> is_leaf_char(#[trigger] s[i])
    &&& s[0] != '_'
    &&& s.last() != '_'
    &&& forall|i: int| 0 <= i < s.len() - 1 ==> !(#[trigger] s[i] == '_' && s[i + 1] == '_')
    &&& s != "root"@
}

proof fn lemma_path_char_is_leaf_char(c: char)
    ensures
        is_leaf_char(path_char(c)),
{
    if 'A' <= c && c <= 'Z' {
        let u = c as u8;
        assert(u as int == c as int);
        assert(('a' <= ascii_lower(c) && ascii_lower(c) <= 'z'));
    }
}

proof fn lemma_collapse_props(s: Seq<char>)
    requires
        forall|i: int| 0 <= i < s.len() ==> is_leaf_char(#[trigger] s[i]),
    ensures
        forall|i: int| 0 <= i < collapse_underscores(s).len() ==> is_leaf_char(#[trigger] collapse_underscores(s)[i]),
        forall|i: int| 0 <= i < collapse_underscores(s).len() - 1 ==> !(#[trigger] collapse_underscores(s)[i] == '_' && collapse_underscores(s)[i + 1] == '_'),
    decreases s.len(),
{
    if s.len() > 0 {
        let t = s.drop_last();
        assert forall|i: int| 0 <= i < t.len() implies is_leaf_char(#[trigger] t[i]) by {
            assert(t[i] == s[i]);
        }
        lemma_collapse_props(t);
        let p = collapse_underscores(t);
        let c = collapse_underscores(s);
        if !(s.last() == '_' && p.len() > 0 && p.last() == '_') {
            assert(c == p.push(s.last()));
            assert forall|i: int| 0 <= i < c.len() implies is_leaf_char(#[trigger] c[i]) by {
                if i < p.len() {
                    assert(c[i] == p[i]);
                }
            }
            assert forall|i: int| 0 <= i < c.len() - 1 implies !(#[trigger] c[i] == '_' && c[i + 1] == '_') by {
                assert(c[i] == p[i]);
                if i + 1 < p.len() {
                    assert(c[i + 1] == p[i + 1]);
                }
            }
        }
    }
}

proof fn lemma_strip_leading_props(s: Seq<char>)
    ensures
        strip_leading_underscores(s).len() > 0 ==> strip_leading_underscores(s)[0] != '_',
        exists|a: int| 0 <= a <= s.len() && strip_leading_underscores(s) == #[trigger] s.skip(a),
    decreases s.len(),
{
    if s.len() > 0 && s[0] == '_' {
        lemma_strip_leading_props(s.drop_first());
        let a = choose|a: int| 0 <= a <= s.drop_first().len() && strip_leading_underscores(s.drop_first()) == #[trigger] s.drop_first().skip(a);
        assert(s.drop_first().skip(a) =~= s.skip(a + 1));
    } else {
        assert(s.skip(0) =~= s);
    }
}

proof fn lemma_strip_trailing_props(s: Seq<char>)
    ensures
        strip_trailing_underscores(s).len() > 0 ==> strip_trailing_underscores(s).last() != '_',
        exists|b: int| 0 <= b <= s.len() && strip_trailing_underscores(s) == #[trigger] s.take(b),
    decreases s.len(),
{
    if s.len() > 0 && s.last() == '_' {
        lemma_strip_trailing_props(s.drop_last());
        let b = choose|b: int| 0 <= b <= s.drop_last().len() && strip_trailing_underscores(s.drop_last()) == #[trigger] s.drop_last().take(b);
        assert(s.drop_last().take(b) =~= s.take(b));
    } else {
        assert(s.take(s.len() as int) =~= s);
    }
}

proof fn lemma_hex_chars(bytes: Seq<u8>)
    ensures
        hex_len_is(bytes),
        forall|i: int| 0 <= i < crate::digest::hex(bytes).len() ==> {
            let c = #[trigger] crate::digest::hex(bytes)[i];
            ('0' <= c && c <= '9') || ('a' <= c && c <= 'f')
        },
    decreases bytes.len(),
{
    if bytes.len() > 0 {
        lemma_hex_chars(bytes.drop_last());
        let h = crate::digest::hex(bytes);
        let p = crate::digest::hex(bytes.drop_last());
        let b = bytes.last();
        let hi = crate::digest::hex_digit(b as int / 16);
        let lo = crate::digest::hex_digit(b as int % 16);
        assert(h == p + seq![hi, lo]);
        assert(('0' <= hi && hi <= '9') || ('a' <= hi && hi <= 'f')) by {
            let d = b as int / 16;
            assert(0 <= d < 16);
        }
        assert(('0' <= lo && lo <= '9') || ('a' <= lo && lo <= 'f')) by {
            let d = b as int % 16;
            assert(0 <= d < 16);
        }
        assert forall|i: int| 0 <= i < h.len() implies {
            let c = #[trigger] h[i];
            ('0' <= c && c <= '9') || ('a' <= c && c <= 'f')
        } by {
            if i < p.len() {
                assert(h[i] == p[i]);
            }
        }
    }
}

/// The hexadecimal text of `bytes` has two digits per byte.
pub open spec fn hex_len_is(bytes: Seq<u8>) -> bool {
    crate::digest::hex(bytes).len() == 2 * bytes.len()
}

/// The last segment of an external agent path is well formed, given a 64-digit digest where
/// the fallback needs one.
proof fn lemma_external_leaf_is_sanitized(name: Seq<char>)
    requires
        sanitized_name(name).len() == 0 || sanitized_name(name) == "root"@ ==> hex_sha256(vstd::utf8::encode_utf8(name)).len() == 64,
    ensures
        is_sanitized_leaf(external_leaf(name)),
{
    let mapped = name.map_values(|c: char| path_char(c));
    assert forall|i: int| 0 <= i < mapped.len() implies is_leaf_char(#[trigger] mapped[i]) by {
        lemma_path_char_is_leaf_char(name[i]);
    }
    lemma_collapse_props(mapped);
    let c = collapse_underscores(mapped);
    let l = strip_leading_underscores(c);
    lemma_strip_leading_props(c);
    let a = choose|a: int| 0 <= a <= c.len() && l == #[trigger] c.skip(a);
    let s = strip_trailing_underscores(l);
    lemma_strip_trailing_props(l);
    let b = choose|b: int| 0 <= b <= l.len() && s == #[trigger] l.take(b);
    assert(s == sanitized_name(name));
    assert forall|i: int| 0 <= i < s.len() implies s[i] == c[i + a] by {}
    if s.len() == 0 || s == "root"@ {
        let digest = crate::digest::sha256_digest(vstd::utf8::encode_utf8(name));
        let h = hex_sha256(vstd::utf8::encode_utf8(name));
        lemma_hex_chars(digest);
        let leaf = "agent_"@ + h.take(12);
        reveal_strlit("agent_");
        reveal_strlit("root");
        assert(leaf.len() == 18);
        assert forall|i: int| 0 <= i < leaf.len() implies is_leaf_char(#[trigger] leaf[i]) by {
            if i >= 6 {
                assert(leaf[i] == h[i - 6]);
            }
        }
        assert(leaf[17] == h[11]);
        assert forall|i: int| 0 <= i < leaf.len() - 1 implies !(#[trigger] leaf[i] == '_' && leaf[i + 1] == '_') by {
            if i >= 6 {
                assert(leaf[i] == h[i - 6]);
            } else if i == 5 {
                assert(leaf[6] == h[0]);
            }
        }
        assert(leaf != "root"@) by {
            assert(leaf.len() != "root"@.len());
        }
    } else {
        assert forall|i: int| 0 <= i < s.len() - 1 implies !(#[trigger] s[i] == '_' && s[i + 1] == '_') by {
            assert(s[i] == c[i + a]);
            assert(s[i + 1] == c[i + 1 + a]);
        }
    }
}

} // verus!
