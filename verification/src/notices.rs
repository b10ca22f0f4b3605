//! Operator-facing text of the terminal UI: loop listings and results, and one-line notices
//! for inbound teammate and automation traffic.
use crate::loops::{parse_loop_command, is_loop_command_outcome, LoopAutomation, LoopCommandAction};
use crate::text::{
    chars_of, decimal, has_prefix, owned, push_decimal, push_signed_decimal, signed_decimal,
    starts_with, str_eq, string_of, sub_string, trim, trimmed,
};
use vstd::prelude::*;

verus! {

/// An interval in the largest whole unit among days, hours, minutes and seconds.
pub open spec fn interval_text(s: nat) -> Seq<char> {
    if s % 86400 == 0 {
        decimal(s / 86400) + "d"@
    } else if s % 3600 == 0 {
        decimal(s / 3600) + "h"@
    } else if s % 60 == 0 {
        decimal(s / 60) + "m"@
    } else {
        decimal(s) + "s"@
    }
}

/// The rendered interval reads back to the same number of seconds: it is a decimal count and a
/// unit letter whose seconds (`d` 86400, `h` 3600, `m` 60, `s` 1) times the count give the
/// interval, and the unit is the largest one that divides it evenly.
pub proof fn law_interval_text_reads_back(s: nat)
    ensures
        ({
            ||| (interval_text(s) == decimal(s / 86400) + "d"@ && (s / 86400) * 86400 == s)
            ||| (interval_text(s) == decimal(s / 3600) + "h"@ && (s / 3600) * 3600 == s && s % 86400 != 0)
            ||| (interval_text(s) == decimal(s / 60) + "m"@ && (s / 60) * 60 == s && s % 3600 != 0)
            ||| (interval_text(s) == decimal(s) + "s"@ && s % 60 != 0)
        }),
{
    if s % 86400 == 0 {
        assert((s / 86400) * 86400 == s) by (nonlinear_arith)
            requires
                s % 86400 == 0,
        ;
    } else if s % 3600 == 0 {
        assert((s / 3600) * 3600 == s) by (nonlinear_arith)
            requires
                s % 3600 == 0,
        ;
    } else if s % 60 == 0 {
        assert((s / 60) * 60 == s) by (nonlinear_arith)
            requires
                s % 60 == 0,
        ;
    }
}

/// Writes an interval in its largest whole unit: `1d`, `2h`, `15m`, `30s`.
pub fn format_interval(every_seconds: u64) -> (r: String)
    ensures
        r@ == interval_text(every_seconds as nat),
{
    let mut r = String::new();
    if every_seconds % 86400 == 0 {
        push_decimal(&mut r, every_seconds / 86400);
        r.append("d");
    } else if every_seconds % 3600 == 0 {
        push_decimal(&mut r, every_seconds / 3600);
        r.append("h");
    } else if every_seconds % 60 == 0 {
        push_decimal(&mut r, every_seconds / 60);
        r.append("m");
    } else {
        push_decimal(&mut r, every_seconds);
        r.append("s");
    }
    proof {
        assert(Seq::<char>::empty() + decimal((every_seconds / 86400) as nat) == decimal(
            (every_seconds / 86400) as nat,
        ));
        assert(Seq::<char>::empty() + decimal((every_seconds / 3600) as nat) == decimal(
            (every_seconds / 3600) as nat,
        ));
        assert(Seq::<char>::empty() + decimal((every_seconds / 60) as nat) == decimal(
            (every_seconds / 60) as nat,
        ));
        assert(Seq::<char>::empty() + decimal(every_seconds as nat) == decimal(
            every_seconds as nat,
        ));
    }
    r
}

/// One line of the loop listing.
pub open spec fn loop_entry(l: LoopAutomation) -> Seq<char> {
    "- `"@ + l.name@ + "` ("@ + l.id@ + ") every "@ + interval_text(l.every_seconds as nat)
        + "; next Unix "@ + signed_decimal(l.next_due_at as int) + " — "@ + l.prompt@
}

/// The entries of a non-empty listing, one per line.
pub open spec fn loop_entries(loops: Seq<LoopAutomation>) -> Seq<char>
    decreases loops.len(),
{
    if loops.len() <= 1 {
        if loops.len() == 1 {
            loop_entry(loops[0])
        } else {
            Seq::empty()
        }
    } else {
        loop_entries(loops.drop_last()) + "\n"@ + loop_entry(loops.last())
    }
}

pub open spec fn loop_list_text(loops: Seq<LoopAutomation>) -> Seq<char> {
    if loops.len() == 0 {
        "No durable loops are configured for this thread."@
    } else {
        "Durable loops:\n"@ + loop_entries(loops)
    }
}

fn push_loop_entry(out: &mut String, l: &LoopAutomation)
    ensures
        final(out)@ == old(out)@ + loop_entry(*l),
{
    out.append("- `");
    out.append(l.name.as_str());
    out.append("` (");
    out.append(l.id.as_str());
    out.append(") every ");
    let interval = format_interval(l.every_seconds);
    out.append(interval.as_str());
    out.append("; next Unix ");
    push_signed_decimal(out, l.next_due_at);
    out.append(" — ");
    out.append(l.prompt.as_str());
    proof {
        let e = loop_entry(*l);
        assert(final(out)@ =~= old(out)@ + e);
    }
}

/// The operator's listing of a thread's durable loops.
pub fn format_loop_list(loops: &Vec<LoopAutomation>) -> (r: String)
    ensures
        r@ == loop_list_text(loops@),
{
    if loops.len() == 0 {
        return owned("No durable loops are configured for this thread.");
    }
    let mut r = owned("Durable loops:\n");
    push_loop_entry(&mut r, &loops[0]);
    proof {
        assert(loops@.take(1).drop_last().len() == 0);
        assert(loop_entries(loops@.take(1)) == loop_entry(loops@[0]));
    }
    let mut i: usize = 1;
    while i < loops.len()
        invariant
            1 <= i <= loops.len(),
            r@ == "Durable loops:\n"@ + loop_entries(loops@.take(i as int)),
        decreases loops.len() - i,
    {
        r.append("\n");
        push_loop_entry(&mut r, &loops[i]);
        proof {
            let t = loops@.take(i + 1);
            assert(t.drop_last() == loops@.take(i as int));
            assert(t.last() == loops@[i as int]);
            assert(r@ =~= "Durable loops:\n"@ + loop_entries(t));
        }
        i = i + 1;
    }
    proof {
        assert(loops@.take(loops@.len() as int) == loops@);
    }
    r
}

/// `Created durable loop `<name>` (<id>) every <interval>. Next run: Unix <seconds>.`
pub fn loop_created_notice(l: &LoopAutomation) -> (r: String)
    ensures
        r@ == "Created durable loop `"@ + l.name@ + "` ("@ + l.id@ + ") every "@ + interval_text(
            l.every_seconds as nat,
        ) + ". Next run: Unix "@ + signed_decimal(l.next_due_at as int) + "."@,
{
    let mut r = owned("Created durable loop `");
    r.append(l.name.as_str());
    r.append("` (");
    r.append(l.id.as_str());
    r.append(") every ");
    let interval = format_interval(l.every_seconds);
    r.append(interval.as_str());
    r.append(". Next run: Unix ");
    push_signed_decimal(&mut r, l.next_due_at);
    r.append(".");
    r
}

/// `Stopped durable loop `<name>` (<id>).`
pub fn loop_stopped_notice(l: &LoopAutomation) -> (r: String)
    ensures
        r@ == "Stopped durable loop `"@ + l.name@ + "` ("@ + l.id@ + ")."@,
{
    let mut r = owned("Stopped durable loop `");
    r.append(l.name.as_str());
    r.append("` (");
    r.append(l.id.as_str());
    r.append(").");
    r
}

/// `Native loop operation failed: <error>`
pub fn loop_failure_notice(error: &str) -> (r: String)
    ensures
        r@ == "Native loop operation failed: "@ + error@,
{
    let mut r = owned("Native loop operation failed: ");
    r.append(error);
    r
}

pub open spec fn session_starting_message() -> Seq<char> {
    "Session is still starting; try /loop again in a moment."@
}

/// The part of the chat widget that `/loop` reads: the session's thread, once started.
#[derive(Clone, Debug, PartialEq, Eq)]
pub struct ChatWidget {
    pub thread_id: Option<String>,
}

impl ChatWidget {
    /// The `/loop` dispatch decision: a parse error is shown as is; a valid command goes to
    /// the session's thread, and before the session has one it is answered with a retry hint.
    pub fn dispatch_loop_command(&self, args: &str) -> (r: Result<(String, LoopCommandAction), String>)
        ensures
            exists|parsed: Result<LoopCommandAction, String>| {
                &&& is_loop_command_outcome(args@, parsed)
                &&& parsed matches Err(e) ==> (r matches Err(m) && m == e)
                &&& parsed matches Ok(a) ==> (self.thread_id is None ==> (r matches Err(m) && m@
                    == session_starting_message()))
                &&& parsed matches Ok(a) ==> (self.thread_id matches Some(t) ==> r == Ok::<
                    (String, LoopCommandAction),
                    String,
                >((t, a)))
            },
    {
        let parsed = parse_loop_command(args);
        let ghost g = parsed;
        let r = match parsed {
            Err(e) => Err(e),
            Ok(action) => match &self.thread_id {
                None => Err(owned("Session is still starting; try /loop again in a moment.")),
                Some(t) => Ok((t.clone(), action)),
            },
        };
        proof {
            assert(is_loop_command_outcome(args@, g));
        }
        r
    }
}

// ---------------------------------------------------------------------------
// Inbound inter-agent notices
// ---------------------------------------------------------------------------

/// Index of the first `c` in `s`, or `s.len()`.
pub open spec fn first_index_of(s: Seq<char>, c: char) -> int
    decreases s.len(),
{
    if s.len() == 0 {
        0
    } else if s[0] == c {
        0
    } else {
        1 + first_index_of(s.drop_first(), c)
    }
}

/// Rust's `str::lines().next().unwrap_or_default()`: text up to the first line feed, without a
/// carriage return just before it.
pub open spec fn first_line(s: Seq<char>) -> Seq<char> {
    let k = first_index_of(s, '\n');
    if k < s.len() {
        let line = s.take(k);
        if line.len() > 0 && line.last() == '\r' {
            line.drop_last()
        } else {
            line
        }
    } else {
        s
    }
}

/// The last `/`-separated segment of a path (Rust's `rsplit('/').next()`).
pub open spec fn last_segment(s: Seq<char>) -> Seq<char>
    decreases s.len(),
{
    if s.len() == 0 {
        s
    } else if s.last() == '/' {
        Seq::empty()
    } else {
        last_segment(s.drop_last()).push(s.last())
    }
}

/// At most the first `n` characters.
pub open spec fn take_at_most(s: Seq<char>, n: int) -> Seq<char> {
    if s.len() <= n {
        s
    } else {
        s.take(n)
    }
}

/// The first line of the trimmed text, at most 160 characters.
pub open spec fn notice_head(text: Seq<char>) -> Seq<char> {
    take_at_most(first_line(trim(text)), 160)
}

/// The notice for an inbound message from `author`; only external teammates (paths under
/// `/root/external/`) and native automation (`/root/automation`) get one.
pub open spec fn inbound_notice(author: Seq<char>, text: Seq<char>) -> Option<Seq<char>> {
    let is_external = has_prefix(author, "/root/external/"@);
    let is_automation = author == "/root/automation"@;
    let head = notice_head(text);
    let sender = last_segment(author);
    if !is_external && !is_automation {
        None
    } else if has_prefix(head, "[CRON"@) {
        Some("⏰ cron fired — "@ + head)
    } else if has_prefix(head, "[LOOP"@) {
        Some("🔁 loop fired — "@ + head)
    } else if has_prefix(head, "[MONITOR"@) {
        Some("👁 monitor — "@ + head)
    } else if has_prefix(head, "[NEW_TASK]"@) {
        Some("📥 new task from "@ + sender)
    } else if is_automation {
        Some("⏰ automation — "@ + head)
    } else {
        Some("📨 message from "@ + sender + ": "@ + head)
    }
}

proof fn lemma_first_index_of(s: Seq<char>, c: char, i: int)
    requires
        0 <= i <= s.len(),
        forall|k: int| 0 <= k < i ==> s[k] != c,
        i == s.len() || s[i] == c,
    ensures
        first_index_of(s, c) == i,
    decreases s.len(),
{
    if i > 0 {
        assert forall|k: int| 0 <= k < i - 1 implies s.drop_first()[k] != c by {
            assert(s.drop_first()[k] == s[k + 1]);
        }
        if i < s.len() {
            assert(s.drop_first()[i - 1] == s[i]);
        }
        lemma_first_index_of(s.drop_first(), c, i - 1);
        assert(s[0] != c);
    }
}

fn first_line_chars(v: &Vec<char>) -> (r: Vec<char>)
    ensures
        r@ == first_line(v@),
{
    let mut k: usize = 0;
    while k < v.len() && v[k] != '\n'
        invariant
            k <= v.len(),
            forall|j: int| 0 <= j < k ==> v@[j] != '\n',
        decreases v.len() - k,
    {
        k = k + 1;
    }
    proof {
        lemma_first_index_of(v@, '\n', k as int);
    }
    let mut end = k;
    if k < v.len() && k > 0 && v[k - 1] == '\r' {
        end = k - 1;
    }
    let mut out: Vec<char> = Vec::new();
    for i in 0..end
        invariant
            end <= v.len(),
            out@ == v@.take(i as int),
    {
        out.push(v[i]);
        proof {
            assert(v@.take(i + 1) == v@.take(i as int).push(v@[i as int]));
        }
    }
    proof {
        if k < v.len() {
            let line = v@.take(k as int);
            if k > 0 && v@[k - 1] == '\r' {
                assert(line.drop_last() == v@.take(end as int));
            } else {
                assert(line == v@.take(end as int));
            }
        } else {
            assert(v@.take(end as int) == v@);
        }
    }
    out
}

fn last_segment_chars(v: &Vec<char>) -> (r: Vec<char>)
    ensures
        r@ == last_segment(v@),
{
    let mut j: usize = v.len();
    proof {
        assert(v@.take(j as int) == v@);
        assert(v@.skip(j as int) == Seq::<char>::empty());
        assert(last_segment(v@) + Seq::<char>::empty() == last_segment(v@));
    }
    while j > 0 && v[j - 1] != '/'
        invariant
            j <= v.len(),
            last_segment(v@) == last_segment(v@.take(j as int)) + v@.skip(j as int),
        decreases j,
    {
        proof {
            let t = v@.take(j as int);
            assert(t.drop_last() == v@.take(j - 1));
            assert(t.last() == v@[j - 1]);
            assert(last_segment(t) == last_segment(v@.take(j - 1)).push(v@[j - 1]));
            assert(v@.skip(j - 1) == seq![v@[j - 1]] + v@.skip(j as int));
        }
        j = j - 1;
    }
    proof {
        let t = v@.take(j as int);
        if j > 0 {
            assert(t.last() == v@[j - 1]);
        }
        assert(last_segment(t).len() == 0);
        assert(last_segment(v@) == v@.skip(j as int));
    }
    let mut out: Vec<char> = Vec::new();
    let mut i = j;
    while i < v.len()
        invariant
            j <= i <= v.len(),
            out@ == v@.subrange(j as int, i as int),
        decreases v.len() - i,
    {
        out.push(v[i]);
        proof {
            assert(v@.subrange(j as int, i + 1) == v@.subrange(j as int, i as int).push(v@[i as int]));
        }
        i = i + 1;
    }
    proof {
        assert(v@.subrange(j as int, v@.len() as int) == v@.skip(j as int));
    }
    out
}

/// A one-line operator notice for an inbound inter-agent message, or `None` when `author` is
/// neither an external teammate (`/root/external/*`) nor native automation (`/root/automation`).
/// Loop, cron and monitor firings and new-task assignments are labelled by their delivery prefix.
pub fn inbound_inter_agent_notice(author: &str, text: &str) -> (r: Option<String>)
    ensures
        r matches Some(s) ==> inbound_notice(author@, text@) == Some(s@),
        r is None ==> inbound_notice(author@, text@) is None,
{
    let is_external = starts_with(author, "/root/external/");
    let is_automation = str_eq(author, "/root/automation");
    if !is_external && !is_automation {
        return None;
    }
    let t = trimmed(text);
    let tv = chars_of(t.as_str());
    let line = first_line_chars(&tv);
    let head_len: usize = if line.len() <= 160 {
        line.len()
    } else {
        160
    };
    let head = sub_string(&line, 0, head_len);
    proof {
        assert(line@.subrange(0, head_len as int) == take_at_most(line@, 160));
    }
    let av = chars_of(author);
    let sender_chars = last_segment_chars(&av);
    let sender = string_of(&sender_chars);
    let r = if starts_with(head.as_str(), "[CRON") {
        let mut r = owned("⏰ cron fired — ");
        r.append(head.as_str());
        r
    } else if starts_with(head.as_str(), "[LOOP") {
        let mut r = owned("🔁 loop fired — ");
        r.append(head.as_str());
        r
    } else if starts_with(head.as_str(), "[MONITOR") {
        let mut r = owned("👁 monitor — ");
        r.append(head.as_str());
        r
    } else if starts_with(head.as_str(), "[NEW_TASK]") {
        let mut r = owned("📥 new task from ");
        r.append(sender.as_str());
        r
    } else if is_automation {
        let mut r = owned("⏰ automation — ");
        r.append(head.as_str());
        r
    } else {
        let mut r = owned("📨 message from ");
        r.append(sender.as_str());
        r.append(": ");
        r.append(head.as_str());
        r
    };
    Some(r)
}

} // verus!
