//! Durable loop, cron and monitor state: the transitions that the automation store
//! applies under its file lock, and the checks a loaded state must pass.
use crate::text::{
    all_white, approx_token_count, chars_of, copy_opt_string, is_blank, is_white, is_whitespace, owned,
    push_decimal, push_signed_decimal, signed_decimal, decimal, spec_approx_tokens, utf8_len,
};
use std::str::FromStr;
use vstd::prelude::*;

verus! {

/// Version written into every automation state file.
pub const STATE_VERSION: u32 = 1;

/// Largest accepted state file, in bytes.
pub const MAX_STATE_BYTES: u64 = 8388608;

/// Largest number of jobs and monitors, together, in one state.
pub const MAX_AUTOMATIONS: usize = 1000;

/// Largest monitor polling interval, in seconds.
pub const MAX_MONITOR_POLL_SECONDS: u64 = 3600;

/// Largest automation prompt, in approximate tokens.
pub const MAX_AUTOMATION_PROMPT_TOKENS: usize = 4000;

/// Timestamps (Unix milliseconds) handed to the scheduler stay within this distance of the
/// epoch, well inside the range of calendar times that the date library represents.
pub const MAX_TIMESTAMP_MILLIS: i64 = 8000000000000000;

pub open spec fn time_in_range(t: int) -> bool {
    -MAX_TIMESTAMP_MILLIS <= t <= MAX_TIMESTAMP_MILLIS
}

/// The version a state gets when the file does not name one.
pub fn state_version() -> (v: u32)
    ensures
        v == STATE_VERSION,
{
    STATE_VERSION
}

#[derive(Clone, Copy, Debug, PartialEq, Eq)]
pub enum AutomationKind {
    Loop,
    Cron,
}

#[derive(Clone, Debug, PartialEq, Eq)]
pub enum ScheduleSpec {
    Interval { every_seconds: u64 },
    Cron { expression: String },
}

#[derive(Clone, Debug, PartialEq, Eq)]
pub struct AutomationJob {
    pub id: String,
    pub name: String,
    pub prompt: String,
    pub kind: AutomationKind,
    pub schedule: ScheduleSpec,
    pub enabled: bool,
    pub created_at: i64,
    pub next_due_at: i64,
    pub last_run_at: Option<i64>,
    pub pending_fire_at: Option<i64>,
    pub delivery_owner: Option<String>,
    pub delivery_lease_expires_at: Option<i64>,
}

#[derive(Clone, Debug, PartialEq, Eq)]
pub struct MonitorDefinition {
    pub id: String,
    pub name: String,
    pub process_id: i32,
    pub prompt: String,
    pub contains: Option<String>,
    pub poll_seconds: u64,
    pub once: bool,
    pub enabled: bool,
    pub created_at: i64,
}

#[derive(Clone, Debug, PartialEq, Eq)]
pub struct AutomationState {
    pub version: u32,
    pub jobs: Vec<AutomationJob>,
    pub monitors: Vec<MonitorDefinition>,
}

/// The fields of a job that an update may replace.
#[derive(Clone, Debug, Default)]
pub struct JobPatch {
    pub prompt: Option<String>,
    pub enabled: Option<bool>,
    pub schedule: Option<ScheduleSpec>,
}

/// A scheduler's request to claim the jobs that are due at `claimed_at`.
#[derive(Clone, Debug)]
pub struct DeliveryLeaseRequest {
    pub owner: String,
    /// Unix milliseconds.
    pub claimed_at: i64,
    /// Lease length, in milliseconds.
    pub duration_millis: i64,
    pub excluded_job_ids: Vec<String>,
}

/// A scheduler's report that it delivered the claimed fire of a job.
#[derive(Clone, Debug)]
pub struct DeliveryAcknowledgement {
    pub id: String,
    pub pending_fire_at: i64,
    pub owner: String,
    /// Unix milliseconds.
    pub delivered_at: i64,
}

// ---------------------------------------------------------------------------
// Copies
// ---------------------------------------------------------------------------

pub fn copy_kind(k: &AutomationKind) -> (r: AutomationKind)
    ensures
        r == *k,
{
    match k {
        AutomationKind::Loop => AutomationKind::Loop,
        AutomationKind::Cron => AutomationKind::Cron,
    }
}

pub fn copy_schedule(s: &ScheduleSpec) -> (r: ScheduleSpec)
    ensures
        r == *s,
{
    match s {
        ScheduleSpec::Interval { every_seconds } => ScheduleSpec::Interval {
            every_seconds: *every_seconds,
        },
        ScheduleSpec::Cron { expression } => ScheduleSpec::Cron { expression: expression.clone() },
    }
}

impl AutomationJob {
    /// A field-by-field copy.
    pub fn duplicate(&self) -> (r: Self)
        ensures
            r == *self,
    {
        AutomationJob {
            id: self.id.clone(),
            name: self.name.clone(),
            prompt: self.prompt.clone(),
            kind: copy_kind(&self.kind),
            schedule: copy_schedule(&self.schedule),
            enabled: self.enabled,
            created_at: self.created_at,
            next_due_at: self.next_due_at,
            last_run_at: self.last_run_at,
            pending_fire_at: self.pending_fire_at,
            delivery_owner: copy_opt_string(&self.delivery_owner),
            delivery_lease_expires_at: self.delivery_lease_expires_at,
        }
    }
}

impl MonitorDefinition {
    /// A field-by-field copy.
    pub fn duplicate(&self) -> (r: Self)
        ensures
            r == *self,
    {
        MonitorDefinition {
            id: self.id.clone(),
            name: self.name.clone(),
            process_id: self.process_id,
            prompt: self.prompt.clone(),
            contains: copy_opt_string(&self.contains),
            poll_seconds: self.poll_seconds,
            once: self.once,
            enabled: self.enabled,
            created_at: self.created_at,
        }
    }
}

// ---------------------------------------------------------------------------
// Prompt and schedule validation
// ---------------------------------------------------------------------------

/// Why a prompt is refused, if it is.
pub open spec fn prompt_error(prompt: Seq<char>) -> Option<Seq<char>> {
    if all_white(prompt) {
        Some("automation prompt must not be empty"@)
    } else if spec_approx_tokens(utf8_len(prompt) as usize as nat) > MAX_AUTOMATION_PROMPT_TOKENS {
        Some("automation prompt exceeds the 4000-token model-context limit"@)
    } else {
        None
    }
}

pub open spec fn prompt_ok(prompt: &String) -> bool {
    prompt_error(prompt@) is None
}

/// Refuses a blank prompt or one over the prompt token bound.
pub fn validate_prompt(prompt: &str) -> (r: Result<(), String>)
    ensures
        r matches Err(e) ==> prompt_error(prompt@) == Some(e@),
        r is Ok ==> prompt_error(prompt@) is None,
{
    if is_blank(prompt) {
        Err(owned("automation prompt must not be empty"))
    } else if approx_token_count(prompt) > MAX_AUTOMATION_PROMPT_TOKENS {
        Err(owned("automation prompt exceeds the 4000-token model-context limit"))
    } else {
        Ok(())
    }
}

/// Number of whitespace-separated fields in `s` (Rust's `split_whitespace().count()`).
pub open spec fn field_count(s: Seq<char>) -> nat
    decreases s.len(),
{
    if s.len() == 0 {
        0
    } else {
        field_count(s.drop_last()) + if !is_white(s.last()) && (s.len() == 1 || is_white(
            s[s.len() - 2],
        )) {
            1nat
        } else {
            0nat
        }
    }
}

/// A five-field expression runs at second zero; others pass through unchanged.
pub open spec fn normalized_cron(expression: Seq<char>) -> Seq<char> {
    if field_count(expression) == 5 {
        "0 "@ + expression
    } else {
        expression
    }
}

/// What the cron library reports when it refuses an expression, or `None` when it accepts it.
pub uninterp spec fn cron_parse_error(expression: Seq<char>) -> Option<Seq<char>>;

/// The first time the cron library schedules strictly after `now_millis`, in Unix milliseconds.
pub uninterp spec fn cron_next_occurrence(expression: Seq<char>, now_millis: int) -> Option<i64>;

/// Parses `expression` with `cron::Schedule::from_str`; returns the parser's message on failure.
#[verifier::external_body]
fn cron_check(expression: &str) -> (r: Option<String>)
    ensures
        r matches Some(e) ==> cron_parse_error(expression@) == Some(e@),
        r is None ==> cron_parse_error(expression@) is None,
{
    cron::Schedule::from_str(expression).err().map(|error| error.to_string())
}

/// Parses `expression` with `cron::Schedule::from_str` and asks the schedule for its first
/// occurrence after `now_millis` (`Schedule::after(..).next()`). The cron library's search starts
/// one second after the given time, so every occurrence lies strictly after it; an expression the
/// parser refuses has none.
#[verifier::external_body]
fn cron_next_after(expression: &str, now_millis: i64) -> (r: Option<i64>)
    requires
        time_in_range(now_millis as int),
    ensures
        r == cron_next_occurrence(expression@, now_millis as int),
        r matches Some(t) ==> t > now_millis,
        cron_parse_error(expression@) is Some ==> r is None,
{
    let schedule = cron::Schedule::from_str(expression).ok()?;
    let after = chrono::DateTime::from_timestamp_millis(now_millis)?;
    schedule.after(&after).next().map(|next| next.timestamp_millis())
}

/// Counts whitespace-separated fields.
pub fn count_fields(s: &str) -> (n: usize)
    ensures
        n == field_count(s@),
{
    let v = chars_of(s);
    let mut n: usize = 0;
    for i in 0..v.len()
        invariant
            v@ == s@,
            n == field_count(v@.take(i as int)),
            n <= i,
    {
        proof {
            let t = v@.take(i + 1);
            assert(t.drop_last() == v@.take(i as int));
            assert(t.last() == v@[i as int]);
            if i > 0 {
                assert(t[t.len() - 2] == v@[i - 1]);
            }
        }
        if !is_whitespace(v[i]) && (i == 0 || is_whitespace(v[i - 1])) {
            n = n + 1;
        }
    }
    proof {
        assert(v@.take(v.len() as int) == v@);
    }
    n
}

/// The expression given to the cron library: five fields gain a leading seconds field of zero.
pub fn normalize_cron(expression: &str) -> (r: String)
    ensures
        r@ == normalized_cron(expression@),
{
    if count_fields(expression) == 5 {
        let mut r = owned("0 ");
        r.append(expression);
        r
    } else {
        owned(expression)
    }
}

/// Why a schedule is refused, if it is.
pub open spec fn schedule_error(schedule: ScheduleSpec) -> Option<Seq<char>> {
    match schedule {
        ScheduleSpec::Interval { every_seconds } => if every_seconds == 0 {
            Some("interval every_seconds must be at least 1"@)
        } else {
            None
        },
        ScheduleSpec::Cron { expression } => match cron_parse_error(
            normalized_cron(expression@),
        ) {
            Some(e) => Some("invalid cron expression: "@ + e),
            None => None,
        },
    }
}

/// Refuses a zero interval or a cron expression the cron library does not accept.
pub fn validate_schedule(schedule: &ScheduleSpec) -> (r: Result<(), String>)
    ensures
        r matches Err(e) ==> schedule_error(*schedule) == Some(e@),
        r is Ok ==> schedule_error(*schedule) is None,
{
    match schedule {
        ScheduleSpec::Interval { every_seconds } => {
            if *every_seconds == 0 {
                Err(owned("interval every_seconds must be at least 1"))
            } else {
                Ok(())
            }
        },
        ScheduleSpec::Cron { expression } => {
            let normalized = normalize_cron(expression.as_str());
            match cron_check(normalized.as_str()) {
                Some(message) => {
                    let mut e = owned("invalid cron expression: ");
                    e.append(message.as_str());
                    Err(e)
                },
                None => Ok(()),
            }
        },
    }
}

/// The next time a schedule fires after `now`, or why it cannot.
pub open spec fn next_due_result(schedule: ScheduleSpec, now: int) -> Result<int, Seq<char>> {
    match schedule_error(schedule) {
        Some(e) => Err(e),
        None => match schedule {
            ScheduleSpec::Interval { every_seconds } => if every_seconds > i64::MAX
                || every_seconds * 1000 > i64::MAX {
                Err("interval is too large to represent"@)
            } else if now + every_seconds * 1000 > i64::MAX {
                Err("next interval occurrence is out of range"@)
            } else {
                Ok(now + every_seconds * 1000)
            },
            ScheduleSpec::Cron { expression } => match cron_next_occurrence(
                normalized_cron(expression@),
                now,
            ) {
                Some(t) => Ok(t as int),
                None => Err("cron expression has no future occurrence"@),
            },
        },
    }
}

/// The next due time of `schedule` after `now` (Unix milliseconds).
pub fn next_due(schedule: &ScheduleSpec, now: i64) -> (r: Result<i64, String>)
    requires
        time_in_range(now as int),
    ensures
        r matches Ok(t) ==> next_due_result(*schedule, now as int) == Ok::<int, Seq<char>>(
            t as int,
        ),
        r matches Err(e) ==> next_due_result(*schedule, now as int) == Err::<int, Seq<char>>(
            e@,
        ),
        r matches Ok(t) ==> t > now,
{
    validate_schedule(schedule)?;
    match schedule {
        ScheduleSpec::Interval { every_seconds } => {
            if *every_seconds > i64::MAX as u64 || *every_seconds > (i64::MAX / 1000) as u64 {
                return Err(owned("interval is too large to represent"));
            }
            let interval_millis: i64 = (*every_seconds as i64) * 1000;
            if now > i64::MAX - interval_millis {
                return Err(owned("next interval occurrence is out of range"));
            }
            Ok(now + interval_millis)
        },
        ScheduleSpec::Cron { expression } => {
            let normalized = normalize_cron(expression.as_str());
            match cron_next_after(normalized.as_str(), now) {
                Some(t) => Ok(t),
                None => Err(owned("cron expression has no future occurrence")),
            }
        },
    }
}


// ---------------------------------------------------------------------------
// Lookup by id
// ---------------------------------------------------------------------------

/// `i` is the first job whose id is `id`.
pub open spec fn is_first_job(jobs: Seq<AutomationJob>, id: Seq<char>, i: int) -> bool {
    0 <= i < jobs.len() && jobs[i].id@ == id && forall|k: int|
        0 <= k < i ==> (#[trigger] jobs[k]).id@ != id
}

pub open spec fn has_job(jobs: Seq<AutomationJob>, id: Seq<char>) -> bool {
    exists|i: int| 0 <= i < jobs.len() && (#[trigger] jobs[i]).id@ == id
}

/// Position of the first job with id `id`, or -1.
pub open spec fn job_position(jobs: Seq<AutomationJob>, id: Seq<char>) -> int {
    if exists|i: int| is_first_job(jobs, id, i) {
        choose|i: int| is_first_job(jobs, id, i)
    } else {
        -1
    }
}

pub proof fn lemma_first_job_unique(jobs: Seq<AutomationJob>, id: Seq<char>, i: int)
    requires
        is_first_job(jobs, id, i),
    ensures
        job_position(jobs, id) == i,
{
    let j = job_position(jobs, id);
    assert(is_first_job(jobs, id, j));
    if j < i {
        assert(jobs[j].id@ != id);
    }
    if i < j {
        assert(jobs[i].id@ != id);
    }
}

pub proof fn lemma_no_job_position(jobs: Seq<AutomationJob>, id: Seq<char>)
    requires
        !has_job(jobs, id),
    ensures
        job_position(jobs, id) == -1,
{
    assert forall|i: int| !is_first_job(jobs, id, i) by {
        if 0 <= i < jobs.len() {
            assert(jobs[i].id@ != id);
        }
    }
}

/// Index of the first job with id `id`.
fn find_job_index(jobs: &Vec<AutomationJob>, id: &str) -> (r: Option<usize>)
    ensures
        r matches Some(i) ==> is_first_job(jobs@, id@, i as int) && job_position(jobs@, id@)
            == i,
        r is None ==> !has_job(jobs@, id@) && job_position(jobs@, id@) == -1,
{
    let target = owned(id);
    for i in 0..jobs.len()
        invariant
            target@ == id@,
            forall|k: int| 0 <= k < i ==> (#[trigger] jobs@[k]).id@ != id@,
    {
        if jobs[i].id == target {
            proof {
                lemma_first_job_unique(jobs@, id@, i as int);
            }
            return Some(i);
        }
    }
    proof {
        lemma_no_job_position(jobs@, id@);
    }
    None
}

/// `i` is the first monitor whose id is `id`.
pub open spec fn is_first_monitor(monitors: Seq<MonitorDefinition>, id: Seq<char>, i: int) -> bool {
    0 <= i < monitors.len() && monitors[i].id@ == id && forall|k: int|
        0 <= k < i ==> (#[trigger] monitors[k]).id@ != id
}

pub open spec fn has_monitor(monitors: Seq<MonitorDefinition>, id: Seq<char>) -> bool {
    exists|i: int| 0 <= i < monitors.len() && (#[trigger] monitors[i]).id@ == id
}

/// Position of the first monitor with id `id`, or -1.
pub open spec fn monitor_position(monitors: Seq<MonitorDefinition>, id: Seq<char>) -> int {
    if exists|i: int| is_first_monitor(monitors, id, i) {
        choose|i: int| is_first_monitor(monitors, id, i)
    } else {
        -1
    }
}

fn find_monitor_index(monitors: &Vec<MonitorDefinition>, id: &str) -> (r: Option<usize>)
    ensures
        r matches Some(i) ==> is_first_monitor(monitors@, id@, i as int) && monitor_position(
            monitors@,
            id@,
        ) == i,
        r is None ==> !has_monitor(monitors@, id@) && monitor_position(monitors@, id@) == -1,
{
    let target = owned(id);
    for i in 0..monitors.len()
        invariant
            target@ == id@,
            forall|k: int| 0 <= k < i ==> (#[trigger] monitors@[k]).id@ != id@,
    {
        if monitors[i].id == target {
            proof {
                let j = monitor_position(monitors@, id@);
                assert(is_first_monitor(monitors@, id@, i as int));
                assert(is_first_monitor(monitors@, id@, j));
                if j < i {
                    assert(monitors@[j].id@ != id@);
                }
                if i < j {
                    assert(monitors@[i as int].id@ != id@);
                }
            }
            return Some(i);
        }
    }
    proof {
        assert forall|i: int| !is_first_monitor(monitors@, id@, i) by {
            if 0 <= i < monitors@.len() {
                assert(monitors@[i].id@ != id@);
            }
        }
    }
    None
}

/// `automation `<id>` not found`.
pub open spec fn job_not_found(id: Seq<char>) -> Seq<char> {
    "automation `"@ + id + "` not found"@
}

/// `monitor `<id>` not found`.
pub open spec fn monitor_not_found(id: Seq<char>) -> Seq<char> {
    "monitor `"@ + id + "` not found"@
}

fn quoted_message(prefix: &str, id: &str, suffix: &str) -> (r: String)
    ensures
        r@ == prefix@ + id@ + suffix@,
{
    let mut r = owned(prefix);
    r.append(id);
    r.append(suffix);
    r
}

// ---------------------------------------------------------------------------
// Capacity
// ---------------------------------------------------------------------------

pub open spec fn entry_count(state: AutomationState) -> int {
    (state.jobs@.len() + state.monitors@.len()) as int
}

pub open spec fn capacity_message() -> Seq<char> {
    "automation state is limited to 1000 entries"@
}

/// Refuses to grow a state that already holds the maximum number of entries.
pub fn ensure_capacity(state: &AutomationState) -> (r: Result<(), String>)
    ensures
        r is Ok <==> entry_count(*state) < MAX_AUTOMATIONS,
        r matches Err(e) ==> e@ == capacity_message(),
{
    if state.jobs.len() >= MAX_AUTOMATIONS || state.monitors.len() >= MAX_AUTOMATIONS - state.jobs.len() {
        Err(owned("automation state is limited to 1000 entries"))
    } else {
        Ok(())
    }
}

// ---------------------------------------------------------------------------
// State validity
// ---------------------------------------------------------------------------

pub open spec fn job_valid(job: AutomationJob) -> bool {
    prompt_error(job.prompt@) is None && schedule_error(job.schedule) is None
}

pub open spec fn monitor_valid(monitor: MonitorDefinition) -> bool {
    prompt_error(monitor.prompt@) is None && 1 <= monitor.poll_seconds <= MAX_MONITOR_POLL_SECONDS
}

/// What every state read from disk satisfies, and what every transition preserves.
pub open spec fn state_valid(state: AutomationState) -> bool {
    &&& state.version == STATE_VERSION
    &&& entry_count(state) <= MAX_AUTOMATIONS
    &&& forall|i: int| 0 <= i < state.jobs@.len() ==> job_valid(#[trigger] state.jobs@[i])
    &&& forall|i: int|
        0 <= i < state.monitors@.len() ==> monitor_valid(#[trigger] state.monitors@[i])
}

/// The empty state a missing file stands for.
pub fn initial_state() -> (s: AutomationState)
    ensures
        s.version == STATE_VERSION,
        s.jobs@.len() == 0,
        s.monitors@.len() == 0,
        state_valid(s),
{
    AutomationState { version: state_version(), jobs: Vec::new(), monitors: Vec::new() }
}

// ---------------------------------------------------------------------------
// Jobs
// ---------------------------------------------------------------------------

/// The name a job gets when none is given.
pub open spec fn default_job_name(kind: AutomationKind) -> Seq<char> {
    match kind {
        AutomationKind::Loop => "loop"@,
        AutomationKind::Cron => "cron"@,
    }
}

/// `job` is the job created from these arguments, due at `next_due_at`.
pub open spec fn is_new_job(
    job: AutomationJob,
    id: Seq<char>,
    name: Option<String>,
    prompt: Seq<char>,
    kind: AutomationKind,
    schedule: ScheduleSpec,
    now: int,
    next_due_at: int,
) -> bool {
    &&& job.id@ == id
    &&& job.name@ == (match name {
        Some(n) => n@,
        None => default_job_name(kind),
    })
    &&& job.prompt@ == prompt
    &&& job.kind == kind
    &&& job.schedule == schedule
    &&& job.enabled
    &&& job.created_at == now
    &&& job.next_due_at == next_due_at
    &&& job.last_run_at is None
    &&& job.pending_fire_at is None
    &&& job.delivery_owner is None
    &&& job.delivery_lease_expires_at is None
}

/// Builds a new enabled job; `id` and `now` come from the caller.
pub fn new_job(
    id: String,
    name: Option<String>,
    prompt: String,
    kind: AutomationKind,
    schedule: ScheduleSpec,
    now: i64,
) -> (r: Result<AutomationJob, String>)
    requires
        time_in_range(now as int),
    ensures
        r matches Err(e) ==> (prompt_error(prompt@) == Some(e@) || (prompt_error(prompt@) is None
            && next_due_result(schedule, now as int) == Err::<int, Seq<char>>(e@))),
        r is Ok <==> prompt_error(prompt@) is None && next_due_result(schedule, now as int) is Ok,
        r matches Ok(job) ==> is_new_job(
            job,
            id@,
            name,
            prompt@,
            kind,
            schedule,
            now as int,
            next_due_result(schedule, now as int)->Ok_0,
        ) && job_valid(job) && job.next_due_at > now,
{
    validate_prompt(prompt.as_str())?;
    let next_due_at = next_due(&schedule, now)?;
    let name = match name {
        Some(n) => n,
        None => match kind {
            AutomationKind::Loop => owned("loop"),
            AutomationKind::Cron => owned("cron"),
        },
    };
    Ok(
        AutomationJob {
            id,
            name,
            prompt,
            kind,
            schedule,
            enabled: true,
            created_at: now,
            next_due_at,
            last_run_at: None,
            pending_fire_at: None,
            delivery_owner: None,
            delivery_lease_expires_at: None,
        },
    )
}

/// Appends a job, unless the state is full.
pub fn insert_job(state: &mut AutomationState, job: AutomationJob) -> (r: Result<(), String>)
    ensures
        r is Ok <==> entry_count(*old(state)) < MAX_AUTOMATIONS,
        r matches Err(e) ==> e@ == capacity_message() && *final(state) == *old(state),
        r is Ok ==> final(state).jobs@ == old(state).jobs@.push(job) && final(state).monitors
            == old(state).monitors && final(state).version == old(state).version,
        state_valid(*old(state)) && job_valid(job) ==> state_valid(*final(state)),
{
    ensure_capacity(state)?;
    state.jobs.push(job);
    proof {
        let s = *final(state);
        if state_valid(*old(state)) && job_valid(job) {
            assert forall|i: int| 0 <= i < s.jobs@.len() implies job_valid(
                #[trigger] s.jobs@[i],
            ) by {
                if i < old(state).jobs@.len() {
                    assert(s.jobs@[i] == old(state).jobs@[i]);
                }
            }
        }
    }
    Ok(())
}

/// The job with id `id`.
pub fn find_job(state: &AutomationState, id: &str) -> (r: Result<AutomationJob, String>)
    ensures
        r matches Ok(j) ==> j == state.jobs@[job_position(state.jobs@, id@)] && job_position(
            state.jobs@,
            id@,
        ) >= 0,
        r matches Err(e) ==> e@ == job_not_found(id@) && !has_job(state.jobs@, id@),
        r is Ok <==> has_job(state.jobs@, id@),
{
    match find_job_index(&state.jobs, id) {
        Some(i) => Ok(state.jobs[i].duplicate()),
        None => Err(quoted_message("automation `", id, "` not found")),
    }
}

/// Removes the job with id `id` and returns it.
pub fn delete_job(state: &mut AutomationState, id: &str) -> (r: Result<AutomationJob, String>)
    ensures
        r matches Ok(j) ==> {
            let i = job_position(old(state).jobs@, id@);
            &&& 0 <= i
            &&& j == old(state).jobs@[i]
            &&& final(state).jobs@ == old(state).jobs@.remove(i)
            &&& final(state).monitors == old(state).monitors
            &&& final(state).version == old(state).version
        },
        r matches Err(e) ==> e@ == job_not_found(id@) && *final(state) == *old(state),
        r is Ok <==> has_job(old(state).jobs@, id@),
        state_valid(*old(state)) ==> state_valid(*final(state)),
{
    match find_job_index(&state.jobs, id) {
        Some(i) => {
            let job = state.jobs.remove(i);
            proof {
                let s = *final(state);
                if state_valid(*old(state)) {
                    assert forall|k: int| 0 <= k < s.jobs@.len() implies job_valid(
                        #[trigger] s.jobs@[k],
                    ) by {
                        if k < i {
                            assert(s.jobs@[k] == old(state).jobs@[k]);
                        } else {
                            assert(s.jobs@[k] == old(state).jobs@[k + 1]);
                        }
                    }
                }
            }
            Ok(job)
        },
        None => Err(quoted_message("automation `", id, "` not found")),
    }
}


// ---------------------------------------------------------------------------
// Updates
// ---------------------------------------------------------------------------

/// Why a patch is refused before any job is looked up, if it is.
pub open spec fn patch_error(patch: JobPatch) -> Option<Seq<char>> {
    if patch.prompt is Some && prompt_error(patch.prompt->0@) is Some {
        prompt_error(patch.prompt->0@)
    } else if patch.schedule is Some {
        schedule_error(patch.schedule->0)
    } else {
        None
    }
}

/// Refuses a patch whose prompt or schedule is invalid.
pub fn validate_job_patch(patch: &JobPatch) -> (r: Result<(), String>)
    ensures
        r matches Err(e) ==> patch_error(*patch) == Some(e@),
        r is Ok ==> patch_error(*patch) is None,
{
    if let Some(prompt) = &patch.prompt {
        validate_prompt(prompt.as_str())?;
    }
    if let Some(schedule) = &patch.schedule {
        validate_schedule(schedule)?;
    }
    Ok(())
}

/// A job with its delivery claim withdrawn.
pub open spec fn without_claim(job: AutomationJob) -> AutomationJob {
    AutomationJob {
        pending_fire_at: None,
        delivery_owner: None,
        delivery_lease_expires_at: None,
        ..job
    }
}

/// `job` after `patch`; `next` is the new due time when the patch replaces the schedule.
pub open spec fn patched_job(job: AutomationJob, patch: JobPatch, next: int) -> AutomationJob {
    let with_prompt = match patch.prompt {
        Some(p) => AutomationJob { prompt: p, ..job },
        None => job,
    };
    let with_enabled = match patch.enabled {
        Some(true) => AutomationJob { enabled: true, ..with_prompt },
        Some(false) => without_claim(AutomationJob { enabled: false, ..with_prompt }),
        None => with_prompt,
    };
    match patch.schedule {
        Some(s) => without_claim(
            AutomationJob { next_due_at: next as i64, schedule: s, ..with_enabled },
        ),
        None => with_enabled,
    }
}

/// Applies `patch` to the job with id `id`. A new schedule restarts the job's timing at `now`
/// and withdraws any delivery claim, as does disabling the job.
pub fn update_job(state: &mut AutomationState, id: &str, patch: JobPatch, now: i64) -> (r: Result<
    AutomationJob,
    String,
>)
    requires
        time_in_range(now as int),
    ensures
        patch_error(patch) matches Some(e) ==> (r matches Err(m) && m@ == e),
        patch_error(patch) is None && !has_job(old(state).jobs@, id@) ==> (r matches Err(m) && m@
            == job_not_found(id@)),
        patch_error(patch) is None && has_job(old(state).jobs@, id@) && patch.schedule is Some
            && next_due_result(patch.schedule->0, now as int) is Err ==> (r matches Err(m) && m@
            == next_due_result(patch.schedule->0, now as int)->Err_0),
        patch_error(patch) is None && has_job(old(state).jobs@, id@) && (patch.schedule matches Some(s)
            ==> next_due_result(s, now as int) is Ok) ==> r is Ok,
        r is Err ==> *final(state) == *old(state),
        r matches Ok(j) ==> {
            let i = job_position(old(state).jobs@, id@);
            let next = match patch.schedule {
                Some(s) => next_due_result(s, now as int)->Ok_0,
                None => 0,
            };
            &&& patch_error(patch) is None
            &&& 0 <= i
            &&& (patch.schedule matches Some(s) ==> next_due_result(s, now as int) is Ok)
            &&& j == patched_job(old(state).jobs@[i], patch, next)
            &&& final(state).jobs@ == old(state).jobs@.update(i, j)
            &&& final(state).monitors == old(state).monitors
            &&& final(state).version == old(state).version
        },
        state_valid(*old(state)) ==> state_valid(*final(state)),
{
    validate_job_patch(&patch)?;
    let i = match find_job_index(&state.jobs, id) {
        Some(i) => i,
        None => {
            return Err(quoted_message("automation `", id, "` not found"));
        },
    };
    let next: i64 = match &patch.schedule {
        Some(schedule) => next_due(schedule, now)?,
        None => 0,
    };
    let ghost prior = state.jobs@[i as int];
    let mut job = state.jobs[i].duplicate();
    let JobPatch { prompt, enabled, schedule } = patch;
    if let Some(p) = prompt {
        job.prompt = p;
    }
    if let Some(e) = enabled {
        job.enabled = e;
        if !e {
            job.pending_fire_at = None;
            job.delivery_owner = None;
            job.delivery_lease_expires_at = None;
        }
    }
    if let Some(s) = schedule {
        job.next_due_at = next;
        job.schedule = s;
        job.pending_fire_at = None;
        job.delivery_owner = None;
        job.delivery_lease_expires_at = None;
    }
    proof {
        assert(job == patched_job(prior, patch, next as int));
    }
    state.jobs.set(i, job.duplicate());
    proof {
        let s = *final(state);
        if state_valid(*old(state)) {
            assert forall|k: int| 0 <= k < s.jobs@.len() implies job_valid(
                #[trigger] s.jobs@[k],
            ) by {
                if k != i {
                    assert(s.jobs@[k] == old(state).jobs@[k]);
                } else {
                    assert(job_valid(prior));
                }
            }
        }
    }
    Ok(job)
}

// ---------------------------------------------------------------------------
// Delivery claims
// ---------------------------------------------------------------------------

pub open spec fn is_excluded(ids: Seq<String>, id: Seq<char>) -> bool {
    exists|k: int| 0 <= k < ids.len() && (#[trigger] ids[k])@ == id
}

pub open spec fn held_by(job: AutomationJob, owner: Seq<char>) -> bool {
    job.delivery_owner matches Some(o) && o@ == owner
}

/// The claim on `job` is free for `owner` at `at`: `owner` holds it, or no lease is live.
pub open spec fn lease_available(job: AutomationJob, owner: Seq<char>, at: int) -> bool {
    ||| held_by(job, owner)
    ||| job.delivery_lease_expires_at is None
    ||| job.delivery_lease_expires_at->0 <= at
}

/// `job` is handed to the scheduler that sends `req`.
pub open spec fn claimable(job: AutomationJob, req: DeliveryLeaseRequest) -> bool {
    &&& !is_excluded(req.excluded_job_ids@, job.id@)
    &&& job.enabled
    &&& lease_available(job, req.owner@, req.claimed_at as int)
    &&& (job.pending_fire_at is Some || job.next_due_at <= req.claimed_at)
}

/// `job` once claimed: its fire keeps the id it already had (or takes its due time), and the
/// lease passes to the requesting scheduler until `expires`.
pub open spec fn claimed_job(job: AutomationJob, req: DeliveryLeaseRequest, expires: i64) -> AutomationJob {
    AutomationJob {
        pending_fire_at: if job.pending_fire_at is Some {
            job.pending_fire_at
        } else {
            Some(job.next_due_at)
        },
        delivery_owner: Some(req.owner),
        delivery_lease_expires_at: Some(expires),
        ..job
    }
}

pub open spec fn after_claim(job: AutomationJob, req: DeliveryLeaseRequest, expires: i64) -> AutomationJob {
    if claimable(job, req) {
        claimed_job(job, req, expires)
    } else {
        job
    }
}

/// The jobs a claim returns, in state order.
pub open spec fn claim_results(jobs: Seq<AutomationJob>, req: DeliveryLeaseRequest, expires: i64) -> Seq<
    AutomationJob,
>
    decreases jobs.len(),
{
    if jobs.len() == 0 {
        Seq::empty()
    } else {
        claim_results(jobs.drop_last(), req, expires) + if claimable(jobs.last(), req) {
            seq![claimed_job(jobs.last(), req, expires)]
        } else {
            Seq::empty()
        }
    }
}

pub open spec fn all_after_claim(jobs: Seq<AutomationJob>, req: DeliveryLeaseRequest, expires: i64) -> Seq<
    AutomationJob,
> {
    jobs.map_values(|j: AutomationJob| after_claim(j, req, expires))
}

/// What the date library returns for a time plus a duration, both in milliseconds.
pub uninterp spec fn chrono_add_millis(t: int, d: int) -> Option<i64>;

/// `chrono::DateTime::<Utc>::checked_add_signed` on `t` and a `TimeDelta` of `d` milliseconds,
/// read back with `timestamp_millis`. The library documents its range as roughly 262,000 years
/// either side of the epoch, so a sum within `MAX_TIMESTAMP_MILLIS` of the epoch is always
/// representable; what happens outside that range is left unstated here.
#[verifier::external_body]
fn add_millis(t: i64, d: i64) -> (r: Option<i64>)
    requires
        time_in_range(t as int),
    ensures
        r == chrono_add_millis(t as int, d as int),
        r matches Some(v) ==> v == t + d,
        time_in_range(t + d) ==> r is Some,
{
    let start = chrono::DateTime::from_timestamp_millis(t)?;
    let delta = chrono::TimeDelta::try_milliseconds(d)?;
    start.checked_add_signed(delta).map(|end| end.timestamp_millis())
}

fn contains_id(ids: &Vec<String>, id: &String) -> (r: bool)
    ensures
        r == is_excluded(ids@, id@),
{
    for k in 0..ids.len()
        invariant
            forall|j: int| 0 <= j < k ==> (#[trigger] ids@[j])@ != id@,
    {
        if ids[k] == *id {
            return true;
        }
    }
    false
}

fn is_claimable(job: &AutomationJob, req: &DeliveryLeaseRequest) -> (r: bool)
    ensures
        r == claimable(*job, *req),
{
    if contains_id(&req.excluded_job_ids, &job.id) || !job.enabled {
        return false;
    }
    let held = match &job.delivery_owner {
        Some(o) => *o == req.owner,
        None => false,
    };
    let available = held || match job.delivery_lease_expires_at {
        None => true,
        Some(e) => e <= req.claimed_at,
    };
    available && (job.pending_fire_at.is_some() || job.next_due_at <= req.claimed_at)
}

pub open spec fn lease_out_of_range() -> Seq<char> {
    "automation delivery lease is out of range"@
}

pub open spec fn lease_not_positive() -> Seq<char> {
    "automation delivery lease duration must be positive"@
}

/// Claims every enabled, due, not excluded job whose lease is free for the requesting scheduler.
/// A claimed job keeps (or gains) a pending fire id and is leased to the requester for the
/// requested duration; claimed jobs are returned in state order.
pub fn claim_due(state: &mut AutomationState, request: &DeliveryLeaseRequest) -> (r: Result<
    Vec<AutomationJob>,
    String,
>)
    requires
        time_in_range(request.claimed_at as int),
    ensures
        chrono_add_millis(request.claimed_at as int, request.duration_millis as int) is None
            ==> (r matches Err(e) && e@ == lease_out_of_range()),
        chrono_add_millis(request.claimed_at as int, request.duration_millis as int) matches Some(
            x,
        ) && x <= request.claimed_at ==> (r matches Err(e) && e@ == lease_not_positive()),
        r is Err ==> *final(state) == *old(state),
        r matches Ok(claimed) ==> {
            let x = chrono_add_millis(request.claimed_at as int, request.duration_millis as int);
            &&& x matches Some(expires)
            &&& expires > request.claimed_at
            &&& expires == request.claimed_at + request.duration_millis
            &&& claimed@ == claim_results(old(state).jobs@, *request, expires)
            &&& final(state).jobs@ == all_after_claim(old(state).jobs@, *request, expires)
            &&& final(state).monitors == old(state).monitors
            &&& final(state).version == old(state).version
        },
        time_in_range(request.claimed_at + request.duration_millis) && request.duration_millis > 0
            ==> r is Ok,
        state_valid(*old(state)) ==> state_valid(*final(state)),
{
    let expires = match add_millis(request.claimed_at, request.duration_millis) {
        Some(e) => e,
        None => {
            return Err(owned("automation delivery lease is out of range"));
        },
    };
    if expires <= request.claimed_at {
        return Err(owned("automation delivery lease duration must be positive"));
    }
    let ghost old_jobs = state.jobs@;
    let n = state.jobs.len();
    let mut due: Vec<AutomationJob> = Vec::new();
    for i in 0..n
        invariant
            state.jobs@.len() == n,
            old_jobs.len() == n,
            forall|k: int| 0 <= k < i ==> state.jobs@[k] == after_claim(old_jobs[k], *request, expires),
            forall|k: int| i <= k < n ==> state.jobs@[k] == old_jobs[k],
            due@ == claim_results(old_jobs.take(i as int), *request, expires),
            state.monitors == old(state).monitors,
            state.version == old(state).version,
    {
        proof {
            let t = old_jobs.take(i + 1);
            assert(t.drop_last() == old_jobs.take(i as int));
            assert(t.last() == old_jobs[i as int]);
        }
        if is_claimable(&state.jobs[i], request) {
            let mut job = state.jobs[i].duplicate();
            if job.pending_fire_at.is_none() {
                job.pending_fire_at = Some(job.next_due_at);
            }
            job.delivery_owner = Some(request.owner.clone());
            job.delivery_lease_expires_at = Some(expires);
            proof {
                assert(job == claimed_job(old_jobs[i as int], *request, expires));
            }
            state.jobs.set(i, job.duplicate());
            due.push(job);
        }
    }
    proof {
        assert(old_jobs.take(n as int) == old_jobs);
        assert(state.jobs@ == all_after_claim(old_jobs, *request, expires));
        if state_valid(*old(state)) {
            let s = *final(state);
            assert forall|k: int| 0 <= k < s.jobs@.len() implies job_valid(
                #[trigger] s.jobs@[k],
            ) by {
                assert(job_valid(old_jobs[k]));
            }
        }
    }
    Ok(due)
}

// ---------------------------------------------------------------------------
// Acknowledgements
// ---------------------------------------------------------------------------

/// The acknowledgement names the fire the job is pending and comes from its lease holder.
pub open spec fn acknowledgement_matches(job: AutomationJob, ack: DeliveryAcknowledgement) -> bool {
    job.pending_fire_at == Some(ack.pending_fire_at) && held_by(job, ack.owner@)
}

/// `job` after a delivery at `ack.delivered_at`; `next` is its next due time.
pub open spec fn acknowledged_job(job: AutomationJob, ack: DeliveryAcknowledgement, next: int) -> AutomationJob {
    without_claim(
        AutomationJob { last_run_at: Some(ack.delivered_at), next_due_at: next as i64, ..job },
    )
}

pub open spec fn claim_changed(id: Seq<char>) -> Seq<char> {
    "automation `"@ + id + "` delivery claim changed before acknowledgement"@
}

/// Records a delivered fire: only the lease holder may acknowledge the fire it claimed. The job's
/// last run becomes the delivery time, its next due time is computed from there, and the claim is
/// withdrawn.
pub fn acknowledge_delivery(state: &mut AutomationState, ack: &DeliveryAcknowledgement) -> (r:
    Result<(), String>)
    requires
        time_in_range(ack.delivered_at as int),
    ensures
        !has_job(old(state).jobs@, ack.id@) ==> (r matches Err(e) && e@ == job_not_found(ack.id@)),
        r is Err ==> *final(state) == *old(state),
        has_job(old(state).jobs@, ack.id@) ==> {
            let i = job_position(old(state).jobs@, ack.id@);
            let job = old(state).jobs@[i];
            let next = next_due_result(job.schedule, ack.delivered_at as int);
            &&& 0 <= i
            &&& !acknowledgement_matches(job, *ack) ==> (r matches Err(e) && e@ == claim_changed(
                ack.id@,
            ))
            &&& acknowledgement_matches(job, *ack) && next is Err ==> (r matches Err(e) && e@
                == next->Err_0)
            &&& acknowledgement_matches(job, *ack) && next is Ok ==> r is Ok
            &&& r is Ok ==> final(state).jobs@ == old(state).jobs@.update(
                i,
                acknowledged_job(job, *ack, next->Ok_0),
            ) && next->Ok_0 > ack.delivered_at
        },
        r is Ok ==> final(state).monitors == old(state).monitors,
        r is Ok ==> final(state).version == old(state).version,
        state_valid(*old(state)) ==> state_valid(*final(state)),
{
    let i = match find_job_index(&state.jobs, ack.id.as_str()) {
        Some(i) => i,
        None => {
            return Err(quoted_message("automation `", ack.id.as_str(), "` not found"));
        },
    };
    let held = match &state.jobs[i].delivery_owner {
        Some(o) => *o == ack.owner,
        None => false,
    };
    if state.jobs[i].pending_fire_at != Some(ack.pending_fire_at) || !held {
        return Err(
            quoted_message(
                "automation `",
                ack.id.as_str(),
                "` delivery claim changed before acknowledgement",
            ),
        );
    }
    let next = next_due(&state.jobs[i].schedule, ack.delivered_at)?;
    let ghost prior = state.jobs@[i as int];
    let mut job = state.jobs[i].duplicate();
    job.last_run_at = Some(ack.delivered_at);
    job.next_due_at = next;
    job.pending_fire_at = None;
    job.delivery_owner = None;
    job.delivery_lease_expires_at = None;
    proof {
        assert(job == acknowledged_job(prior, *ack, next as int));
    }
    state.jobs.set(i, job);
    proof {
        let s = *final(state);
        if state_valid(*old(state)) {
            assert forall|k: int| 0 <= k < s.jobs@.len() implies job_valid(
                #[trigger] s.jobs@[k],
            ) by {
                if k != i {
                    assert(s.jobs@[k] == old(state).jobs@[k]);
                } else {
                    assert(job_valid(prior));
                }
            }
        }
    }
    Ok(())
}


// ---------------------------------------------------------------------------
// Laws of patches and delivery leases
// ---------------------------------------------------------------------------

/// A patch that does not replace the schedule keeps the job's identity, schedule and timing;
/// one that disables the job also withdraws its delivery claim.
pub proof fn law_patch_keeps_schedule_and_timing(job: AutomationJob, patch: JobPatch, next: int)
    requires
        patch.schedule is None,
    ensures
        patched_job(job, patch, next).id == job.id,
        patched_job(job, patch, next).name == job.name,
        patched_job(job, patch, next).kind == job.kind,
        patched_job(job, patch, next).schedule == job.schedule,
        patched_job(job, patch, next).created_at == job.created_at,
        patched_job(job, patch, next).next_due_at == job.next_due_at,
        patched_job(job, patch, next).last_run_at == job.last_run_at,
        patched_job(job, patch, next).prompt == match patch.prompt {
            Some(p) => p,
            None => job.prompt,
        },
        patched_job(job, patch, next).enabled == match patch.enabled {
            Some(e) => e,
            None => job.enabled,
        },
        patch.enabled == Some(false) ==> patched_job(job, patch, next) == without_claim(
            patched_job(job, patch, next),
        ),
{
}

/// A job with no claim on it is claimed once it falls due and not before: the claim takes the
/// due time as the fire and leases the job to the requester until `expires`.
pub proof fn law_unclaimed_job_is_claimed_at_its_due_time(
    job: AutomationJob,
    req: DeliveryLeaseRequest,
    expires: i64,
)
    requires
        job.enabled,
        !is_excluded(req.excluded_job_ids@, job.id@),
        job.pending_fire_at is None,
        job.delivery_owner is None,
        job.delivery_lease_expires_at is None,
    ensures
        claimable(job, req) <==> job.next_due_at <= req.claimed_at,
        claimed_job(job, req, expires).pending_fire_at == Some(job.next_due_at),
        claimed_job(job, req, expires).delivery_owner == Some(req.owner),
        claimed_job(job, req, expires).delivery_lease_expires_at == Some(expires),
{
}

/// The lease holder may claim its job again at any time, and the fire keeps its id.
pub proof fn law_holder_reclaims_the_same_fire(
    job: AutomationJob,
    req: DeliveryLeaseRequest,
    expires: i64,
    again: DeliveryLeaseRequest,
    expires_again: i64,
)
    requires
        claimable(job, req),
        again.owner@ == req.owner@,
        !is_excluded(again.excluded_job_ids@, job.id@),
    ensures
        claimable(claimed_job(job, req, expires), again),
        claimed_job(claimed_job(job, req, expires), again, expires_again).pending_fire_at
            == claimed_job(job, req, expires).pending_fire_at,
{
}

/// Another scheduler cannot take a claimed job over while the lease is live; once it has
/// expired it can, and the fire keeps its id while the lease passes to the new scheduler.
pub proof fn law_lease_blocks_others_until_it_expires(
    job: AutomationJob,
    req: DeliveryLeaseRequest,
    expires: i64,
    other: DeliveryLeaseRequest,
    expires_other: i64,
)
    requires
        claimable(job, req),
        other.owner@ != req.owner@,
        !is_excluded(other.excluded_job_ids@, job.id@),
    ensures
        other.claimed_at < expires ==> !claimable(claimed_job(job, req, expires), other),
        other.claimed_at >= expires ==> claimable(claimed_job(job, req, expires), other),
        claimed_job(claimed_job(job, req, expires), other, expires_other).pending_fire_at
            == claimed_job(job, req, expires).pending_fire_at,
        claimed_job(claimed_job(job, req, expires), other, expires_other).delivery_owner == Some(
            other.owner,
        ),
{
}

/// A job that is excluded from a request, or disabled, is neither returned nor changed by it.
pub proof fn law_excluded_or_disabled_job_is_untouched(
    job: AutomationJob,
    req: DeliveryLeaseRequest,
    expires: i64,
)
    requires
        is_excluded(req.excluded_job_ids@, job.id@) || !job.enabled,
    ensures
        !claimable(job, req),
        after_claim(job, req, expires) == job,
{
}

/// Once a delivery is acknowledged, nothing is claimed again before the job's next due time,
/// in particular not at the time of the delivery.
pub proof fn law_acknowledged_job_is_not_claimed_before_next_due(
    job: AutomationJob,
    ack: DeliveryAcknowledgement,
    next: int,
    req: DeliveryLeaseRequest,
)
    requires
        next > ack.delivered_at,
        i64::MIN <= next <= i64::MAX,
        req.claimed_at < next,
    ensures
        acknowledged_job(job, ack, next).pending_fire_at is None,
        acknowledged_job(job, ack, next).delivery_owner is None,
        acknowledged_job(job, ack, next).delivery_lease_expires_at is None,
        acknowledged_job(job, ack, next).last_run_at == Some(ack.delivered_at),
        !claimable(acknowledged_job(job, ack, next), req),
{
}

// ---------------------------------------------------------------------------
// Monitors
// ---------------------------------------------------------------------------

pub open spec fn poll_range_message() -> Seq<char> {
    "monitor poll_seconds must be between 1 and 3600"@
}

/// The name a monitor gets when none is given: `process-<pid>`.
pub open spec fn default_monitor_name(process_id: i32) -> Seq<char> {
    "process-"@ + signed_decimal(process_id as int)
}

/// Builds a new enabled monitor of background process `process_id`; `id` and `now` come from
/// the caller.
pub fn new_monitor(
    id: String,
    name: Option<String>,
    process_id: i32,
    prompt: String,
    contains: Option<String>,
    poll_seconds: u64,
    once: bool,
    now: i64,
) -> (r: Result<MonitorDefinition, String>)
    ensures
        prompt_error(prompt@) matches Some(e) ==> (r matches Err(m) && m@ == e),
        prompt_error(prompt@) is None && !(1 <= poll_seconds <= MAX_MONITOR_POLL_SECONDS) ==> (
        r matches Err(m) && m@ == poll_range_message()),
        r is Ok <==> prompt_error(prompt@) is None && 1 <= poll_seconds <= MAX_MONITOR_POLL_SECONDS,
        r matches Ok(m) ==> {
            &&& m.id@ == id@
            &&& m.name@ == (match name {
                Some(n) => n@,
                None => default_monitor_name(process_id),
            })
            &&& m.process_id == process_id
            &&& m.prompt@ == prompt@
            &&& m.contains == contains
            &&& m.poll_seconds == poll_seconds
            &&& m.once == once
            &&& m.enabled
            &&& m.created_at == now
            &&& monitor_valid(m)
        },
{
    validate_prompt(prompt.as_str())?;
    if !(1 <= poll_seconds && poll_seconds <= MAX_MONITOR_POLL_SECONDS) {
        return Err(owned("monitor poll_seconds must be between 1 and 3600"));
    }
    let name = match name {
        Some(n) => n,
        None => {
            let mut n = owned("process-");
            push_signed_decimal(&mut n, process_id as i64);
            n
        },
    };
    Ok(
        MonitorDefinition {
            id,
            name,
            process_id,
            prompt,
            contains,
            poll_seconds,
            once,
            enabled: true,
            created_at: now,
        },
    )
}

/// Appends a monitor, unless the state is full.
pub fn insert_monitor(state: &mut AutomationState, monitor: MonitorDefinition) -> (r: Result<
    (),
    String,
>)
    ensures
        r is Ok <==> entry_count(*old(state)) < MAX_AUTOMATIONS,
        r matches Err(e) ==> e@ == capacity_message() && *final(state) == *old(state),
        r is Ok ==> final(state).monitors@ == old(state).monitors@.push(monitor),
        r is Ok ==> final(state).jobs == old(state).jobs,
        r is Ok ==> final(state).version == old(state).version,
        state_valid(*old(state)) && monitor_valid(monitor) ==> state_valid(*final(state)),
{
    ensure_capacity(state)?;
    state.monitors.push(monitor);
    proof {
        let s = *final(state);
        if state_valid(*old(state)) && monitor_valid(monitor) {
            assert forall|i: int| 0 <= i < s.monitors@.len() implies monitor_valid(
                #[trigger] s.monitors@[i],
            ) by {
                if i < old(state).monitors@.len() {
                    assert(s.monitors@[i] == old(state).monitors@[i]);
                }
            }
        }
    }
    Ok(())
}

/// Disables the monitor with id `id` and returns it as stored.
pub fn stop_monitor(state: &mut AutomationState, id: &str) -> (r: Result<MonitorDefinition, String>)
    ensures
        r matches Err(e) ==> e@ == monitor_not_found(id@) && *final(state) == *old(state),
        r is Ok <==> has_monitor(old(state).monitors@, id@),
        r matches Ok(m) ==> {
            let i = monitor_position(old(state).monitors@, id@);
            &&& 0 <= i
            &&& m == MonitorDefinition { enabled: false, ..old(state).monitors@[i] }
            &&& final(state).monitors@ == old(state).monitors@.update(i, m)
            &&& final(state).jobs == old(state).jobs
            &&& final(state).version == old(state).version
        },
        state_valid(*old(state)) ==> state_valid(*final(state)),
{
    match find_monitor_index(&state.monitors, id) {
        Some(i) => {
            let ghost prior = state.monitors@[i as int];
            let mut monitor = state.monitors[i].duplicate();
            monitor.enabled = false;
            state.monitors.set(i, monitor.duplicate());
            proof {
                let s = *final(state);
                if state_valid(*old(state)) {
                    assert forall|k: int| 0 <= k < s.monitors@.len() implies monitor_valid(
                        #[trigger] s.monitors@[k],
                    ) by {
                        if k != i {
                            assert(s.monitors@[k] == old(state).monitors@[k]);
                        } else {
                            assert(monitor_valid(prior));
                        }
                    }
                }
            }
            Ok(monitor)
        },
        None => Err(quoted_message("monitor `", id, "` not found")),
    }
}

// ---------------------------------------------------------------------------
// Loaded-state checks
// ---------------------------------------------------------------------------

/// Why a stored job is refused, if it is.
pub open spec fn job_error(job: AutomationJob) -> Option<Seq<char>> {
    let prefix = "automation `"@ + job.id@ + "` is invalid: "@;
    match prompt_error(job.prompt@) {
        Some(e) => Some(prefix + e),
        None => match schedule_error(job.schedule) {
            Some(e) => Some(prefix + e),
            None => None,
        },
    }
}

/// Why a stored monitor is refused, if it is.
pub open spec fn monitor_error(monitor: MonitorDefinition) -> Option<Seq<char>> {
    match prompt_error(monitor.prompt@) {
        Some(e) => Some("monitor `"@ + monitor.id@ + "` is invalid: "@ + e),
        None => if 1 <= monitor.poll_seconds <= MAX_MONITOR_POLL_SECONDS {
            None
        } else {
            Some(
                "monitor `"@ + monitor.id@ + "` poll_seconds must be between 1 and 3600"@,
            )
        },
    }
}

/// The first refused job, in order.
pub open spec fn jobs_error(jobs: Seq<AutomationJob>) -> Option<Seq<char>>
    decreases jobs.len(),
{
    if jobs.len() == 0 {
        None
    } else {
        match jobs_error(jobs.drop_last()) {
            Some(e) => Some(e),
            None => job_error(jobs.last()),
        }
    }
}

/// The first refused monitor, in order.
pub open spec fn monitors_error(monitors: Seq<MonitorDefinition>) -> Option<Seq<char>>
    decreases monitors.len(),
{
    if monitors.len() == 0 {
        None
    } else {
        match monitors_error(monitors.drop_last()) {
            Some(e) => Some(e),
            None => monitor_error(monitors.last()),
        }
    }
}

/// Why a state read from disk is refused, if it is.
pub open spec fn state_error(state: AutomationState) -> Option<Seq<char>> {
    if state.version != STATE_VERSION {
        Some("unsupported automation state version "@ + decimal(state.version as nat))
    } else if entry_count(state) > MAX_AUTOMATIONS {
        Some("automation state exceeds the 1000-entry limit"@)
    } else {
        match jobs_error(state.jobs@) {
            Some(e) => Some(e),
            None => monitors_error(state.monitors@),
        }
    }
}

proof fn lemma_jobs_error_none(jobs: Seq<AutomationJob>)
    ensures
        (jobs_error(jobs) is None) == (forall|i: int| 0 <= i < jobs.len() ==> job_valid(
            #[trigger] jobs[i],
        )),
    decreases jobs.len(),
{
    if jobs.len() > 0 {
        lemma_jobs_error_none(jobs.drop_last());
        assert forall|i: int| 0 <= i < jobs.len() - 1 implies #[trigger] jobs.drop_last()[i]
            == jobs[i] by {}
        if jobs_error(jobs) is None {
            assert forall|i: int| 0 <= i < jobs.len() implies job_valid(#[trigger] jobs[i]) by {
                if i < jobs.len() - 1 {
                    assert(jobs.drop_last()[i] == jobs[i]);
                }
            }
        }
        if forall|i: int| 0 <= i < jobs.len() ==> job_valid(#[trigger] jobs[i]) {
            assert(job_valid(jobs[jobs.len() - 1]));
            assert forall|i: int| 0 <= i < jobs.drop_last().len() implies job_valid(
                #[trigger] jobs.drop_last()[i],
            ) by {
                assert(jobs.drop_last()[i] == jobs[i]);
            }
        }
    }
}

proof fn lemma_monitors_error_none(monitors: Seq<MonitorDefinition>)
    ensures
        (monitors_error(monitors) is None) == (forall|i: int|
            0 <= i < monitors.len() ==> monitor_valid(#[trigger] monitors[i])),
    decreases monitors.len(),
{
    if monitors.len() > 0 {
        lemma_monitors_error_none(monitors.drop_last());
        if monitors_error(monitors) is None {
            assert forall|i: int| 0 <= i < monitors.len() implies monitor_valid(
                #[trigger] monitors[i],
            ) by {
                if i < monitors.len() - 1 {
                    assert(monitors.drop_last()[i] == monitors[i]);
                }
            }
        }
        if forall|i: int| 0 <= i < monitors.len() ==> monitor_valid(#[trigger] monitors[i]) {
            assert(monitor_valid(monitors[monitors.len() - 1]));
            assert forall|i: int| 0 <= i < monitors.drop_last().len() implies monitor_valid(
                #[trigger] monitors.drop_last()[i],
            ) by {
                assert(monitors.drop_last()[i] == monitors[i]);
            }
        }
    }
}

/// A state is refused exactly when it is not valid.
pub proof fn lemma_state_error_iff_invalid(state: AutomationState)
    ensures
        (state_error(state) is None) == state_valid(state),
{
    lemma_jobs_error_none(state.jobs@);
    lemma_monitors_error_none(state.monitors@);
}

fn job_error_exec(job: &AutomationJob) -> (r: Option<String>)
    ensures
        r matches Some(e) ==> job_error(*job) == Some(e@),
        r is None ==> job_error(*job) is None,
{
    let problem = match validate_prompt(job.prompt.as_str()) {
        Err(e) => Some(e),
        Ok(()) => match validate_schedule(&job.schedule) {
            Err(e) => Some(e),
            Ok(()) => None,
        },
    };
    match problem {
        Some(e) => {
            let mut m = quoted_message("automation `", job.id.as_str(), "` is invalid: ");
            m.append(e.as_str());
            Some(m)
        },
        None => None,
    }
}

fn monitor_error_exec(monitor: &MonitorDefinition) -> (r: Option<String>)
    ensures
        r matches Some(e) ==> monitor_error(*monitor) == Some(e@),
        r is None ==> monitor_error(*monitor) is None,
{
    match validate_prompt(monitor.prompt.as_str()) {
        Err(e) => {
            let mut m = quoted_message("monitor `", monitor.id.as_str(), "` is invalid: ");
            m.append(e.as_str());
            Some(m)
        },
        Ok(()) => {
            if 1 <= monitor.poll_seconds && monitor.poll_seconds <= MAX_MONITOR_POLL_SECONDS {
                None
            } else {
                Some(
                    quoted_message(
                        "monitor `",
                        monitor.id.as_str(),
                        "` poll_seconds must be between 1 and 3600",
                    ),
                )
            }
        },
    }
}

/// The checks a state read from disk must pass: the supported version, the entry bound, and
/// valid prompts, schedules and polling intervals, reporting the first failure.
pub fn validate_loaded_state(state: &AutomationState) -> (r: Result<(), String>)
    ensures
        r matches Err(e) ==> state_error(*state) == Some(e@),
        r is Ok ==> state_error(*state) is None,
        r is Ok <==> state_valid(*state),
{
    proof {
        lemma_state_error_iff_invalid(*state);
    }
    if state.version != STATE_VERSION {
        let mut m = owned("unsupported automation state version ");
        push_decimal(&mut m, state.version as u64);
        return Err(m);
    }
    if state.jobs.len() > MAX_AUTOMATIONS || state.monitors.len() > MAX_AUTOMATIONS
        - state.jobs.len() {
        return Err(owned("automation state exceeds the 1000-entry limit"));
    }
    for i in 0..state.jobs.len()
        invariant
            state.version == STATE_VERSION,
            entry_count(*state) <= MAX_AUTOMATIONS,
            jobs_error(state.jobs@.take(i as int)) is None,
    {
        proof {
            let t = state.jobs@.take(i + 1);
            assert(t.drop_last() == state.jobs@.take(i as int));
        }
        if let Some(e) = job_error_exec(&state.jobs[i]) {
            proof {
                lemma_jobs_error_prefix(state.jobs@, i + 1);
            }
            return Err(e);
        }
    }
    proof {
        assert(state.jobs@.take(state.jobs@.len() as int) == state.jobs@);
    }
    for i in 0..state.monitors.len()
        invariant
            state.version == STATE_VERSION,
            entry_count(*state) <= MAX_AUTOMATIONS,
            jobs_error(state.jobs@) is None,
            monitors_error(state.monitors@.take(i as int)) is None,
    {
        proof {
            let t = state.monitors@.take(i + 1);
            assert(t.drop_last() == state.monitors@.take(i as int));
        }
        if let Some(e) = monitor_error_exec(&state.monitors[i]) {
            proof {
                lemma_monitors_error_prefix(state.monitors@, i + 1);
            }
            return Err(e);
        }
    }
    proof {
        assert(state.monitors@.take(state.monitors@.len() as int) == state.monitors@);
    }
    Ok(())
}

/// Once a prefix has an error, the whole sequence reports that same error.
proof fn lemma_jobs_error_prefix(jobs: Seq<AutomationJob>, n: int)
    requires
        0 <= n <= jobs.len(),
        jobs_error(jobs.take(n)) is Some,
    ensures
        jobs_error(jobs) == jobs_error(jobs.take(n)),
    decreases jobs.len() - n,
{
    if n < jobs.len() {
        assert(jobs.take(n + 1).drop_last() == jobs.take(n));
        lemma_jobs_error_prefix(jobs, n + 1);
    } else {
        assert(jobs.take(n) == jobs);
    }
}

proof fn lemma_monitors_error_prefix(monitors: Seq<MonitorDefinition>, n: int)
    requires
        0 <= n <= monitors.len(),
        monitors_error(monitors.take(n)) is Some,
    ensures
        monitors_error(monitors) == monitors_error(monitors.take(n)),
    decreases monitors.len() - n,
{
    if n < monitors.len() {
        assert(monitors.take(n + 1).drop_last() == monitors.take(n));
        lemma_monitors_error_prefix(monitors, n + 1);
    } else {
        assert(monitors.take(n) == monitors);
    }
}


// ---------------------------------------------------------------------------
// Laws of the delivery protocol
// ---------------------------------------------------------------------------

/// A scheduler that retries a claim it has not acknowledged gets the same jobs back, and the
/// retry leaves the state as the first claim left it.
pub proof fn law_claim_retry_is_idempotent(
    jobs: Seq<AutomationJob>,
    req: DeliveryLeaseRequest,
    expires: i64,
)
    ensures
        all_after_claim(all_after_claim(jobs, req, expires), req, expires) == all_after_claim(
            jobs,
            req,
            expires,
        ),
        claim_results(all_after_claim(jobs, req, expires), req, expires) == claim_results(
            jobs,
            req,
            expires,
        ),
    decreases jobs.len(),
{
    let once = all_after_claim(jobs, req, expires);
    assert forall|i: int| 0 <= i < jobs.len() implies #[trigger] after_claim(once[i], req, expires)
        == once[i] && (claimable(jobs[i], req) == claimable(once[i], req)) && (claimable(
        jobs[i],
        req,
    ) ==> claimed_job(once[i], req, expires) == claimed_job(jobs[i], req, expires)) by {
        lemma_claim_step_stable(jobs[i], req, expires);
    }
    assert(all_after_claim(once, req, expires) =~= once);
    if jobs.len() > 0 {
        let shorter = jobs.drop_last();
        law_claim_retry_is_idempotent(shorter, req, expires);
        assert(all_after_claim(shorter, req, expires) == once.drop_last());
        lemma_claim_step_stable(jobs.last(), req, expires);
        assert(once.last() == after_claim(jobs.last(), req, expires));
    }
}

proof fn lemma_claim_step_stable(job: AutomationJob, req: DeliveryLeaseRequest, expires: i64)
    ensures
        after_claim(after_claim(job, req, expires), req, expires) == after_claim(job, req, expires),
        claimable(after_claim(job, req, expires), req) == claimable(job, req),
        claimable(job, req) ==> claimed_job(after_claim(job, req, expires), req, expires)
            == claimed_job(job, req, expires),
{
    if claimable(job, req) {
        let c = claimed_job(job, req, expires);
        assert(held_by(c, req.owner@));
        assert(claimable(c, req));
        assert(claimed_job(c, req, expires) == c);
    }
}

/// While another scheduler holds a live lease on a job, a claim leaves the job alone.
pub proof fn law_live_lease_excludes_other_schedulers(
    job: AutomationJob,
    req: DeliveryLeaseRequest,
    expires: i64,
)
    requires
        job.delivery_owner matches Some(o) && o@ != req.owner@,
        job.delivery_lease_expires_at matches Some(e) && e > req.claimed_at,
    ensures
        !claimable(job, req),
        after_claim(job, req, expires) == job,
{
}

/// A scheduler that takes over an expired lease keeps the pending fire id, and holds the lease.
pub proof fn law_takeover_keeps_fire_id(job: AutomationJob, req: DeliveryLeaseRequest, expires: i64)
    requires
        claimable(job, req),
        job.pending_fire_at is Some,
    ensures
        claimed_job(job, req, expires).pending_fire_at == job.pending_fire_at,
        held_by(claimed_job(job, req, expires), req.owner@),
{
}

/// Only the scheduler that holds the claim can acknowledge it: after a claim by one scheduler,
/// an acknowledgement from any other is refused, and the holder's acknowledgement of the fire
/// it was given is accepted.
pub proof fn law_only_the_claim_holder_acknowledges(
    job: AutomationJob,
    req: DeliveryLeaseRequest,
    expires: i64,
    ack: DeliveryAcknowledgement,
)
    requires
        claimable(job, req),
    ensures
        ack.owner@ != req.owner@ ==> !acknowledgement_matches(claimed_job(job, req, expires), ack),
        ack.owner@ == req.owner@ && Some(ack.pending_fire_at) == claimed_job(
            job,
            req,
            expires,
        ).pending_fire_at ==> acknowledgement_matches(claimed_job(job, req, expires), ack),
{
}

/// An acknowledged fire is not handed out again before the job's next due time.
pub proof fn law_acknowledged_fire_is_not_reclaimed_early(
    job: AutomationJob,
    ack: DeliveryAcknowledgement,
    next: int,
    req: DeliveryLeaseRequest,
)
    requires
        next > ack.delivered_at,
        next <= i64::MAX,
        req.claimed_at < next,
    ensures
        !claimable(acknowledged_job(job, ack, next), req),
{
}

/// Disabled and excluded jobs are never claimed.
pub proof fn law_disabled_or_excluded_jobs_are_not_claimed(
    job: AutomationJob,
    req: DeliveryLeaseRequest,
)
    requires
        !job.enabled || is_excluded(req.excluded_job_ids@, job.id@),
    ensures
        !claimable(job, req),
{
}

} // verus!
