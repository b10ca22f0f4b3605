//! Durable loops as hosts see them: the loop view of a job, the app-server page of loops,
//! and the `/loop` command of the terminal UI.
use crate::automation::{
    find_job, job_not_found, job_position, AutomationJob, AutomationKind, ScheduleSpec,
};
use crate::text::{
    all_digits, ascii_lower_seq, ascii_lowercase_chars, chars_of, decimal, decimal_string,
    digits_value, eq_ignore_ascii_case, has_prefix, is_blank, is_white, is_whitespace, owned,
    parse_unsigned_chars, parse_usize, push_decimal, push_signed_decimal, signed_decimal,
    spec_parse_unsigned, starts_with, string_of, trim, trim_bounds, trimmed,
};
use vstd::prelude::*;

verus! {

/// A durable interval loop, as the automation handle reports it (times in Unix milliseconds).
#[derive(Clone, Debug, PartialEq, Eq)]
pub struct LoopInfo {
    pub id: String,
    pub name: String,
    pub prompt: String,
    pub every_seconds: u64,
    pub enabled: bool,
    pub created_at: i64,
    pub next_due_at: i64,
    pub last_run_at: Option<i64>,
}

/// A durable loop on the app-server wire (times in Unix seconds).
#[derive(Clone, Debug, PartialEq, Eq)]
pub struct LoopAutomation {
    pub id: String,
    pub name: String,
    pub prompt: String,
    pub every_seconds: u64,
    pub enabled: bool,
    pub created_at: i64,
    pub next_due_at: i64,
    pub last_run_at: Option<i64>,
}

#[derive(Clone, Debug, PartialEq, Eq)]
pub struct LoopCreateParams {
    pub thread_id: String,
    pub name: Option<String>,
    pub prompt: String,
    pub every_seconds: u64,
}

#[derive(Clone, Debug, PartialEq, Eq)]
pub struct LoopCreateResponse {
    pub loop_: LoopAutomation,
}

#[derive(Clone, Debug, PartialEq, Eq)]
pub struct LoopListParams {
    pub thread_id: String,
    /// Opaque pagination cursor returned by a previous call.
    pub cursor: Option<String>,
    /// Optional page size; defaults to a server-defined value.
    pub limit: Option<u32>,
}

#[derive(Clone, Debug, PartialEq, Eq)]
pub struct LoopListResponse {
    pub data: Vec<LoopAutomation>,
    pub next_cursor: Option<String>,
}

#[derive(Clone, Debug, PartialEq, Eq)]
pub struct LoopDeleteParams {
    pub thread_id: String,
    pub id: String,
}

#[derive(Clone, Debug, PartialEq, Eq)]
pub struct LoopDeleteResponse {
    pub loop_: LoopAutomation,
}

// ---------------------------------------------------------------------------
// Jobs as loops
// ---------------------------------------------------------------------------

/// `info` is the loop view of `job`, whose schedule is the interval `every_seconds`.
pub open spec fn is_loop_info(info: LoopInfo, job: AutomationJob, every_seconds: u64) -> bool {
    &&& info.id == job.id
    &&& info.name == job.name
    &&& info.prompt == job.prompt
    &&& info.every_seconds == every_seconds
    &&& info.enabled == job.enabled
    &&& info.created_at == job.created_at
    &&& info.next_due_at == job.next_due_at
    &&& info.last_run_at == job.last_run_at
}

pub open spec fn non_interval_message(id: Seq<char>) -> Seq<char> {
    "loop `"@ + id + "` has a non-interval schedule"@
}

/// The loop view of a job; refused when the job's schedule is not an interval.
pub fn loop_info(job: AutomationJob) -> (r: Result<LoopInfo, String>)
    ensures
        job.schedule matches ScheduleSpec::Interval { every_seconds } ==> (r matches Ok(info)
            && is_loop_info(info, job, every_seconds)),
        job.schedule is Cron ==> (r matches Err(e) && e@ == non_interval_message(job.id@)),
{
    let every_seconds = match job.schedule {
        ScheduleSpec::Interval { every_seconds } => every_seconds,
        ScheduleSpec::Cron { .. } => {
            let mut e = owned("loop `");
            e.append(job.id.as_str());
            e.append("` has a non-interval schedule");
            return Err(e);
        },
    };
    Ok(
        LoopInfo {
            id: job.id,
            name: job.name,
            prompt: job.prompt,
            every_seconds,
            enabled: job.enabled,
            created_at: job.created_at,
            next_due_at: job.next_due_at,
            last_run_at: job.last_run_at,
        },
    )
}

pub open spec fn is_loop_job(job: AutomationJob) -> bool {
    job.kind == AutomationKind::Loop
}

/// The loop jobs, in order.
pub open spec fn loop_jobs(jobs: Seq<AutomationJob>) -> Seq<AutomationJob>
    decreases jobs.len(),
{
    if jobs.len() == 0 {
        Seq::empty()
    } else {
        loop_jobs(jobs.drop_last()) + if is_loop_job(jobs.last()) {
            seq![jobs.last()]
        } else {
            Seq::empty()
        }
    }
}

/// Each info is the loop view of the job at the same position.
pub open spec fn infos_match(infos: Seq<LoopInfo>, jobs: Seq<AutomationJob>) -> bool {
    &&& infos.len() == jobs.len()
    &&& forall|k: int|
        0 <= k < jobs.len() ==> (#[trigger] jobs[k]).schedule is Interval && is_loop_info(
            infos[k],
            jobs[k],
            jobs[k].schedule->every_seconds,
        )
}

proof fn lemma_infos_match_push(
    infos: Seq<LoopInfo>,
    jobs: Seq<AutomationJob>,
    info: LoopInfo,
    job: AutomationJob,
)
    requires
        infos_match(infos, jobs),
        job.schedule is Interval,
        is_loop_info(info, job, job.schedule->every_seconds),
    ensures
        infos_match(infos.push(info), jobs.push(job)),
{
    let a = infos.push(info);
    let b = jobs.push(job);
    assert forall|k: int| 0 <= k < b.len() implies (#[trigger] b[k]).schedule is Interval
        && is_loop_info(a[k], b[k], b[k].schedule->every_seconds) by {
        if k < jobs.len() {
            assert(b[k] == jobs[k]);
            assert(a[k] == infos[k]);
        }
    }
}

/// The loop view of every loop job, in order; the first loop job with a non-interval schedule
/// makes the whole listing fail.
pub fn list_loops(jobs: &Vec<AutomationJob>) -> (r: Result<Vec<LoopInfo>, String>)
    ensures
        r matches Ok(infos) ==> infos_match(infos@, loop_jobs(jobs@)),
        r is Ok <==> forall|i: int|
            0 <= i < loop_jobs(jobs@).len() ==> (#[trigger] loop_jobs(jobs@)[i]).schedule is Interval,
        r matches Err(e) ==> exists|i: int|
            0 <= i < loop_jobs(jobs@).len() && (#[trigger] loop_jobs(jobs@)[i]).schedule is Cron
                && e@ == non_interval_message(loop_jobs(jobs@)[i].id@),
{
    let mut infos: Vec<LoopInfo> = Vec::new();
    let mut i: usize = 0;
    while i < jobs.len()
        invariant
            i <= jobs.len(),
            infos_match(infos@, loop_jobs(jobs@.take(i as int))),
        decreases jobs.len() - i,
    {
        let ghost lj = loop_jobs(jobs@.take(i as int));
        let ghost lj2 = loop_jobs(jobs@.take(i + 1));
        proof {
            let t = jobs@.take(i + 1);
            assert(t.drop_last() == jobs@.take(i as int));
            assert(t.last() == jobs@[i as int]);
        }
        let is_loop = match jobs[i].kind {
            AutomationKind::Loop => true,
            AutomationKind::Cron => false,
        };
        if is_loop {
            proof {
                assert(lj2 == lj.push(jobs@[i as int]));
            }
            match loop_info(jobs[i].duplicate()) {
                Ok(info) => {
                    proof {
                        lemma_infos_match_push(infos@, lj, info, jobs@[i as int]);
                    }
                    infos.push(info);
                },
                Err(e) => {
                    proof {
                        lemma_loop_jobs_prefix(jobs@, i + 1);
                        let k = lj2.len() - 1;
                        assert(lj2[k] == jobs@[i as int]);
                        assert(loop_jobs(jobs@)[k] == jobs@[i as int]);
                    }
                    return Err(e);
                },
            }
        } else {
            proof {
                assert(lj2 == lj);
            }
        }
        i = i + 1;
    }
    proof {
        assert(jobs@.take(i as int) == jobs@);
    }
    Ok(infos)
}

/// A prefix's loop jobs are a prefix of the loop jobs.
proof fn lemma_loop_jobs_prefix(jobs: Seq<AutomationJob>, n: int)
    requires
        0 <= n <= jobs.len(),
    ensures
        loop_jobs(jobs.take(n)).len() <= loop_jobs(jobs).len(),
        forall|k: int|
            0 <= k < loop_jobs(jobs.take(n)).len() ==> #[trigger] loop_jobs(jobs)[k] == loop_jobs(
                jobs.take(n),
            )[k],
    decreases jobs.len() - n,
{
    if n < jobs.len() {
        assert(jobs.take(n + 1).drop_last() == jobs.take(n));
        lemma_loop_jobs_prefix(jobs, n + 1);
    } else {
        assert(jobs.take(n) == jobs);
    }
}

pub open spec fn kind_word(kind: AutomationKind) -> Seq<char> {
    match kind {
        AutomationKind::Loop => "loop"@,
        AutomationKind::Cron => "cron"@,
    }
}

pub open spec fn wrong_kind_message(id: Seq<char>, kind: AutomationKind) -> Seq<char> {
    "automation `"@ + id + "` is not a "@ + kind_word(kind)
}

/// Deletes the job with id `id` when it is of kind `expected`; a job of the other kind is
/// refused and kept.
pub fn delete_job_kind(
    state: &mut crate::automation::AutomationState,
    id: &str,
    expected: AutomationKind,
) -> (r: Result<AutomationJob, String>)
    ensures
        r matches Err(e) ==> *final(state) == *old(state),
        !crate::automation::has_job(old(state).jobs@, id@) ==> (r matches Err(e) && e@
            == job_not_found(id@)),
        crate::automation::has_job(old(state).jobs@, id@) ==> {
            let i = job_position(old(state).jobs@, id@);
            let job = old(state).jobs@[i];
            &&& job.kind != expected ==> (r matches Err(e) && e@ == wrong_kind_message(
                id@,
                expected,
            ))
            &&& job.kind == expected ==> (r matches Ok(j) && j == job && final(state).jobs@
                == old(state).jobs@.remove(i) && final(state).monitors == old(state).monitors)
        },
        crate::automation::state_valid(*old(state)) ==> crate::automation::state_valid(
            *final(state),
        ),
{
    let job = find_job(state, id)?;
    let same = match (job.kind, expected) {
        (AutomationKind::Loop, AutomationKind::Loop) => true,
        (AutomationKind::Cron, AutomationKind::Cron) => true,
        _ => false,
    };
    if !same {
        let mut e = owned("automation `");
        e.append(id);
        e.append("` is not a ");
        match expected {
            AutomationKind::Loop => e.append("loop"),
            AutomationKind::Cron => e.append("cron"),
        }
        return Err(e);
    }
    crate::automation::delete_job(state, id)
}

// ---------------------------------------------------------------------------
// App-server view
// ---------------------------------------------------------------------------

/// Rust's `i64::div_euclid(x, 1000)`: whole seconds, rounded towards negative infinity.
pub fn millis_to_seconds(x: i64) -> (r: i64)
    ensures
        r as int == (x as int) / 1000,
{
    if x >= 0 {
        ((x as u64) / 1000) as i64
    } else {
        let m: u64 = (-(x + 1)) as u64;
        let q = (m / 1000) as i64;
        proof {
            let xi = x as int;
            let mi = m as int;
            assert(mi == -xi - 1);
            assert(xi / 1000 == -(mi / 1000) - 1) by (nonlinear_arith)
                requires
                    mi == -xi - 1,
                    mi >= 0,
            {
                let qq = mi / 1000;
                let rr = mi % 1000;
                assert(mi == 1000 * qq + rr);
                assert(0 <= rr < 1000);
                assert(xi == 1000 * (-qq - 1) + (999 - rr));
            }
        }
        -q - 1
    }
}

/// The wire form of a loop: timestamps in whole Unix seconds.
pub open spec fn is_api_loop(a: LoopAutomation, info: LoopInfo) -> bool {
    &&& a.id == info.id
    &&& a.name == info.name
    &&& a.prompt == info.prompt
    &&& a.every_seconds == info.every_seconds
    &&& a.enabled == info.enabled
    &&& a.created_at as int == (info.created_at as int) / 1000
    &&& a.next_due_at as int == (info.next_due_at as int) / 1000
    &&& a.last_run_at == (match info.last_run_at {
        Some(t) => Some(((t as int) / 1000) as i64),
        None => None::<i64>,
    })
}

pub fn api_loop(info: LoopInfo) -> (r: LoopAutomation)
    ensures
        is_api_loop(r, info),
{
    LoopAutomation {
        id: info.id,
        name: info.name,
        prompt: info.prompt,
        every_seconds: info.every_seconds,
        enabled: info.enabled,
        created_at: millis_to_seconds(info.created_at),
        next_due_at: millis_to_seconds(info.next_due_at),
        last_run_at: match info.last_run_at {
            Some(t) => Some(millis_to_seconds(t)),
            None => None,
        },
    }
}

/// A field-by-field copy.
pub fn copy_api_loop(a: &LoopAutomation) -> (r: LoopAutomation)
    ensures
        r == *a,
{
    LoopAutomation {
        id: a.id.clone(),
        name: a.name.clone(),
        prompt: a.prompt.clone(),
        every_seconds: a.every_seconds,
        enabled: a.enabled,
        created_at: a.created_at,
        next_due_at: a.next_due_at,
        last_run_at: a.last_run_at,
    }
}

pub const DEFAULT_PAGE_SIZE: usize = 100;

pub const MAX_PAGE_SIZE: usize = 1000;

/// The page size for a requested limit: at least one, at most the maximum, the default when
/// no limit is given.
pub open spec fn page_size(limit: Option<u32>) -> int {
    match limit {
        Some(l) => if l == 0 {
            1
        } else if l > MAX_PAGE_SIZE {
            MAX_PAGE_SIZE as int
        } else {
            l as int
        },
        None => DEFAULT_PAGE_SIZE as int,
    }
}

pub open spec fn page_end(len: int, start: int, size: int) -> int {
    if start + size < len {
        start + size
    } else {
        len
    }
}

pub open spec fn invalid_cursor_message(cursor: Seq<char>) -> Seq<char> {
    "invalid loop cursor: "@ + cursor
}

pub open spec fn cursor_past_end_message(start: nat, len: nat) -> Seq<char> {
    "loop cursor "@ + decimal(start) + " exceeds total loops "@ + decimal(len)
}

/// Where a page starts: the cursor's offset, or zero without a cursor.
pub open spec fn page_start(cursor: Option<String>) -> Option<nat> {
    match cursor {
        Some(c) => spec_parse_unsigned(c@, usize::MAX as nat),
        None => Some(0),
    }
}

/// One page of `loops`. The cursor is an opaque decimal offset; the response carries the cursor
/// of the next page while loops remain.
pub fn paginate_loops(loops: Vec<LoopAutomation>, cursor: Option<String>, limit: Option<u32>) -> (r:
    Result<LoopListResponse, String>)
    ensures
        page_start(cursor) is None ==> (r matches Err(e) && e@ == invalid_cursor_message(
            cursor->0@,
        )),
        page_start(cursor) is Some && page_start(cursor)->0 > loops@.len() ==> (r matches Err(e)
            && e@ == cursor_past_end_message(page_start(cursor)->0, loops@.len())),
        page_start(cursor) is Some && page_start(cursor)->0 <= loops@.len() ==> (r matches Ok(page)
            && {
            let start = page_start(cursor)->0;
            let end = page_end(loops@.len() as int, start as int, page_size(limit));
            &&& page.data@ == loops@.subrange(start as int, end)
            &&& (end < loops@.len() <==> page.next_cursor is Some)
            &&& end < loops@.len() ==> page.next_cursor->0@ == decimal(end as nat)
        }),
{
    let start: usize = match &cursor {
        Some(c) => match parse_usize(c.as_str()) {
            Some(s) => s,
            None => {
                let mut e = owned("invalid loop cursor: ");
                e.append(c.as_str());
                return Err(e);
            },
        },
        None => 0,
    };
    if start > loops.len() {
        let mut e = owned("loop cursor ");
        push_decimal(&mut e, start as u64);
        e.append(" exceeds total loops ");
        push_decimal(&mut e, loops.len() as u64);
        return Err(e);
    }
    let size: usize = match limit {
        Some(l) => if l == 0 {
            1
        } else if l as usize > MAX_PAGE_SIZE {
            MAX_PAGE_SIZE
        } else {
            l as usize
        },
        None => DEFAULT_PAGE_SIZE,
    };
    let end: usize = if size < loops.len() - start {
        start + size
    } else {
        loops.len()
    };
    let mut data: Vec<LoopAutomation> = Vec::new();
    let mut i = start;
    while i < end
        invariant
            start <= i <= end <= loops.len(),
            data@ == loops@.subrange(start as int, i as int),
        decreases end - i,
    {
        data.push(copy_api_loop(&loops[i]));
        proof {
            assert(loops@.subrange(start as int, i + 1) == loops@.subrange(start as int, i as int).push(
                loops@[i as int],
            ));
        }
        i = i + 1;
    }
    let next_cursor = if end < loops.len() {
        Some(decimal_string(end as u64))
    } else {
        None
    };
    Ok(LoopListResponse { data, next_cursor })
}


/// How many loops a page holds: without a limit, the remaining loops up to 100; with a limit,
/// the remaining loops up to the limit, where a zero limit counts as one and limits above 1000
/// count as 1000.
pub proof fn law_page_holds_the_requested_number(len: int, start: int, limit: Option<u32>)
    requires
        0 <= start <= len,
    ensures
        DEFAULT_PAGE_SIZE == 100,
        MAX_PAGE_SIZE == 1000,
        ({
            let held = page_end(len, start, page_size(limit)) - start;
            let remaining = len - start;
            let wanted: int = match limit {
                None => 100,
                Some(l) => if l == 0 {
                    1
                } else if l > 1000 {
                    1000
                } else {
                    l as int
                },
            };
            held == if remaining < wanted {
                remaining
            } else {
                wanted
            }
        }),
{
}

/// The loops a client collects by following next-page cursors from offset `start`.
pub open spec fn pages_from(loops: Seq<LoopAutomation>, start: int, size: int) -> Seq<LoopAutomation>
    decreases loops.len() - start,
{
    if start >= loops.len() || size <= 0 || start < 0 {
        Seq::empty()
    } else {
        loops.subrange(start, page_end(loops.len() as int, start, size)) + pages_from(
            loops,
            page_end(loops.len() as int, start, size),
            size,
        )
    }
}

/// Following the next-page cursors from any offset collects every remaining loop exactly once,
/// in order; the cursor a page hands out parses back to the offset where the next page starts.
pub proof fn law_following_cursors_lists_every_loop(
    loops: Seq<LoopAutomation>,
    start: int,
    limit: Option<u32>,
)
    requires
        0 <= start <= loops.len(),
    ensures
        pages_from(loops, start, page_size(limit)) == loops.skip(start),
        page_end(loops.len() as int, start, page_size(limit)) <= usize::MAX ==> spec_parse_unsigned(
            decimal(page_end(loops.len() as int, start, page_size(limit)) as nat),
            usize::MAX as nat,
        ) == Some(page_end(loops.len() as int, start, page_size(limit)) as nat),
    decreases loops.len() - start,
{
    let size = page_size(limit);
    let end = page_end(loops.len() as int, start, size);
    if start < loops.len() {
        law_following_cursors_lists_every_loop(loops, end, limit);
        assert(loops.subrange(start, end) + loops.skip(end) == loops.skip(start));
    } else {
        assert(loops.skip(start).len() == 0);
    }
    if end <= usize::MAX {
        crate::text::law_decimal_parses_back(end as nat, usize::MAX as nat);
    }
}

/// What a client does after a page: stop, ask for the next page, or give up on a server that
/// repeats a cursor.
#[derive(Clone, Debug, PartialEq, Eq)]
pub enum ListStep {
    Done,
    Next(String),
    RepeatedCursor,
}

/// The paging decision of a client that follows every page: done without a next cursor, refused
/// when the server hands back the cursor it was just given.
pub fn next_list_step(previous: &Option<String>, next: Option<String>) -> (r: ListStep)
    ensures
        next is None ==> r == ListStep::Done,
        next matches Some(n) ==> (previous matches Some(p) && p@ == n@ ==> r
            == ListStep::RepeatedCursor),
        next matches Some(n) ==> (!(previous matches Some(p) && p@ == n@) ==> r == ListStep::Next(
            n,
        )),
{
    match next {
        None => ListStep::Done,
        Some(n) => {
            let repeated = match previous {
                Some(p) => *p == n,
                None => false,
            };
            if repeated {
                ListStep::RepeatedCursor
            } else {
                ListStep::Next(n)
            }
        },
    }
}

/// The error of a client whose server hands back the cursor it was just given.
pub open spec fn repeated_cursor_message() -> Seq<char> {
    "loop/list returned a repeated pagination cursor"@
}

/// What a client that sent `cursor` and has collected `data` ends with after the server answers
/// with `pages` in turn: every page's loops up to the first page without a next cursor, the
/// repeated-cursor error, or `None` while the pages run out before the listing ends.
pub open spec fn follow_pages(
    cursor: Option<Seq<char>>,
    data: Seq<LoopAutomation>,
    pages: Seq<LoopListResponse>,
) -> Option<Result<Seq<LoopAutomation>, Seq<char>>>
    decreases pages.len(),
{
    if pages.len() == 0 {
        None
    } else {
        let collected = data + pages[0].data@;
        match pages[0].next_cursor {
            None => Some(Ok(collected)),
            Some(n) => if cursor == Some(n@) {
                Some(Err(repeated_cursor_message()))
            } else {
                follow_pages(Some(n@), collected, pages.drop_first())
            },
        }
    }
}

/// The loops of all `pages`, in order.
pub open spec fn all_page_data(pages: Seq<LoopListResponse>) -> Seq<LoopAutomation>
    decreases pages.len(),
{
    if pages.len() == 0 {
        Seq::empty()
    } else {
        pages[0].data@ + all_page_data(pages.drop_first())
    }
}

/// A server that answers the requests of a client starting at `cursor` with `pages`: every
/// page but the last hands out a next cursor other than the one just sent, and the last none.
pub open spec fn cursors_advance(cursor: Option<Seq<char>>, pages: Seq<LoopListResponse>) -> bool
    decreases pages.len(),
{
    pages.len() > 0 && match pages[0].next_cursor {
        None => pages.len() == 1,
        Some(n) => cursor != Some(n@) && cursors_advance(Some(n@), pages.drop_first()),
    }
}

/// Following the cursors of a server whose cursors advance collects the loops of every page,
/// in the order of the pages, after what was collected before.
pub proof fn law_following_pages_concatenates_them(
    cursor: Option<Seq<char>>,
    data: Seq<LoopAutomation>,
    pages: Seq<LoopListResponse>,
)
    requires
        cursors_advance(cursor, pages),
    ensures
        follow_pages(cursor, data, pages) == Some(Ok::<Seq<LoopAutomation>, Seq<char>>(data + all_page_data(pages))),
    decreases pages.len(),
{
    let rest = pages.drop_first();
    match pages[0].next_cursor {
        None => {
            assert(rest.len() == 0);
            assert(all_page_data(pages) == pages[0].data@ + all_page_data(rest));
            assert(all_page_data(rest) == Seq::<LoopAutomation>::empty());
            assert(data + pages[0].data@ == data + all_page_data(pages));
        },
        Some(n) => {
            law_following_pages_concatenates_them(Some(n@), data + pages[0].data@, rest);
            assert(data + pages[0].data@ + all_page_data(rest) == data + (pages[0].data@ + all_page_data(rest)));
        },
    }
}

/// An element-by-element copy.
fn copy_api_loops(v: &Vec<LoopAutomation>) -> (r: Vec<LoopAutomation>)
    ensures
        r@ == v@,
{
    let mut r: Vec<LoopAutomation> = Vec::new();
    for i in 0..v.len()
        invariant
            r@ == v@.take(i as int),
    {
        r.push(copy_api_loop(&v[i]));
        proof {
            assert(v@.take(i + 1) == v@.take(i as int).push(v@[i as int]));
        }
    }
    proof {
        assert(v@.take(v@.len() as int) == v@);
    }
    r
}

/// A client's walk through the pages of `loop/list`: the cursor it sends next and the loops
/// collected so far.
pub struct LoopListing {
    pub cursor: Option<String>,
    pub data: Vec<LoopAutomation>,
}

impl LoopListing {
    /// A listing that has not asked for a page yet.
    pub fn new() -> (r: Self)
        ensures
            r.cursor is None,
            r.data@ == Seq::<LoopAutomation>::empty(),
    {
        LoopListing { cursor: None, data: Vec::new() }
    }

    /// The request for the next page of `thread_id`'s loops: the current cursor, and the
    /// server's own page size.
    pub fn request(&self, thread_id: String) -> (r: LoopListParams)
        ensures
            r.thread_id == thread_id,
            r.cursor == self.cursor,
            r.limit is None,
    {
        LoopListParams { thread_id, cursor: self.cursor.clone(), limit: None }
    }

    /// Takes the server's answer to the last request: the listing when it was the last page,
    /// the repeated-cursor error, or `None` when the next page is to be asked for. Each step is
    /// one step of `follow_pages`.
    pub fn take_page(&mut self, page: LoopListResponse) -> (r: Option<Result<LoopListResponse, String>>)
        ensures
            final(self).data@ == old(self).data@ + page.data@,
            page.next_cursor is None ==> (r matches Some(Ok(listing)) && listing.data@ == final(self).data@
                && listing.next_cursor is None),
            page.next_cursor matches Some(n) ==> (crate::extension_api::opt_view(old(self).cursor) == Some(n@)
                ==> (r matches Some(Err(e)) && e@ == repeated_cursor_message())),
            page.next_cursor matches Some(n) ==> (crate::extension_api::opt_view(old(self).cursor) != Some(n@)
                ==> (r is None && crate::extension_api::opt_view(final(self).cursor) == Some(n@))),
            forall|rest: Seq<LoopListResponse>|
                #[trigger] follow_pages(
                    crate::extension_api::opt_view(old(self).cursor),
                    old(self).data@,
                    seq![page] + rest,
                ) == match r {
                    None => follow_pages(crate::extension_api::opt_view(final(self).cursor), final(self).data@, rest),
                    Some(Ok(listing)) => Some(Ok(listing.data@)),
                    Some(Err(e)) => Some(Err(e@)),
                },
    {
        let ghost old_cursor = crate::extension_api::opt_view(self.cursor);
        let ghost old_data = self.data@;
        let ghost the_page = page;
        let LoopListResponse { data, next_cursor } = page;
        let mut data = data;
        self.data.append(&mut data);
        let r = match next_cursor {
            None => Some(Ok(LoopListResponse { data: copy_api_loops(&self.data), next_cursor: None })),
            Some(n) => {
                let repeated = match &self.cursor {
                    Some(c) => *c == n,
                    None => false,
                };
                if repeated {
                    Some(Err(owned("loop/list returned a repeated pagination cursor")))
                } else {
                    self.cursor = Some(n);
                    None
                }
            },
        };
        proof {
            assert forall|rest: Seq<LoopListResponse>|
                #[trigger] follow_pages(old_cursor, old_data, seq![the_page] + rest) == match r {
                    None => follow_pages(crate::extension_api::opt_view(self.cursor), self.data@, rest),
                    Some(Ok(listing)) => Some(Ok(listing.data@)),
                    Some(Err(e)) => Some(Err(e@)),
                } by {
                let pages = seq![the_page] + rest;
                assert(pages[0] == the_page);
                assert(pages.drop_first() =~= rest);
            }
        }
        r
    }
}

// ---------------------------------------------------------------------------
// The `/loop` command
// ---------------------------------------------------------------------------

#[derive(Clone, Debug, PartialEq, Eq)]
pub enum LoopCommandAction {
    List,
    Stop { id: String },
    Create { every_seconds: u64, prompt: String },
}

pub open spec fn usage() -> Seq<char> {
    "Usage: /loop [list | stop <id> | <interval> <prompt>] (interval examples: 30s, 15m, 2h)"@
}

pub open spec fn zero_interval_message() -> Seq<char> {
    "Loop interval must be greater than zero."@
}

pub open spec fn large_interval_message() -> Seq<char> {
    "Loop interval is too large."@
}

/// Seconds per interval unit (`s`, `m`, `h`, `d`, any ASCII case), or zero for anything else.
pub open spec fn unit_seconds(unit: Seq<char>) -> nat {
    let u = ascii_lower_seq(unit);
    if u == "s"@ {
        1
    } else if u == "m"@ {
        60
    } else if u == "h"@ {
        3600
    } else if u == "d"@ {
        86400
    } else {
        0
    }
}

/// An interval such as `15m`: decimal digits, then a unit.
pub open spec fn interval_result(v: Seq<char>) -> Result<u64, Seq<char>> {
    let split = crate::text::first_non_digit(v);
    if split == v.len() {
        Err(usage())
    } else {
        match spec_parse_unsigned(v.take(split), u64::MAX as nat) {
            None => Err(usage()),
            Some(amount) => if amount == 0 {
                Err(zero_interval_message())
            } else if unit_seconds(v.skip(split)) == 0 {
                Err(usage())
            } else if amount * unit_seconds(v.skip(split)) > u64::MAX {
                Err(large_interval_message())
            } else {
                Ok((amount * unit_seconds(v.skip(split))) as u64)
            },
        }
    }
}

proof fn lemma_amount_and_unit(n: nat, u: char)
    requires
        0 < n <= u64::MAX,
        !crate::text::is_digit(u),
    ensures
        crate::text::first_non_digit(decimal(n) + seq![u]) == decimal(n).len(),
        (decimal(n) + seq![u]).take(decimal(n).len() as int) == decimal(n),
        (decimal(n) + seq![u]).skip(decimal(n).len() as int) == seq![u],
        spec_parse_unsigned(decimal(n), u64::MAX as nat) == Some(n),
{
    let d = decimal(n);
    let v = d + seq![u];
    crate::text::lemma_decimal_digits(n);
    assert forall|k: int| 0 <= k < d.len() implies crate::text::is_digit(#[trigger] v[k]) by {
        assert(v[k] == d[k]);
    }
    assert(v[d.len() as int] == u);
    crate::text::lemma_first_non_digit_char(v, d.len() as int);
    assert(v.take(d.len() as int) =~= d);
    assert(v.skip(d.len() as int) =~= seq![u]);
    crate::text::law_decimal_parses_back(n, u64::MAX as nat);
}

/// An interval written as a positive decimal amount and a unit letter, in either ASCII case,
/// is the amount times the unit's seconds: 1 for `s`, 60 for `m`, 3600 for `h` and 86400 for
/// `d`; a product beyond `u64` is refused as too large.
pub proof fn law_interval_units(n: nat, u: char)
    requires
        0 < n <= u64::MAX,
    ensures
        (u == 's' || u == 'S') ==> interval_result(decimal(n) + seq![u]) == Ok::<u64, Seq<char>>(n as u64),
        (u == 'm' || u == 'M') && n * 60 <= u64::MAX ==> interval_result(decimal(n) + seq![u]) == Ok::<
            u64,
            Seq<char>,
        >((n * 60) as u64),
        (u == 'h' || u == 'H') && n * 3600 <= u64::MAX ==> interval_result(decimal(n) + seq![u]) == Ok::<
            u64,
            Seq<char>,
        >((n * 3600) as u64),
        (u == 'd' || u == 'D') && n * 86400 <= u64::MAX ==> interval_result(decimal(n) + seq![u]) == Ok::<
            u64,
            Seq<char>,
        >((n * 86400) as u64),
        (u == 'm' || u == 'M') && n * 60 > u64::MAX ==> interval_result(decimal(n) + seq![u]) == Err::<
            u64,
            Seq<char>,
        >(large_interval_message()),
        (u == 'h' || u == 'H') && n * 3600 > u64::MAX ==> interval_result(decimal(n) + seq![u]) == Err::<
            u64,
            Seq<char>,
        >(large_interval_message()),
        (u == 'd' || u == 'D') && n * 86400 > u64::MAX ==> interval_result(decimal(n) + seq![u]) == Err::<
            u64,
            Seq<char>,
        >(large_interval_message()),
{
    if u == 's' || u == 'S' || u == 'm' || u == 'M' || u == 'h' || u == 'H' || u == 'd' || u == 'D' {
        lemma_amount_and_unit(n, u);
        lemma_unit_letter_seconds(u);
        let d = decimal(n);
        let v = d + seq![u];
        assert(crate::text::first_non_digit(v) == d.len());
        assert(d.len() != v.len());
        assert(v.take(crate::text::first_non_digit(v)) == d);
        assert(v.skip(crate::text::first_non_digit(v)) == seq![u]);
    }
}

proof fn lemma_unit_letter_seconds(u: char)
    ensures
        (u == 's' || u == 'S') ==> unit_seconds(seq![u]) == 1,
        (u == 'm' || u == 'M') ==> unit_seconds(seq![u]) == 60,
        (u == 'h' || u == 'H') ==> unit_seconds(seq![u]) == 3600,
        (u == 'd' || u == 'D') ==> unit_seconds(seq![u]) == 86400,
{
    reveal_strlit("s");
    reveal_strlit("m");
    reveal_strlit("h");
    reveal_strlit("d");
    let lower = ascii_lower_seq(seq![u]);
    assert(lower =~= seq![crate::text::ascii_lower(u)]);
    assert("s"@ =~= seq!['s']);
    assert("m"@ =~= seq!['m']);
    assert("h"@ =~= seq!['h']);
    assert("d"@ =~= seq!['d']);
    if u == 'S' {
        assert(crate::text::ascii_lower(u) == 's');
    }
    if u == 'M' {
        assert(crate::text::ascii_lower(u) == 'm');
    }
    if u == 'H' {
        assert(crate::text::ascii_lower(u) == 'h');
    }
    if u == 'D' {
        assert(crate::text::ascii_lower(u) == 'd');
    }
    if lower[0] != 's' {
        assert(lower != "s"@);
    }
    if lower[0] != 'm' {
        assert(lower != "m"@);
    }
    if lower[0] != 'h' {
        assert(lower != "h"@);
    }
}

fn usage_string() -> (r: String)
    ensures
        r@ == usage(),
{
    owned("Usage: /loop [list | stop <id> | <interval> <prompt>] (interval examples: 30s, 15m, 2h)")
}

fn lit_eq(v: &Vec<char>, lit: &str) -> (r: bool)
    ensures
        r == (v@ == lit@),
{
    let w = chars_of(lit);
    if v.len() != w.len() {
        return false;
    }
    for i in 0..v.len()
        invariant
            v.len() == w.len(),
            w@ == lit@,
            forall|k: int| 0 <= k < i ==> v@[k] == w@[k],
    {
        if v[i] != w[i] {
            return false;
        }
    }
    proof {
        assert(v@ =~= w@);
    }
    true
}

fn unit_multiplier(unit: &Vec<char>) -> (r: u64)
    ensures
        r as nat == unit_seconds(unit@),
{
    let mut lower: Vec<char> = Vec::new();
    for i in 0..unit.len()
        invariant
            lower@ == ascii_lower_seq(unit@.take(i as int)),
    {
        lower.push(crate::text::to_ascii_lower(unit[i]));
        proof {
            assert(ascii_lower_seq(unit@.take(i + 1)) == ascii_lower_seq(unit@.take(i as int)).push(
                crate::text::ascii_lower(unit@[i as int]),
            ));
        }
    }
    proof {
        assert(unit@.take(unit@.len() as int) == unit@);
    }
    if lit_eq(&lower, "s") {
        1
    } else if lit_eq(&lower, "m") {
        60
    } else if lit_eq(&lower, "h") {
        3600
    } else if lit_eq(&lower, "d") {
        86400
    } else {
        0
    }
}

/// Parses an interval such as `30s`, `15m`, `2h` or `1d` into seconds.
pub fn parse_interval_seconds(value: &str) -> (r: Result<u64, String>)
    ensures
        r matches Ok(n) ==> interval_result(value@) == Ok::<u64, Seq<char>>(n),
        r matches Err(e) ==> interval_result(value@) == Err::<u64, Seq<char>>(e@),
{
    let v = chars_of(value);
    let split = find_non_digit_at(&v);
    if split == v.len() {
        return Err(usage_string());
    }
    let mut digits: Vec<char> = Vec::new();
    for i in 0..split
        invariant
            split <= v.len(),
            digits@ == v@.take(i as int),
    {
        digits.push(v[i]);
        proof {
            assert(v@.take(i + 1) == v@.take(i as int).push(v@[i as int]));
        }
    }
    let amount = match parse_unsigned_chars(&digits, u64::MAX) {
        Some(a) => a,
        None => {
            return Err(usage_string());
        },
    };
    if amount == 0 {
        return Err(owned("Loop interval must be greater than zero."));
    }
    let mut unit: Vec<char> = Vec::new();
    let mut j = split;
    while j < v.len()
        invariant
            split <= j <= v.len(),
            unit@ == v@.subrange(split as int, j as int),
        decreases v.len() - j,
    {
        unit.push(v[j]);
        proof {
            assert(v@.subrange(split as int, j + 1) == v@.subrange(split as int, j as int).push(
                v@[j as int],
            ));
        }
        j = j + 1;
    }
    proof {
        assert(v@.subrange(split as int, v@.len() as int) == v@.skip(split as int));
    }
    let multiplier = unit_multiplier(&unit);
    if multiplier == 0 {
        return Err(usage_string());
    }
    match amount.checked_mul(multiplier) {
        Some(n) => Ok(n),
        None => Err(owned("Loop interval is too large.")),
    }
}

fn find_non_digit_at(v: &Vec<char>) -> (r: usize)
    ensures
        r as int == crate::text::first_non_digit(v@),
        r <= v.len(),
{
    crate::text::find_non_digit(v)
}

/// `r` is the outcome of `/loop <args>`: `list` (or nothing), `stop <id>`, or
/// `<interval> <prompt>`.
pub open spec fn is_loop_command_outcome(args: Seq<char>, r: Result<LoopCommandAction, String>) -> bool {
    let t = trim(args);
    if t.len() == 0 || ascii_lower_seq(t) == "list"@ {
        r == Ok::<LoopCommandAction, String>(LoopCommandAction::List)
    } else if has_prefix(t, "stop "@) {
        let id = trim(t.skip(5));
        if id.len() == 0 {
            r matches Err(e) && e@ == usage()
        } else {
            r matches Ok(LoopCommandAction::Stop { id: i }) && i@ == id
        }
    } else {
        let k = crate::text::first_white(t);
        if k == t.len() {
            r matches Err(e) && e@ == usage()
        } else {
            match interval_result(t.take(k)) {
                Err(e) => r matches Err(m) && m@ == e,
                Ok(n) => {
                    let p = trim(t.skip(k + 1));
                    if p.len() == 0 {
                        r matches Err(e) && e@ == usage()
                    } else {
                        r matches Ok(LoopCommandAction::Create { every_seconds, prompt })
                            && every_seconds == n && prompt@ == p
                    }
                },
            }
        }
    }
}

/// Parses the arguments of `/loop`.
pub fn parse_loop_command(args: &str) -> (r: Result<LoopCommandAction, String>)
    ensures
        is_loop_command_outcome(args@, r),
{
    let t = trimmed(args);
    let tv = chars_of(t.as_str());
    proof {
        reveal_strlit("list");
        assert(ascii_lower_seq("list"@) =~= "list"@);
    }
    if tv.len() == 0 || eq_ignore_ascii_case(t.as_str(), "list") {
        return Ok(LoopCommandAction::List);
    }
    if starts_with(t.as_str(), "stop ") {
        proof {
            reveal_strlit("stop ");
        }
        let rest = sub_string_from(&tv, 5);
        let id = trimmed(rest.as_str());
        if is_blank(id.as_str()) {
            proof {
                crate::text::lemma_trim_fixed(rest@);
            }
            return Err(usage_string());
        }
        proof {
            crate::text::lemma_trim_fixed(rest@);
        }
        return Ok(LoopCommandAction::Stop { id });
    }
    let k = crate::text::find_white(&tv);
    if k == tv.len() {
        return Err(usage_string());
    }
    let interval = crate::text::sub_string(&tv, 0, k);
    proof {
        assert(tv@.subrange(0, k as int) == tv@.take(k as int));
    }
    let every_seconds = parse_interval_seconds(interval.as_str())?;
    let rest = sub_string_from(&tv, k + 1);
    let prompt = trimmed(rest.as_str());
    if is_blank(prompt.as_str()) {
        proof {
            crate::text::lemma_trim_fixed(rest@);
        }
        return Err(usage_string());
    }
    proof {
        crate::text::lemma_trim_fixed(rest@);
    }
    Ok(LoopCommandAction::Create { every_seconds, prompt })
}

fn sub_string_from(v: &Vec<char>, a: usize) -> (r: String)
    requires
        a <= v.len(),
    ensures
        r@ == v@.skip(a as int),
{
    let r = crate::text::sub_string(v, a, v.len());
    proof {
        assert(v@.subrange(a as int, v@.len() as int) == v@.skip(a as int));
    }
    r
}

} // verus!
