//! The shared task board of an externally managed team: task files under `tasks/<team>/`, numbered
//! ids, revisions that make every update a compare-and-swap, and the task tools' names.
use crate::digest::hex_sha256;
use crate::digest::sha256_hex;
use crate::journal::str_lt;
use crate::journal::string_lt;
use crate::text::concat;
use crate::text::concat3;
use crate::text::concat5;
use crate::text::copy_strings;
use crate::text::decimal;
use crate::text::decimal_string;
use crate::text::is_blank;
use crate::text::parse_u64;
use crate::text::spec_approx_tokens;
use crate::text::spec_parse_unsigned;
use crate::text::str_eq;
use crate::text::trim;
use vstd::prelude::*;

verus! {

/// Largest task file the store reads.
pub const MAX_TASK_BYTES: u64 = 2097152;

/// Largest number of tasks a board may hold.
pub const MAX_TASKS: usize = 10000;

/// Largest approximate token count of a task tool's result.
pub const MAX_TASK_TOOL_OUTPUT_TOKENS: usize = 8000;

/// One task of the board. `extra` holds the fields the board carries that Codex does not
/// interpret, by name and JSON text, so that an update writes them back unchanged.
#[derive(Clone, Debug, PartialEq, Eq)]
pub struct ClaudeTask {
    pub id: String,
    pub subject: String,
    pub description: String,
    pub active_form: String,
    pub status: String,
    pub blocks: Vec<String>,
    pub blocked_by: Vec<String>,
    pub owner: String,
    pub extra: Vec<(String, String)>,
}

/// A task with the revision of the file it was read from or written to.
#[derive(Clone, Debug, PartialEq, Eq)]
pub struct VersionedTask {
    pub task: ClaudeTask,
    pub revision: String,
}

/// The fields an update replaces; the others stay.
#[derive(Clone, Debug)]
pub struct TaskPatch {
    pub subject: Option<String>,
    pub description: Option<String>,
    pub active_form: Option<String>,
    pub status: Option<String>,
    pub owner: Option<String>,
    pub blocks: Option<Vec<String>>,
    pub blocked_by: Option<Vec<String>>,
}

impl Default for TaskPatch {
    fn default() -> (r: Self)
        ensures
            r.subject is None && r.description is None && r.active_form is None && r.status is None
                && r.owner is None && r.blocks is None && r.blocked_by is None,
    {
        TaskPatch {
            subject: None,
            description: None,
            active_form: None,
            status: None,
            owner: None,
            blocks: None,
            blocked_by: None,
        }
    }
}

/// What the current task must satisfy for an update to go ahead.
#[derive(Clone, Debug)]
pub enum TaskMutationPrecondition {
    Any,
    Pending,
    OwnedInProgress { owner: String },
}

/// The task board of one team, as seen by one teammate.
#[derive(Clone, Debug)]
pub struct ClaudeTaskStore {
    root: String,
    agent_name: String,
}

/// The strings of a vector, by their characters.
pub open spec fn strings_view(v: Vec<String>) -> Seq<Seq<char>> {
    v@.map_values(|s: String| s@)
}

/// A task by the values of its fields.
pub open spec fn task_view(t: ClaudeTask) -> (
    Seq<char>,
    Seq<char>,
    Seq<char>,
    Seq<char>,
    Seq<char>,
    Seq<Seq<char>>,
    Seq<Seq<char>>,
    Seq<char>,
    Seq<(String, String)>,
) {
    (
        t.id@,
        t.subject@,
        t.description@,
        t.active_form@,
        t.status@,
        strings_view(t.blocks),
        strings_view(t.blocked_by),
        t.owner@,
        t.extra@,
    )
}

// ---------------------------------------------------------------------------
// Validation
// ---------------------------------------------------------------------------

/// A task id is a non-empty string of ASCII digits.
pub open spec fn valid_task_id(id: Seq<char>) -> bool {
    id.len() > 0 && forall|i: int| 0 <= i < id.len() ==> crate::text::is_digit(#[trigger] id[i])
}

/// Rejects a task id that is not a non-empty string of ASCII digits.
pub fn validate_task_id(id: &str) -> (r: Result<(), String>)
    ensures
        r is Ok <==> valid_task_id(id@),
        r matches Err(e) ==> e@ == "invalid task id `"@ + id@ + "`"@,
{
    let v = crate::text::chars_of(id);
    let mut ok = v.len() > 0;
    let mut i: usize = 0;
    while i < v.len()
        invariant
            i <= v.len(),
            v@ == id@,
            ok <==> (v.len() > 0 && forall|k: int| 0 <= k < i ==> crate::text::is_digit(#[trigger] v@[k])),
        decreases v.len() - i,
    {
        if !('0' <= v[i] && v[i] <= '9') {
            ok = false;
        }
        i = i + 1;
    }
    if ok {
        Ok(())
    } else {
        Err(concat3("invalid task id `", id, "`"))
    }
}

/// Rejects a blank value.
pub fn validate_nonempty(label: &str, value: &str) -> (r: Result<(), String>)
    ensures
        r is Ok <==> trim(value@).len() > 0,
        r matches Err(e) ==> e@ == label@ + " must not be empty"@,
{
    if is_blank(value) {
        Err(concat(label, " must not be empty"))
    } else {
        Ok(())
    }
}

/// The statuses a task may have.
pub open spec fn valid_status(status: Seq<char>) -> bool {
    status == "pending"@ || status == "in_progress"@ || status == "completed"@
}

/// Rejects a status other than `pending`, `in_progress` and `completed`.
pub fn validate_status(status: &str) -> (r: Result<(), String>)
    ensures
        r is Ok <==> valid_status(status@),
        r matches Err(e) ==> e@ == "invalid task status `"@ + status@
            + "`; expected pending, in_progress, or completed"@,
{
    if str_eq(status, "pending") || str_eq(status, "in_progress") || str_eq(status, "completed") {
        Ok(())
    } else {
        Err(concat3("invalid task status `", status, "`; expected pending, in_progress, or completed"))
    }
}

// ---------------------------------------------------------------------------
// Ids and order
// ---------------------------------------------------------------------------

/// The numeric value of a task id, as Rust's `str::parse::<u64>` reads it.
pub open spec fn numeric_id(id: Seq<char>) -> Option<nat> {
    spec_parse_unsigned(id, u64::MAX as nat)
}

/// The order of the board: numerically when both ids are numbers, else by characters.
pub open spec fn task_id_before(left: Seq<char>, right: Seq<char>) -> bool {
    match (numeric_id(left), numeric_id(right)) {
        (Some(a), Some(b)) => a < b,
        _ => str_lt(left, right),
    }
}

/// Whether `left` comes before `right` on the board.
pub fn task_id_less(left: &String, right: &String) -> (r: bool)
    ensures
        r == task_id_before(left@, right@),
{
    match (parse_u64(left.as_str()), parse_u64(right.as_str())) {
        (Some(a), Some(b)) => a < b,
        _ => string_lt(left, right),
    }
}

/// The order of two task ids: numerically when both are numbers, else by characters.
pub fn task_id_order(left: &str, right: &str) -> (r: std::cmp::Ordering)
    ensures
        (r == std::cmp::Ordering::Less) == task_id_before(left@, right@),
        (r == std::cmp::Ordering::Greater) == task_id_before(right@, left@),
{
    let l = left.to_owned();
    let g = right.to_owned();
    proof {
        lemma_task_id_before_asymmetric(left@, right@);
    }
    if task_id_less(&l, &g) {
        std::cmp::Ordering::Less
    } else if task_id_less(&g, &l) {
        std::cmp::Ordering::Greater
    } else {
        std::cmp::Ordering::Equal
    }
}

pub proof fn lemma_task_id_before_asymmetric(a: Seq<char>, b: Seq<char>)
    ensures
        !(task_id_before(a, b) && task_id_before(b, a)),
{
    crate::journal::lemma_str_lt_total(a, b);
}

/// The largest numeric id among `ids`, or zero.
pub open spec fn max_numeric_id(ids: Seq<Seq<char>>) -> nat
    decreases ids.len(),
{
    if ids.len() == 0 {
        0
    } else {
        let rest = max_numeric_id(ids.drop_last());
        match numeric_id(ids.last()) {
            Some(n) => if n > rest {
                n
            } else {
                rest
            },
            None => rest,
        }
    }
}

proof fn lemma_max_numeric_id_bounds(ids: Seq<Seq<char>>)
    ensures
        forall|k: int| 0 <= k < ids.len() ==> (#[trigger] numeric_id(ids[k]) matches Some(n) ==> n <= max_numeric_id(ids)),
        max_numeric_id(ids) <= u64::MAX,
    decreases ids.len(),
{
    if ids.len() > 0 {
        lemma_max_numeric_id_bounds(ids.drop_last());
        assert forall|k: int| 0 <= k < ids.len() implies (#[trigger] numeric_id(ids[k]) matches Some(n) ==> n <= max_numeric_id(ids)) by {
            if k < ids.len() - 1 {
                assert(ids[k] == ids.drop_last()[k]);
            }
        }
    }
}

/// The id of the next task: one more than the largest numeric id on the board.
pub fn next_task_id(ids: &Vec<String>) -> (r: String)
    requires
        max_numeric_id(strings_view(*ids)) < u64::MAX,
    ensures
        r@ == decimal(max_numeric_id(strings_view(*ids)) + 1),
{
    let ghost views = strings_view(*ids);
    let mut highest: u64 = 0;
    for i in 0..ids.len()
        invariant
            views == strings_view(*ids),
            highest == max_numeric_id(views.take(i as int)),
    {
        proof {
            let t = views.take(i + 1);
            assert(t.drop_last() =~= views.take(i as int));
            assert(t.last() == ids@[i as int]@);
        }
        match parse_u64(ids[i].as_str()) {
            Some(n) => {
                if n > highest {
                    highest = n;
                }
            },
            None => {},
        }
    }
    proof {
        assert(views.take(ids.len() as int) =~= views);
    }
    decimal_string(highest + 1)
}

/// A new task's id exceeds every numeric id already on the board.
pub proof fn law_next_task_id_exceeds_every_numeric_id(ids: Seq<Seq<char>>, k: int)
    requires
        0 <= k < ids.len(),
        numeric_id(ids[k]) is Some,
    ensures
        numeric_id(ids[k])->0 < max_numeric_id(ids) + 1,
{
    lemma_max_numeric_id_bounds(ids);
}

// ---------------------------------------------------------------------------
// Listing
// ---------------------------------------------------------------------------

/// Whether neighbours are in board order: no task comes before the one preceding it.
pub open spec fn in_board_order(tasks: Seq<VersionedTask>) -> bool {
    forall|i: int| 0 <= i < tasks.len() - 1 ==> !task_id_before(#[trigger] tasks[i + 1].task.id@, tasks[i].task.id@)
}

/// Whether two ids hold the same place in board order: neither comes before the other.
pub open spec fn same_place(a: Seq<char>, b: Seq<char>) -> bool {
    !task_id_before(a, b) && !task_id_before(b, a)
}

/// `output` is `input` rearranged by `idx` (output position to input position, one to one),
/// with tasks that hold the same place in board order kept in their input order.
pub open spec fn is_stable_arrangement(input: Seq<VersionedTask>, output: Seq<VersionedTask>, idx: Seq<int>) -> bool {
    &&& idx.len() == output.len()
    &&& output.len() == input.len()
    &&& forall|k: int| 0 <= k < idx.len() ==> 0 <= #[trigger] idx[k] < input.len() && output[k] == input[idx[k]]
    &&& forall|a: int, b: int| 0 <= a < b < idx.len() ==> #[trigger] idx[a] != #[trigger] idx[b]
    &&& forall|a: int, b: int|
        0 <= a < b < idx.len() && same_place(#[trigger] output[a].task.id@, #[trigger] output[b].task.id@) ==> idx[a] < idx[b]
}

/// The tasks in board order; tasks that hold the same place keep their order.
pub fn sort_tasks(tasks: Vec<VersionedTask>) -> (r: Vec<VersionedTask>)
    ensures
        r@.to_multiset() == tasks@.to_multiset(),
        in_board_order(r@),
        exists|idx: Seq<int>| is_stable_arrangement(tasks@, r@, idx),
{
    broadcast use vstd::seq_lib::group_to_multiset_ensures;
    let mut rest = tasks;
    let ghost all = rest@;
    let ghost mut idx: Seq<int> = Seq::empty();
    let mut r: Vec<VersionedTask> = Vec::new();
    proof {
        assert(r@.to_multiset().add(rest@.to_multiset()) =~= all.to_multiset());
        assert(all.skip(0) =~= all);
    }
    while rest.len() > 0
        invariant
            r@.to_multiset().add(rest@.to_multiset()) == all.to_multiset(),
            in_board_order(r@),
            rest@ == all.skip(r@.len() as int),
            r@.len() <= all.len(),
            idx.len() == r@.len(),
            forall|k: int| 0 <= k < idx.len() ==> 0 <= #[trigger] idx[k] < r@.len() && r@[k] == all[idx[k]],
            forall|a: int, b: int| 0 <= a < b < idx.len() ==> #[trigger] idx[a] != #[trigger] idx[b],
            forall|a: int, b: int|
                0 <= a < b < idx.len() && same_place(#[trigger] r@[a].task.id@, #[trigger] r@[b].task.id@) ==> idx[a] < idx[b],
        decreases rest.len(),
    {
        let ghost before_rest = rest@;
        let ghost taken = r@.len() as int;
        let t = rest.remove(0);
        proof {
            assert(before_rest.to_multiset() == rest@.to_multiset().insert(t)) by {
                broadcast use vstd::multiset::group_multiset_axioms;
                assert(before_rest.remove(0) =~= rest@);
                vstd::seq_lib::to_multiset_remove(before_rest, 0);
                vstd::seq_lib::to_multiset_contains(before_rest, t);
                assert(before_rest.contains(t)) by {
                    assert(before_rest[0] == t);
                }
                assert(rest@.to_multiset().insert(t) =~= before_rest.to_multiset());
            }
            assert(t == all[taken]);
            assert(rest@ =~= all.skip(taken + 1));
        }
        let mut p: usize = r.len();
        while p > 0 && task_id_less(&t.task.id, &r[p - 1].task.id)
            invariant
                p <= r.len(),
                in_board_order(r@),
                forall|j: int| p <= j < r@.len() ==> task_id_before(t.task.id@, #[trigger] r@[j].task.id@),
            decreases p,
        {
            p = p - 1;
        }
        let ghost before = r@;
        let ghost old_idx = idx;
        proof {
            assert(p == 0 || !task_id_before(t.task.id@, before[p - 1].task.id@));
        }
        r.insert(p, t);
        proof {
            idx = old_idx.insert(p as int, taken);
            assert(r@ == before.insert(p as int, t));
            assert forall|i: int| 0 <= i < r@.len() - 1 implies !task_id_before(#[trigger] r@[i + 1].task.id@, r@[i].task.id@) by {
                if i + 1 < p {
                    assert(r@[i + 1] == before[i + 1] && r@[i] == before[i]);
                    assert(!task_id_before(before[i + 1].task.id@, before[i].task.id@));
                } else if i + 1 == p {
                    assert(r@[i] == before[i]);
                    assert(r@[i + 1] == t);
                } else if i == p {
                    assert(r@[i + 1] == before[p as int]);
                    lemma_task_id_before_asymmetric(t.task.id@, before[p as int].task.id@);
                } else {
                    assert(r@[i + 1] == before[i] && r@[i] == before[i - 1]);
                    let k = i - 1;
                    assert(!task_id_before(before[k + 1].task.id@, before[k].task.id@));
                }
            }
            assert forall|k: int| 0 <= k < idx.len() implies 0 <= #[trigger] idx[k] < r@.len() && r@[k] == all[idx[k]] by {
                if k < p {
                    assert(idx[k] == old_idx[k] && r@[k] == before[k]);
                } else if k > p {
                    assert(idx[k] == old_idx[k - 1] && r@[k] == before[k - 1]);
                }
            }
            assert forall|a: int, b: int| 0 <= a < b < idx.len() implies #[trigger] idx[a] != #[trigger] idx[b] by {
                let oa = if a < p { a } else { a - 1 };
                let ob = if b < p { b } else { b - 1 };
                if a != p && b != p {
                    assert(idx[a] == old_idx[oa] && idx[b] == old_idx[ob]);
                } else if a == p {
                    assert(idx[b] == old_idx[ob]);
                } else {
                    assert(idx[a] == old_idx[oa]);
                }
            }
            assert forall|a: int, b: int|
                0 <= a < b < idx.len() && same_place(#[trigger] r@[a].task.id@, #[trigger] r@[b].task.id@) implies idx[a] < idx[b] by {
                let oa = if a < p { a } else { a - 1 };
                let ob = if b < p { b } else { b - 1 };
                if a != p && b != p {
                    assert(idx[a] == old_idx[oa] && idx[b] == old_idx[ob]);
                    assert(r@[a] == before[oa] && r@[b] == before[ob]);
                } else if b == p {
                    assert(idx[a] == old_idx[oa]);
                } else {
                    assert(r@[b] == before[ob]);
                    assert(task_id_before(t.task.id@, before[ob].task.id@));
                }
            }
            vstd::seq_lib::to_multiset_insert(before, p as int, t);
            assert(r@.to_multiset() == before.to_multiset().insert(t));
            assert(r@.to_multiset().add(rest@.to_multiset()) =~= all.to_multiset());
        }
    }
    proof {
        assert(rest@.to_multiset() =~= vstd::multiset::Multiset::empty());
        assert(r@.to_multiset() =~= all.to_multiset());
        assert(r@.len() == all.len());
        assert(is_stable_arrangement(all, r@, idx));
    }
    r
}

/// The board in order, or an error when it holds more than `MAX_TASKS` tasks. The host reads
/// at most `MAX_TASKS + 1` task files.
pub fn list_tasks(tasks: Vec<VersionedTask>) -> (r: Result<Vec<VersionedTask>, String>)
    ensures
        tasks@.len() > MAX_TASKS ==> (r matches Err(e) && e@ == "task directory exceeds 10000 tasks"@),
        tasks@.len() <= MAX_TASKS ==> (r matches Ok(v) && v@.to_multiset() == tasks@.to_multiset() && in_board_order(v@)
            && exists|idx: Seq<int>| is_stable_arrangement(tasks@, v@, idx)),
{
    if tasks.len() > MAX_TASKS {
        Err("task directory exceeds 10000 tasks".to_owned())
    } else {
        Ok(sort_tasks(tasks))
    }
}

/// A task with the revision of its file's bytes: their hexadecimal SHA-256 digest.
pub fn versioned(task: ClaudeTask, bytes: &Vec<u8>) -> (r: VersionedTask)
    ensures
        r.task == task,
        r.revision@ == hex_sha256(bytes@),
{
    VersionedTask { task, revision: sha256_hex(bytes) }
}

// ---------------------------------------------------------------------------
// Updates
// ---------------------------------------------------------------------------

/// A patch by the values it sets: subject, description, active form, status, owner, blocks,
/// blocked-by.
pub open spec fn patch_view(p: TaskPatch) -> (
    Option<Seq<char>>,
    Option<Seq<char>>,
    Option<Seq<char>>,
    Option<Seq<char>>,
    Option<Seq<char>>,
    Option<Seq<Seq<char>>>,
    Option<Seq<Seq<char>>>,
) {
    (
        crate::extension_api::opt_view(p.subject),
        crate::extension_api::opt_view(p.description),
        crate::extension_api::opt_view(p.active_form),
        crate::extension_api::opt_view(p.status),
        crate::extension_api::opt_view(p.owner),
        match p.blocks {
            Some(v) => Some(strings_view(v)),
            None => None,
        },
        match p.blocked_by {
            Some(v) => Some(strings_view(v)),
            None => None,
        },
    )
}

/// The patch of a claim by `agent`: in progress, owned by `agent`.
pub open spec fn claim_patch_view(agent: Seq<char>) -> (
    Option<Seq<char>>,
    Option<Seq<char>>,
    Option<Seq<char>>,
    Option<Seq<char>>,
    Option<Seq<char>>,
    Option<Seq<Seq<char>>>,
    Option<Seq<Seq<char>>>,
) {
    (None, None, None, Some("in_progress"@), Some(agent), None, None)
}

/// The patch of a completion: completed.
pub open spec fn complete_patch_view() -> (
    Option<Seq<char>>,
    Option<Seq<char>>,
    Option<Seq<char>>,
    Option<Seq<char>>,
    Option<Seq<char>>,
    Option<Seq<Seq<char>>>,
    Option<Seq<Seq<char>>>,
) {
    (None, None, None, Some("completed"@), None, None, None)
}

/// A precondition by its meaning: `None` for any task, `Some(None)` for a pending task,
/// `Some(Some(owner))` for a task in progress and owned by `owner`.
pub open spec fn precondition_view(p: TaskMutationPrecondition) -> Option<Option<Seq<char>>> {
    match p {
        TaskMutationPrecondition::Any => None,
        TaskMutationPrecondition::Pending => Some(None),
        TaskMutationPrecondition::OwnedInProgress { owner } => Some(Some(owner@)),
    }
}

/// An optional replacement applied to `current`.
pub open spec fn replaced<T>(current: T, replacement: Option<T>) -> T {
    match replacement {
        Some(s) => s,
        None => current,
    }
}

/// The task after a patch replaced its fields.
pub open spec fn patched(t: ClaudeTask, patch: (
    Option<Seq<char>>,
    Option<Seq<char>>,
    Option<Seq<char>>,
    Option<Seq<char>>,
    Option<Seq<char>>,
    Option<Seq<Seq<char>>>,
    Option<Seq<Seq<char>>>,
)) -> (
    Seq<char>,
    Seq<char>,
    Seq<char>,
    Seq<char>,
    Seq<char>,
    Seq<Seq<char>>,
    Seq<Seq<char>>,
    Seq<char>,
    Seq<(String, String)>,
) {
    (
        t.id@,
        replaced(t.subject@, patch.0),
        replaced(t.description@, patch.1),
        replaced(t.active_form@, patch.2),
        replaced(t.status@, patch.3),
        replaced(strings_view(t.blocks), patch.5),
        replaced(strings_view(t.blocked_by), patch.6),
        replaced(t.owner@, patch.4),
        t.extra@,
    )
}

/// A patch replaces exactly the fields it sets, each by the value it gives for that field, and
/// leaves the id, the other fields and the extra fields alone: `blocks` comes from the patch's
/// `blocks` and `blocked_by` from its `blocked_by`.
pub proof fn law_patch_sets_the_fields_it_names(t: ClaudeTask, p: TaskPatch)
    ensures
        patched(t, patch_view(p)).0 == t.id@,
        patched(t, patch_view(p)).1 == (match p.subject {
            Some(v) => v@,
            None => t.subject@,
        }),
        patched(t, patch_view(p)).2 == (match p.description {
            Some(v) => v@,
            None => t.description@,
        }),
        patched(t, patch_view(p)).3 == (match p.active_form {
            Some(v) => v@,
            None => t.active_form@,
        }),
        patched(t, patch_view(p)).4 == (match p.status {
            Some(v) => v@,
            None => t.status@,
        }),
        patched(t, patch_view(p)).5 == (match p.blocks {
            Some(v) => v@.map_values(|s: String| s@),
            None => t.blocks@.map_values(|s: String| s@),
        }),
        patched(t, patch_view(p)).6 == (match p.blocked_by {
            Some(v) => v@.map_values(|s: String| s@),
            None => t.blocked_by@.map_values(|s: String| s@),
        }),
        patched(t, patch_view(p)).7 == (match p.owner {
            Some(v) => v@,
            None => t.owner@,
        }),
        patched(t, patch_view(p)).8 == t.extra@,
{
}

/// Replaces the fields of `task` that `patch` sets.
pub fn apply_patch(task: &mut ClaudeTask, patch: TaskPatch)
    ensures
        task_view(*final(task)) == patched(*old(task), patch_view(patch)),
        final(task).blocks@.map_values(|s: String| s@) == (match patch.blocks {
            Some(v) => v@.map_values(|s: String| s@),
            None => old(task).blocks@.map_values(|s: String| s@),
        }),
        final(task).blocked_by@.map_values(|s: String| s@) == (match patch.blocked_by {
            Some(v) => v@.map_values(|s: String| s@),
            None => old(task).blocked_by@.map_values(|s: String| s@),
        }),
{
    let ghost p = patch;
    let TaskPatch { subject, description, active_form, status, owner, blocks, blocked_by } = patch;
    if let Some(subject) = subject {
        task.subject = subject;
    }
    if let Some(description) = description {
        task.description = description;
    }
    if let Some(active_form) = active_form {
        task.active_form = active_form;
    }
    if let Some(status) = status {
        task.status = status;
    }
    if let Some(owner) = owner {
        task.owner = owner;
    }
    if let Some(blocks) = blocks {
        task.blocks = blocks;
    }
    if let Some(blocked_by) = blocked_by {
        task.blocked_by = blocked_by;
    }
}

/// Why an update's precondition fails on the current task, if it does.
pub open spec fn precondition_error(id: Seq<char>, t: ClaudeTask, precondition: Option<Option<Seq<char>>>) -> Option<Seq<char>> {
    match precondition {
        None => None,
        Some(None) => if t.status@ == "pending"@ {
            None
        } else {
            Some("task "@ + id + " cannot be claimed from status `"@ + t.status@ + "`"@)
        },
        Some(Some(owner)) => if t.status@ == "in_progress"@ && t.owner@ == owner {
            None
        } else {
            Some("task "@ + id + " can only be completed while in_progress and owned by `"@ + owner + "`"@)
        },
    }
}

/// Checks an update's precondition on the current task.
pub fn validate_mutation_precondition(
    id: &str,
    task: &ClaudeTask,
    precondition: &TaskMutationPrecondition,
) -> (r: Result<(), String>)
    ensures
        match precondition_error(id@, *task, precondition_view(*precondition)) {
            Some(e) => r matches Err(x) && x@ == e,
            None => r is Ok,
        },
{
    match precondition {
        TaskMutationPrecondition::Any => Ok(()),
        TaskMutationPrecondition::Pending => {
            if str_eq(task.status.as_str(), "pending") {
                Ok(())
            } else {
                let head = concat3("task ", id, " cannot be claimed from status `");
                Err(concat3(head.as_str(), task.status.as_str(), "`"))
            }
        },
        TaskMutationPrecondition::OwnedInProgress { owner } => {
            if str_eq(task.status.as_str(), "in_progress") && str_eq(task.owner.as_str(), owner.as_str()) {
                Ok(())
            } else {
                let head = concat3("task ", id, " can only be completed while in_progress and owned by `");
                Err(concat3(head.as_str(), owner.as_str(), "`"))
            }
        },
    }
}

/// Why an update is refused before the task is read, if it is: an invalid id, then an invalid
/// status, then a blank subject.
pub open spec fn patch_error(id: Seq<char>, patch: (
    Option<Seq<char>>,
    Option<Seq<char>>,
    Option<Seq<char>>,
    Option<Seq<char>>,
    Option<Seq<char>>,
    Option<Seq<Seq<char>>>,
    Option<Seq<Seq<char>>>,
)) -> Option<Seq<char>> {
    if !valid_task_id(id) {
        Some("invalid task id `"@ + id + "`"@)
    } else if patch.3 matches Some(s) && !valid_status(s) {
        Some("invalid task status `"@ + patch.3->0 + "`; expected pending, in_progress, or completed"@)
    } else if patch.0 matches Some(s) && trim(s).len() == 0 {
        Some("task subject"@ + " must not be empty"@)
    } else {
        None
    }
}

/// Checks an update before the task is read.
pub fn check_patch(id: &str, patch: &TaskPatch) -> (r: Result<(), String>)
    ensures
        match patch_error(id@, patch_view(*patch)) {
            Some(e) => r matches Err(x) && x@ == e,
            None => r is Ok,
        },
{
    if let Err(e) = validate_task_id(id) {
        return Err(e);
    }
    if let Some(status) = &patch.status {
        if let Err(e) = validate_status(status.as_str()) {
            return Err(e);
        }
    }
    if let Some(subject) = &patch.subject {
        if let Err(e) = validate_nonempty("task subject", subject.as_str()) {
            return Err(e);
        }
    }
    Ok(())
}

/// The outcome of an update of the task `id`, read as `current`, that expects the revision
/// `expected`: refused before reading, refused because the task changed, refused by the
/// precondition, or the patched task.
pub open spec fn mutation_outcome(
    id: Seq<char>,
    patch: (
        Option<Seq<char>>,
        Option<Seq<char>>,
        Option<Seq<char>>,
        Option<Seq<char>>,
        Option<Seq<char>>,
        Option<Seq<Seq<char>>>,
        Option<Seq<Seq<char>>>,
    ),
    expected: Seq<char>,
    precondition: Option<Option<Seq<char>>>,
    current: VersionedTask,
) -> Result<
    (
        Seq<char>,
        Seq<char>,
        Seq<char>,
        Seq<char>,
        Seq<char>,
        Seq<Seq<char>>,
        Seq<Seq<char>>,
        Seq<char>,
        Seq<(String, String)>,
    ),
    Seq<char>,
> {
    if patch_error(id, patch) is Some {
        Err(patch_error(id, patch)->0)
    } else if current.revision@ != expected {
        Err("task "@ + id + " changed concurrently; expected revision "@ + expected + ", current revision "@
            + current.revision@)
    } else if precondition_error(id, current.task, precondition) is Some {
        Err(precondition_error(id, current.task, precondition)->0)
    } else {
        Ok(patched(current.task, patch))
    }
}

fn copy_task(t: &ClaudeTask) -> (r: ClaudeTask)
    ensures
        task_view(r) == task_view(*t),
{
    let r = ClaudeTask {
        id: t.id.clone(),
        subject: t.subject.clone(),
        description: t.description.clone(),
        active_form: t.active_form.clone(),
        status: t.status.clone(),
        blocks: copy_strings(&t.blocks),
        blocked_by: copy_strings(&t.blocked_by),
        owner: t.owner.clone(),
        extra: copy_extra(&t.extra),
    };
    r
}

fn copy_extra(v: &Vec<(String, String)>) -> (r: Vec<(String, String)>)
    ensures
        r@ == v@,
{
    let mut r: Vec<(String, String)> = Vec::new();
    for i in 0..v.len()
        invariant
            r@ == v@.take(i as int),
    {
        let (a, b) = &v[i];
        r.push((a.clone(), b.clone()));
        proof {
            assert(v@.take(i + 1) =~= v@.take(i as int).push(v@[i as int]));
        }
    }
    proof {
        assert(v@.take(v.len() as int) =~= v@);
    }
    r
}

/// Updates the task `id`, read as `current`, if it still has the revision `expected` and meets
/// `precondition`: a compare-and-swap on the task file.
pub fn patch_with_precondition(
    id: &str,
    patch: TaskPatch,
    expected: &str,
    precondition: &TaskMutationPrecondition,
    current: &VersionedTask,
) -> (r: Result<ClaudeTask, String>)
    ensures
        match mutation_outcome(id@, patch_view(patch), expected@, precondition_view(*precondition), *current) {
            Ok(t) => r matches Ok(x) && task_view(x) == t,
            Err(e) => r matches Err(x) && x@ == e,
        },
{
    if let Err(e) = check_patch(id, &patch) {
        return Err(e);
    }
    if !str_eq(current.revision.as_str(), expected) {
        let head = concat5("task ", id, " changed concurrently; expected revision ", expected, ", current revision ");
        return Err(concat(head.as_str(), current.revision.as_str()));
    }
    if let Err(e) = validate_mutation_precondition(id, &current.task, precondition) {
        return Err(e);
    }
    let mut task = copy_task(&current.task);
    apply_patch(&mut task, patch);
    Ok(task)
}

impl ClaudeTaskStore {
    pub closed spec fn spec_root(&self) -> Seq<char> {
        self.root@
    }

    pub closed spec fn spec_agent_name(&self) -> Seq<char> {
        self.agent_name@
    }

    /// The board of `team_name` under `claude_home`, as seen by `agent_name`.
    pub fn new(claude_home: &str, team_name: &str, agent_name: &str) -> (r: Self)
        ensures
            r.spec_root() == crate::paths::joined(crate::paths::joined(claude_home@, "tasks"@), team_name@),
            r.spec_agent_name() == agent_name@,
    {
        let tasks = crate::paths::join(claude_home, "tasks");
        ClaudeTaskStore {
            root: crate::paths::join(tasks.as_str(), team_name),
            agent_name: agent_name.to_owned(),
        }
    }

    /// The directory holding the board's task files.
    pub fn root(&self) -> (r: &str)
        ensures
            r@ == self.spec_root(),
    {
        self.root.as_str()
    }

    /// The file of the task `id`, once `id` is checked.
    pub fn task_path(&self, id: &str) -> (r: Result<String, String>)
        ensures
            valid_task_id(id@) ==> (r matches Ok(p) && p@ == crate::paths::joined(self.spec_root(), id@ + ".json"@)),
            !valid_task_id(id@) ==> (r matches Err(e) && e@ == "invalid task id `"@ + id@ + "`"@),
    {
        if let Err(e) = validate_task_id(id) {
            return Err(e);
        }
        let file = concat(id, ".json");
        Ok(crate::paths::join(self.root.as_str(), file.as_str()))
    }

    /// The patch that claims a task for this teammate.
    pub fn claim_patch(&self) -> (r: TaskPatch)
        ensures
            r.status matches Some(s) && s@ == "in_progress"@,
            r.owner matches Some(o) && o@ == self.spec_agent_name(),
            r.subject is None && r.description is None && r.active_form is None && r.blocks is None && r.blocked_by is None,
    {
        TaskPatch {
            subject: None,
            description: None,
            active_form: None,
            status: Some("in_progress".to_owned()),
            owner: Some(self.agent_name.clone()),
            blocks: None,
            blocked_by: None,
        }
    }

    /// The patch that completes a task.
    pub fn complete_patch(&self) -> (r: TaskPatch)
        ensures
            r.status matches Some(s) && s@ == "completed"@,
            r.owner is None && r.subject is None && r.description is None && r.active_form is None && r.blocks is None && r.blocked_by is None,
    {
        TaskPatch {
            subject: None,
            description: None,
            active_form: None,
            status: Some("completed".to_owned()),
            owner: None,
            blocks: None,
            blocked_by: None,
        }
    }

    /// Claims the pending task `id`, read as `current`, for this teammate.
    pub fn claim(&self, id: &str, expected_revision: &str, current: &VersionedTask) -> (r: Result<ClaudeTask, String>)
        ensures
            match mutation_outcome(
                id@,
                claim_patch_view(self.spec_agent_name()),
                expected_revision@,
                Some(None),
                *current,
            ) {
                Ok(t) => r matches Ok(x) && task_view(x) == t,
                Err(e) => r matches Err(x) && x@ == e,
            },
    {
        let patch = self.claim_patch();
        proof {
            assert(patch_view(patch) == claim_patch_view(self.spec_agent_name()));
        }
        patch_with_precondition(id, patch, expected_revision, &TaskMutationPrecondition::Pending, current)
    }

    /// Completes the task `id`, read as `current`, which this teammate holds in progress.
    pub fn complete(&self, id: &str, expected_revision: &str, current: &VersionedTask) -> (r: Result<ClaudeTask, String>)
        ensures
            match mutation_outcome(
                id@,
                complete_patch_view(),
                expected_revision@,
                Some(Some(self.spec_agent_name())),
                *current,
            ) {
                Ok(t) => r matches Ok(x) && task_view(x) == t,
                Err(e) => r matches Err(x) && x@ == e,
            },
    {
        let patch = self.complete_patch();
        proof {
            assert(patch_view(patch) == complete_patch_view());
        }
        let precondition = TaskMutationPrecondition::OwnedInProgress { owner: self.agent_name.clone() };
        patch_with_precondition(id, patch, expected_revision, &precondition, current)
    }

    /// Applies `patch` to the task `id`, read as `current`.
    pub fn patch(&self, id: &str, patch: TaskPatch, expected_revision: &str, current: &VersionedTask) -> (r: Result<ClaudeTask, String>)
        ensures
            match mutation_outcome(id@, patch_view(patch), expected_revision@, None, *current) {
                Ok(t) => r matches Ok(x) && task_view(x) == t,
                Err(e) => r matches Err(x) && x@ == e,
            },
    {
        patch_with_precondition(id, patch, expected_revision, &TaskMutationPrecondition::Any, current)
    }
}

/// Checks the subject of a new task.
pub fn check_new_task(subject: &str) -> (r: Result<(), String>)
    ensures
        r is Ok <==> trim(subject@).len() > 0,
        r matches Err(e) ==> e@ == "task subject"@ + " must not be empty"@,
{
    validate_nonempty("task subject", subject)
}

/// A new pending task, unowned and unblocked.
pub fn new_task(id: String, subject: String, description: String, active_form: String) -> (r: ClaudeTask)
    ensures
        task_view(r) == (
            id@,
            subject@,
            description@,
            active_form@,
            "pending"@,
            Seq::<Seq<char>>::empty(),
            Seq::<Seq<char>>::empty(),
            Seq::<char>::empty(),
            Seq::<(String, String)>::empty(),
        ),
{
    let r = ClaudeTask {
        id,
        subject,
        description,
        active_form,
        status: "pending".to_owned(),
        blocks: Vec::new(),
        blocked_by: Vec::new(),
        owner: String::new(),
        extra: Vec::new(),
    };
    proof {
        assert(strings_view(r.blocks) =~= Seq::<Seq<char>>::empty());
        assert(strings_view(r.blocked_by) =~= Seq::<Seq<char>>::empty());
    }
    r
}

/// A task claimed by one teammate cannot be claimed again, whatever revision the second claim
/// names: simultaneous claims have exactly one winner.
pub proof fn law_claimed_task_cannot_be_claimed_again(
    id: Seq<char>,
    agent: Seq<char>,
    expected: Seq<char>,
    current: VersionedTask,
    claimed: VersionedTask,
    other_agent: Seq<char>,
    expected_again: Seq<char>,
)
    requires
        mutation_outcome(id, claim_patch_view(agent), expected, Some(None), current) is Ok,
        task_view(claimed.task) == mutation_outcome(id, claim_patch_view(agent), expected, Some(None), current)->Ok_0,
    ensures
        mutation_outcome(id, claim_patch_view(other_agent), expected_again, Some(None), claimed) is Err,
        patch_error(id, claim_patch_view(other_agent)) is None && claimed.revision@ == expected_again
            ==> mutation_outcome(id, claim_patch_view(other_agent), expected_again, Some(None), claimed)
            == Err::<(Seq<char>, Seq<char>, Seq<char>, Seq<char>, Seq<char>, Seq<Seq<char>>, Seq<Seq<char>>, Seq<char>, Seq<(String, String)>), Seq<char>>(
            "task "@ + id + " cannot be claimed from status `"@ + "in_progress"@ + "`"@),
{
    reveal_strlit("in_progress");
    reveal_strlit("pending");
    assert(claimed.task.status@ == "in_progress"@);
    assert("in_progress"@ != "pending"@) by {
        assert("in_progress"@.len() != "pending"@.len());
    }
}

/// An update that names a stale revision is refused and changes nothing.
pub proof fn law_stale_revision_is_refused(
    id: Seq<char>,
    patch: (
        Option<Seq<char>>,
        Option<Seq<char>>,
        Option<Seq<char>>,
        Option<Seq<char>>,
        Option<Seq<char>>,
        Option<Seq<Seq<char>>>,
        Option<Seq<Seq<char>>>,
    ),
    expected: Seq<char>,
    precondition: Option<Option<Seq<char>>>,
    current: VersionedTask,
)
    requires
        current.revision@ != expected,
    ensures
        mutation_outcome(id, patch, expected, precondition, current) is Err,
{
}

// ---------------------------------------------------------------------------
// Task tools
// ---------------------------------------------------------------------------

/// The task tools a teammate gets.
#[derive(Clone, Copy, Debug, PartialEq, Eq, Structural)]
pub enum TaskToolKind {
    List,
    Get,
    Create,
    Claim,
    Update,
    Complete,
}

impl TaskToolKind {
    /// The tool's name.
    pub open spec fn name_of(self) -> Seq<char> {
        match self {
            TaskToolKind::List => "task_list"@,
            TaskToolKind::Get => "task_get"@,
            TaskToolKind::Create => "task_create"@,
            TaskToolKind::Claim => "task_claim"@,
            TaskToolKind::Update => "task_update"@,
            TaskToolKind::Complete => "task_complete"@,
        }
    }

    /// The tool's name.
    pub fn name(self) -> (r: &'static str)
        ensures
            r@ == self.name_of(),
    {
        match self {
            TaskToolKind::List => "task_list",
            TaskToolKind::Get => "task_get",
            TaskToolKind::Create => "task_create",
            TaskToolKind::Claim => "task_claim",
            TaskToolKind::Update => "task_update",
            TaskToolKind::Complete => "task_complete",
        }
    }

    /// The tool's description for the model.
    pub open spec fn description_of(self) -> Seq<char> {
        match self {
            TaskToolKind::List => "List the current team-owned shared task board. Each task includes a revision for conflict-safe updates."@,
            TaskToolKind::Get => "Read one task from the team-owned shared task board."@,
            TaskToolKind::Create => "Create a pending task on the shared team task board."@,
            TaskToolKind::Claim => "Atomically claim a pending shared task for this Codex teammate and mark it in_progress. expected_revision is required so simultaneous claims have one winner."@,
            TaskToolKind::Update => "Update fields on a shared task. expected_revision is required so concurrent team edits are rejected instead of overwritten."@,
            TaskToolKind::Complete => "Mark an in-progress task owned by this Codex teammate completed. expected_revision is required."@,
        }
    }

    /// The tool's description for the model.
    pub fn description(self) -> (r: &'static str)
        ensures
            r@ == self.description_of(),
    {
        match self {
            TaskToolKind::List => "List the current team-owned shared task board. Each task includes a revision for conflict-safe updates.",
            TaskToolKind::Get => "Read one task from the team-owned shared task board.",
            TaskToolKind::Create => "Create a pending task on the shared team task board.",
            TaskToolKind::Claim => "Atomically claim a pending shared task for this Codex teammate and mark it in_progress. expected_revision is required so simultaneous claims have one winner.",
            TaskToolKind::Update => "Update fields on a shared task. expected_revision is required so concurrent team edits are rejected instead of overwritten.",
            TaskToolKind::Complete => "Mark an in-progress task owned by this Codex teammate completed. expected_revision is required.",
        }
    }

    /// The JSON schema of the tool's arguments, as compact JSON with its keys in order.
    pub open spec fn parameters_of(self) -> Seq<char> {
        match self {
            TaskToolKind::List => "{\"additionalProperties\":false,\"properties\":{},\"type\":\"object\"}"@,
            TaskToolKind::Get => "{\"additionalProperties\":false,\"properties\":{\"id\":{\"type\":\"string\"}},\"required\":[\"id\"],\"type\":\"object\"}"@,
            TaskToolKind::Create => "{\"additionalProperties\":false,\"properties\":{\"active_form\":{\"type\":\"string\"},\"description\":{\"type\":\"string\"},\"subject\":{\"type\":\"string\"}},\"required\":[\"subject\"],\"type\":\"object\"}"@,
            TaskToolKind::Claim => "{\"additionalProperties\":false,\"properties\":{\"expected_revision\":{\"type\":\"string\"},\"id\":{\"type\":\"string\"}},\"required\":[\"id\",\"expected_revision\"],\"type\":\"object\"}"@,
            TaskToolKind::Update => "{\"additionalProperties\":false,\"properties\":{\"active_form\":{\"type\":\"string\"},\"blocked_by\":{\"items\":{\"type\":\"string\"},\"type\":\"array\"},\"blocks\":{\"items\":{\"type\":\"string\"},\"type\":\"array\"},\"description\":{\"type\":\"string\"},\"expected_revision\":{\"type\":\"string\"},\"id\":{\"type\":\"string\"},\"owner\":{\"type\":\"string\"},\"status\":{\"enum\":[\"pending\",\"in_progress\",\"completed\"],\"type\":\"string\"},\"subject\":{\"type\":\"string\"}},\"required\":[\"id\",\"expected_revision\"],\"type\":\"object\"}"@,
            TaskToolKind::Complete => "{\"additionalProperties\":false,\"properties\":{\"expected_revision\":{\"type\":\"string\"},\"id\":{\"type\":\"string\"}},\"required\":[\"id\",\"expected_revision\"],\"type\":\"object\"}"@,
        }
    }

    /// The JSON schema of the tool's arguments, as compact JSON with its keys in order.
    pub fn parameters(self) -> (r: &'static str)
        ensures
            r@ == self.parameters_of(),
    {
        match self {
            TaskToolKind::List => "{\"additionalProperties\":false,\"properties\":{},\"type\":\"object\"}",
            TaskToolKind::Get => "{\"additionalProperties\":false,\"properties\":{\"id\":{\"type\":\"string\"}},\"required\":[\"id\"],\"type\":\"object\"}",
            TaskToolKind::Create => "{\"additionalProperties\":false,\"properties\":{\"active_form\":{\"type\":\"string\"},\"description\":{\"type\":\"string\"},\"subject\":{\"type\":\"string\"}},\"required\":[\"subject\"],\"type\":\"object\"}",
            TaskToolKind::Claim => "{\"additionalProperties\":false,\"properties\":{\"expected_revision\":{\"type\":\"string\"},\"id\":{\"type\":\"string\"}},\"required\":[\"id\",\"expected_revision\"],\"type\":\"object\"}",
            TaskToolKind::Update => "{\"additionalProperties\":false,\"properties\":{\"active_form\":{\"type\":\"string\"},\"blocked_by\":{\"items\":{\"type\":\"string\"},\"type\":\"array\"},\"blocks\":{\"items\":{\"type\":\"string\"},\"type\":\"array\"},\"description\":{\"type\":\"string\"},\"expected_revision\":{\"type\":\"string\"},\"id\":{\"type\":\"string\"},\"owner\":{\"type\":\"string\"},\"status\":{\"enum\":[\"pending\",\"in_progress\",\"completed\"],\"type\":\"string\"},\"subject\":{\"type\":\"string\"}},\"required\":[\"id\",\"expected_revision\"],\"type\":\"object\"}",
            TaskToolKind::Complete => "{\"additionalProperties\":false,\"properties\":{\"expected_revision\":{\"type\":\"string\"},\"id\":{\"type\":\"string\"}},\"required\":[\"id\",\"expected_revision\"],\"type\":\"object\"}",
        }
    }
    /// Every task tool, in the order they are offered.
    pub fn all() -> (r: Vec<TaskToolKind>)
        ensures
            r@ == seq![
                TaskToolKind::List,
                TaskToolKind::Get,
                TaskToolKind::Create,
                TaskToolKind::Claim,
                TaskToolKind::Update,
                TaskToolKind::Complete,
            ],
    {
        vec![
            TaskToolKind::List,
            TaskToolKind::Get,
            TaskToolKind::Create,
            TaskToolKind::Claim,
            TaskToolKind::Update,
            TaskToolKind::Complete,
        ]
    }
}


/// The arguments of a task tool call, as parsed for the tool called.
#[derive(Clone, Debug)]
pub enum TaskArgs {
    Empty,
    Id { id: String },
    Mutation { id: String, expected_revision: String },
    Create { subject: String, description: String, active_form: String },
    Update {
        id: String,
        expected_revision: String,
        subject: Option<String>,
        description: Option<String>,
        active_form: Option<String>,
        status: Option<String>,
        owner: Option<String>,
        blocks: Option<Vec<String>>,
        blocked_by: Option<Vec<String>>,
    },
}

/// The board operation a task tool call performs.
#[derive(Clone, Debug)]
pub enum TaskCall {
    List,
    Get { id: String },
    Create { subject: String, description: String, active_form: String },
    Claim { id: String, expected_revision: String },
    Update { id: String, patch: TaskPatch, expected_revision: String },
    Complete { id: String, expected_revision: String },
}

/// The operation a call of the tool `kind` performs.
pub open spec fn planned_task_call(kind: TaskToolKind, args: TaskArgs) -> Result<TaskCall, Seq<char>> {
    match (kind, args) {
        (TaskToolKind::List, TaskArgs::Empty) => Ok(TaskCall::List),
        (TaskToolKind::Get, TaskArgs::Id { id }) => Ok(TaskCall::Get { id }),
        (TaskToolKind::Create, TaskArgs::Create { subject, description, active_form }) => Ok(TaskCall::Create { subject, description, active_form }),
        (TaskToolKind::Claim, TaskArgs::Mutation { id, expected_revision }) => Ok(TaskCall::Claim { id, expected_revision }),
        (TaskToolKind::Update, TaskArgs::Update { id, expected_revision, subject, description, active_form, status, owner, blocks, blocked_by }) => Ok(TaskCall::Update {
            id,
            patch: TaskPatch { subject, description, active_form, status, owner, blocks, blocked_by },
            expected_revision,
        }),
        (TaskToolKind::Complete, TaskArgs::Mutation { id, expected_revision }) => Ok(TaskCall::Complete { id, expected_revision }),
        _ => Err("invalid "@ + kind.name_of() + " arguments"@),
    }
}

/// The operation a call of the tool `kind` with `args` performs.
pub fn plan_task_call(kind: TaskToolKind, args: TaskArgs) -> (r: Result<TaskCall, String>)
    ensures
        match planned_task_call(kind, args) {
            Ok(c) => r == Ok::<TaskCall, String>(c),
            Err(e) => r matches Err(x) && x@ == e,
        },
{
    match (kind, args) {
        (TaskToolKind::List, TaskArgs::Empty) => Ok(TaskCall::List),
        (TaskToolKind::Get, TaskArgs::Id { id }) => Ok(TaskCall::Get { id }),
        (TaskToolKind::Create, TaskArgs::Create { subject, description, active_form }) => Ok(TaskCall::Create { subject, description, active_form }),
        (TaskToolKind::Claim, TaskArgs::Mutation { id, expected_revision }) => Ok(TaskCall::Claim { id, expected_revision }),
        (TaskToolKind::Update, TaskArgs::Update { id, expected_revision, subject, description, active_form, status, owner, blocks, blocked_by }) => Ok(TaskCall::Update {
            id,
            patch: TaskPatch { subject, description, active_form, status, owner, blocks, blocked_by },
            expected_revision,
        }),
        (TaskToolKind::Complete, TaskArgs::Mutation { id, expected_revision }) => Ok(TaskCall::Complete { id, expected_revision }),
        (kind, _) => Err(concat3("invalid ", kind.name(), " arguments")),
    }
}

/// The token limit of one tool call: the call's budget, capped at `cap`.
pub open spec fn output_limit(budget: nat, cap: nat) -> nat {
    if budget < cap {
        budget
    } else {
        cap
    }
}

/// The refusal of a task tool result `output` too large for a call whose token budget is
/// `token_budget`, if it is.
pub fn task_output_error(output: &str, token_budget: usize) -> (r: Option<String>)
    ensures
        ({
            let tokens = spec_approx_tokens(output.len() as nat);
            let limit = output_limit(token_budget as nat, MAX_TASK_TOOL_OUTPUT_TOKENS as nat);
            if tokens > limit {
                r matches Some(e) && e@ == "task result is approximately "@ + decimal(tokens)
                    + " tokens, exceeding this call's "@ + decimal(limit)
                    + "-token limit; use task_get for individual task IDs"@
            } else {
                r is None
            }
        }),
{
    let tokens = crate::text::approx_token_count(output);
    let limit = if token_budget < MAX_TASK_TOOL_OUTPUT_TOKENS { token_budget } else { MAX_TASK_TOOL_OUTPUT_TOKENS };
    if tokens > limit {
        let mut e = "task result is approximately ".to_owned();
        crate::text::push_decimal(&mut e, tokens as u64);
        e.append(" tokens, exceeding this call's ");
        crate::text::push_decimal(&mut e, limit as u64);
        e.append("-token limit; use task_get for individual task IDs");
        Some(e)
    } else {
        None
    }
}

} // verus!
