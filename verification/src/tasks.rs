//! Task records and the values written for them: a new task's fields, the
//! fields a state change rewrites, and the sort positions of a reordering.
//! Reading and writing the store itself is left to the caller.

use vstd::prelude::*;
use crate::text::same_text;
use std::time::{Duration, SystemTime, SystemTimeError};

verus! {

#[verifier::external_type_specification]
#[verifier::external_body]
pub struct ExSystemTime(SystemTime);

#[verifier::external_type_specification]
#[verifier::external_body]
pub struct ExSystemTimeError(SystemTimeError);

/// A task as the store keeps it.
#[derive(Debug, Clone, PartialEq, Eq)]
pub struct Task {
    pub id: String,
    pub title: String,
    /// active | waiting | done
    pub state: String,
    /// me | machine | null  (only meaningful when state == "waiting")
    pub waiting_kind: Option<String>,
    pub project: Option<String>,
    /// workspace | window | url | command | null
    pub jump_type: Option<String>,
    pub jump_value: Option<String>,
    pub notes: Option<String>,
    pub sort: i64,
    pub created_at: i64,
    pub updated_at: i64,
    pub completed_at: Option<i64>,
}

/// Calls `SystemTime::now`. Nothing is promised of the reading.
#[verifier::external_body]
fn system_now() -> SystemTime {
    SystemTime::now()
}

/// Calls `SystemTime::duration_since` with `UNIX_EPOCH`; it fails for a
/// reading before the epoch. Nothing more is promised.
#[verifier::external_body]
fn since_unix_epoch(t: &SystemTime) -> Result<Duration, SystemTimeError> {
    t.duration_since(std::time::UNIX_EPOCH)
}

/// Calls `Duration::as_millis`. Nothing is promised of the count.
#[verifier::external_body]
fn whole_millis(d: &Duration) -> u128 {
    d.as_millis()
}

/// The timestamp stored for a clock reading: whole milliseconds since the
/// Unix epoch taken as an `i64` (wrapping, as `as` does), or 0 for a reading
/// before the epoch.
pub open spec fn timestamp_spec(millis: Option<u128>) -> i64 {
    match millis {
        Some(m) => m as i64,
        None => 0,
    }
}

/// The timestamp stored for a clock reading (see [`timestamp_spec`]).
pub fn timestamp_from_millis(millis: Option<u128>) -> (t: i64)
    ensures
        t == timestamp_spec(millis),
{
    match millis {
        Some(m) => m as i64,
        None => 0,
    }
}

/// Milliseconds since the Unix epoch by the system clock, or 0 if the clock
/// reads before the epoch. What the clock reads is not known here.
pub fn now_millis() -> (t: i64)
    ensures
        exists|m: Option<u128>| t == timestamp_spec(m),
{
    let now = system_now();
    let millis = match since_unix_epoch(&now) {
        Ok(d) => Some(whole_millis(&d)),
        Err(_) => None,
    };
    timestamp_from_millis(millis)
}


/// A lower-case hexadecimal digit.
pub open spec fn is_lower_hex(c: char) -> bool {
    let u = c as u32;
    (0x30 <= u <= 0x39) || (0x61 <= u <= 0x66)
}

/// The hyphenated, lower-case text of a random (version 4, RFC 4122
/// variant) UUID: 8-4-4-4-12 hex digits, version digit `4`, variant digit
/// one of `8`, `9`, `a`, `b`.
pub open spec fn is_v4_uuid_text(s: Seq<char>) -> bool {
    &&& s.len() == 36
    &&& forall|i: int|
        0 <= i < 36 ==> if i == 8 || i == 13 || i == 18 || i == 23 {
            #[trigger] s[i] == '-'
        } else {
            is_lower_hex(s[i])
        }
    &&& s[14] == '4'
    &&& (s[19] == '8' || s[19] == '9' || s[19] == 'a' || s[19] == 'b')
}

/// Calls `uuid::Uuid::new_v4` and formats the id with its `Display` impl,
/// which writes the hyphenated lower-case form. The contract states that
/// form, with the version and variant digits that `new_v4` fixes; the
/// random digits are not known.
#[verifier::external_body]
fn new_v4_text() -> (s: String)
    ensures
        is_v4_uuid_text(s@),
{
    uuid::Uuid::new_v4().to_string()
}

/// The sort key of a task created at `now`: `-now`, so that newer tasks sort
/// to the top of their group (most-negative sort first). The one value whose
/// negation does not fit wraps to itself.
pub open spec fn sort_for(now: i64) -> i64 {
    if now == i64::MIN {
        i64::MIN
    } else {
        (-now) as i64
    }
}

/// The record of a new task with the given id, created at `now`: active,
/// not waiting, no notes, not completed, sorted by [`sort_for`].
pub fn new_task(
    id: String,
    title: &str,
    project: Option<String>,
    jump_type: Option<String>,
    jump_value: Option<String>,
    now: i64,
) -> (t: Task)
    ensures
        t.id == id,
        t.title@ == title@,
        t.state@ == "active"@,
        t.waiting_kind is None,
        t.project == project,
        t.jump_type == jump_type,
        t.jump_value == jump_value,
        t.notes is None,
        t.sort == sort_for(now),
        t.created_at == now,
        t.updated_at == now,
        t.completed_at is None,
{
    let sort = if now == i64::MIN {
        i64::MIN
    } else {
        -now
    };
    Task {
        id,
        title: title.to_owned(),
        state: String::from_str("active"),
        waiting_kind: None,
        project,
        jump_type,
        jump_value,
        notes: None,
        sort,
        created_at: now,
        updated_at: now,
        completed_at: None,
    }
}

/// A new task with a fresh random id, created now (see [`new_task`]).
pub fn create_task(
    title: &str,
    project: Option<String>,
    jump_type: Option<String>,
    jump_value: Option<String>,
) -> (t: Task)
    ensures
        is_v4_uuid_text(t.id@),
        t.title@ == title@,
        t.state@ == "active"@,
        t.waiting_kind is None,
        t.project == project,
        t.jump_type == jump_type,
        t.jump_value == jump_value,
        t.notes is None,
        t.sort == sort_for(t.created_at),
        t.updated_at == t.created_at,
        t.completed_at is None,
{
    let id = new_v4_text();
    let now = now_millis();
    new_task(id, title, project, jump_type, jump_value, now)
}

/// The fields that a change of state rewrites.
#[derive(Debug, Clone, PartialEq, Eq)]
pub struct StateChange {
    pub state: String,
    pub waiting_kind: Option<String>,
    pub completed_at: Option<i64>,
    pub updated_at: i64,
}

/// The fields written when a task enters `state` at `now`: the completion
/// time is set exactly when the task is done, and the waiting kind is kept
/// only while the task is waiting.
pub fn state_change(state: &str, waiting_kind: Option<String>, now: i64) -> (c: StateChange)
    ensures
        c.state@ == state@,
        c.completed_at == (if state@ == "done"@ {
            Some(now)
        } else {
            None
        }),
        c.waiting_kind == (if state@ == "waiting"@ {
            waiting_kind
        } else {
            None
        }),
        c.updated_at == now,
{
    let completed_at = if same_text(state, "done") {
        Some(now)
    } else {
        None
    };
    let kind = if same_text(state, "waiting") {
        waiting_kind
    } else {
        None
    };
    StateChange { state: state.to_owned(), waiting_kind: kind, completed_at, updated_at: now }
}

/// The sort value written for each id of an ordered list: its position.
pub fn sort_positions(ids: &Vec<String>) -> (r: Vec<(String, i64)>)
    requires
        ids.len() <= i64::MAX,
    ensures
        r.len() == ids.len(),
        forall|i: int| 0 <= i < ids.len() ==> (#[trigger] r[i]).0@ == ids[i]@ && r[i].1 == i,
{
    let mut r: Vec<(String, i64)> = Vec::new();
    let mut i: usize = 0;
    while i < ids.len()
        invariant
            ids.len() <= i64::MAX,
            0 <= i <= ids.len(),
            r.len() == i,
            forall|j: int| 0 <= j < i ==> (#[trigger] r[j]).0@ == ids[j]@ && r[j].1 == j,
        decreases ids.len() - i,
    {
        r.push((ids[i].clone(), i as i64));
        i = i + 1;
    }
    r
}


/// Newer tasks sort above older ones: a task created later gets a smaller
/// sort key. (At the clock reading `i64::MIN`, whose negation wraps, this
/// does not hold, so that reading is left out.)
pub proof fn newer_task_sorts_first(earlier: i64, later: i64)
    requires
        i64::MIN < earlier < later,
    ensures
        sort_for(later) < sort_for(earlier),
{
}

} // verus!
