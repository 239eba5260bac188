//! Background job decisions: which node leads, what a job asks for, and how
//! a job's row changes when it is claimed and when it finishes.
//!
//! The runner loop, the database and the mail delivery run outside the
//! library. Times are milliseconds since the Unix epoch.

use vstd::prelude::*;

use crate::text::{all_digits, str_eq};

verus! {

/// Attempts after which a failing job is given up.
pub const MAX_ATTEMPTS: i32 = 5;

/// Delay before a failed job runs again.
pub const RETRY_DELAY_MS: i64 = 60_000;

/// Interval between two heartbeats of a node.
pub const HEARTBEAT_INTERVAL_MS: u64 = 5_000;

/// A node whose last heartbeat is older than this is not a leader candidate.
pub const LEADER_TIMEOUT_MS: i64 = 15_000;

// -- Leadership -----------------------------------------------------------

/// A node's id and the time of its last heartbeat.
pub struct NodeSeen {
    pub id: u128,
    pub last_seen: i64,
}

/// Whether a node that last beat at `last_seen` counts as alive at `now`.
pub open spec fn alive(last_seen: i64, now: i64) -> bool {
    last_seen > now - LEADER_TIMEOUT_MS
}

/// The leader at `now`: the alive node with the smallest id.
pub open spec fn is_leader_among(nodes: Seq<NodeSeen>, now: i64, id: u128) -> bool {
    &&& exists|i: int| 0 <= i < nodes.len() && #[trigger] nodes[i].id == id && alive(nodes[i].last_seen, now)
    &&& forall|i: int| 0 <= i < nodes.len() && alive(#[trigger] nodes[i].last_seen, now) ==> id <= nodes[i].id
}

/// The alive node with the smallest id, if any node is alive.
pub fn elect_leader(nodes: &Vec<NodeSeen>, now: i64) -> (r: Option<u128>)
    ensures
        r matches Some(id) ==> is_leader_among(nodes@, now, id),
        r is None ==> forall|i: int| 0 <= i < nodes@.len() ==> !alive(#[trigger] nodes@[i].last_seen, now),
{
    let mut best: Option<u128> = None;
    let mut i: usize = 0;
    while i < nodes.len()
        invariant
            i <= nodes@.len(),
            best is None ==> forall|j: int| 0 <= j < i ==> !alive(#[trigger] nodes@[j].last_seen, now),
            best matches Some(b) ==> {
                &&& exists|j: int| 0 <= j < i && #[trigger] nodes@[j].id == b && alive(nodes@[j].last_seen, now)
                &&& forall|j: int| 0 <= j < i && alive(#[trigger] nodes@[j].last_seen, now) ==> b <= nodes@[j].id
            },
        decreases nodes@.len() - i,
    {
        let n = &nodes[i];
        if (n.last_seen as i128) > (now as i128) - (LEADER_TIMEOUT_MS as i128) {
            match best {
                Some(b) => {
                    if n.id < b {
                        best = Some(n.id);
                    }
                },
                None => {
                    best = Some(n.id);
                },
            }
        }
        i = i + 1;
    }
    best
}

/// Whether this node leads, given the elected leader.
pub fn is_leader(leader: Option<u128>, me: u128) -> (r: bool)
    ensures
        r == (leader == Some(me)),
{
    match leader {
        Some(id) => id == me,
        None => false,
    }
}

/// At any time at most one node is the leader.
pub proof fn law_single_leader(nodes: Seq<NodeSeen>, now: i64, a: u128, b: u128)
    requires
        is_leader_among(nodes, now, a),
        is_leader_among(nodes, now, b),
    ensures
        a == b,
{
    let i = choose|i: int| 0 <= i < nodes.len() && #[trigger] nodes[i].id == a && alive(nodes[i].last_seen, now);
    let j = choose|j: int| 0 <= j < nodes.len() && #[trigger] nodes[j].id == b && alive(nodes[j].last_seen, now);
    assert(b <= nodes[i].id);
    assert(a <= nodes[j].id);
}

// -- Jobs -----------------------------------------------------------------

/// Life cycle of a job.
#[derive(Debug, PartialEq, Eq, Structural, Clone, Copy)]
pub enum JobStatus {
    Pending,
    Running,
    Done,
    Failed,
}

/// The job row.
pub struct Job {
    pub id: i64,
    pub kind: String,
    pub payload: String,
    pub status: JobStatus,
    pub attempts: i32,
    pub run_at: i64,
    pub created_at: i64,
    pub updated_at: i64,
}

/// The attempt count after a claim: one more than the count that the update
/// carries as a value set in it, where a count that is not set in the update
/// counts as zero.
pub open spec fn attempts_after_claim(set_attempts: Option<i32>) -> int {
    match set_attempts {
        Some(v) => v + 1,
        None => 1,
    }
}

/// Claims a due job: it becomes `Running` with one more attempt, updated at
/// `now`.
pub fn claim_job(job: Job, set_attempts: Option<i32>, now: i64) -> (r: Job)
    requires
        set_attempts matches Some(v) ==> v < i32::MAX,
    ensures
        r.id == job.id,
        r.kind@ == job.kind@,
        r.payload@ == job.payload@,
        r.status == JobStatus::Running,
        r.attempts == attempts_after_claim(set_attempts),
        r.run_at == job.run_at,
        r.created_at == job.created_at,
        r.updated_at == now,
{
    let current = match set_attempts {
        Some(v) => v,
        None => 0,
    };
    Job { status: JobStatus::Running, attempts: current + 1, updated_at: now, ..job }
}

/// The row of a finished job: `Done` on success; on failure `Failed` once the
/// attempt count set in the update reaches `MAX_ATTEMPTS` (a count not set in
/// it counts as zero), else `Pending` again, due `RETRY_DELAY_MS` later.
pub open spec fn finished_status(succeeded: bool, set_attempts: Option<i32>) -> JobStatus {
    if succeeded {
        JobStatus::Done
    } else if (match set_attempts {
        Some(v) => v,
        None => 0,
    }) >= MAX_ATTEMPTS {
        JobStatus::Failed
    } else {
        JobStatus::Pending
    }
}

pub fn finish_job(job: Job, succeeded: bool, set_attempts: Option<i32>, now: i64) -> (r: Job)
    requires
        now <= i64::MAX - RETRY_DELAY_MS,
    ensures
        r.id == job.id,
        r.kind@ == job.kind@,
        r.payload@ == job.payload@,
        r.attempts == job.attempts,
        r.created_at == job.created_at,
        r.updated_at == now,
        r.status == finished_status(succeeded, set_attempts),
        r.run_at == (if r.status == JobStatus::Pending {
            now + RETRY_DELAY_MS
        } else {
            job.run_at as int
        }),
{
    if succeeded {
        return Job { status: JobStatus::Done, updated_at: now, ..job };
    }
    let attempts = match set_attempts {
        Some(v) => v,
        None => 0,
    };
    if attempts >= MAX_ATTEMPTS {
        Job { status: JobStatus::Failed, updated_at: now, ..job }
    } else {
        Job { status: JobStatus::Pending, run_at: now + RETRY_DELAY_MS, updated_at: now, ..job }
    }
}

/// A failing job whose attempt count in the update has reached
/// `MAX_ATTEMPTS` is given up; below it, the job is retried.
pub proof fn law_failure_gives_up_at_max(v: i32)
    ensures
        finished_status(false, Some(v)) == JobStatus::Failed <==> v >= MAX_ATTEMPTS,
        finished_status(false, Some(v)) == JobStatus::Pending <==> v < MAX_ATTEMPTS,
        finished_status(true, Some(v)) == JobStatus::Done,
{
}

/// The value of a text made of decimal digits.
pub open spec fn decimal_value(s: Seq<char>) -> int
    decreases s.len(),
{
    if s.len() == 0 {
        0
    } else {
        decimal_value(s.drop_last()) * 10 + (s.last() as int - '0' as int)
    }
}

/// What `str::parse::<i64>` gives: an optional `+` or `-` sign followed by
/// at least one decimal digit and nothing else, whose value fits in an
/// `i64`.
pub open spec fn i64_parsed(s: Seq<char>) -> Option<i64> {
    let negative = s.len() > 0 && s[0] == '-';
    let signed = s.len() > 0 && (s[0] == '-' || s[0] == '+');
    let body = if signed {
        s.skip(1)
    } else {
        s
    };
    let v = if negative {
        -decimal_value(body)
    } else {
        decimal_value(body)
    };
    if body.len() == 0 || !all_digits(body) || v < i64::MIN || v > i64::MAX {
        None
    } else {
        Some(v as i64)
    }
}

/// `s.parse::<i64>()`.
#[verifier::external_body]
fn parse_i64(s: &str) -> (r: Option<i64>)
    ensures
        r == i64_parsed(s@),
{
    s.parse::<i64>().ok()
}

/// What a job asks the runner to do.
#[derive(Debug, PartialEq, Eq, Structural, Clone, Copy)]
pub enum JobTask {
    /// Deliver the queued mail with this outbox id.
    SendMail(i64),
    /// A mail job whose payload is not an outbox id: the job fails.
    BadPayload,
    /// A job that always fails.
    Fail,
    /// Any other kind: nothing to do, the job succeeds.
    Nothing,
}

pub open spec fn task_of(kind: Seq<char>, payload: Seq<char>) -> JobTask {
    if kind == "send_mail"@ {
        match i64_parsed(payload) {
            Some(id) => JobTask::SendMail(id),
            None => JobTask::BadPayload,
        }
    } else if kind == "fail"@ {
        JobTask::Fail
    } else {
        JobTask::Nothing
    }
}

pub fn classify_job(kind: &str, payload: &str) -> (t: JobTask)
    ensures
        t == task_of(kind@, payload@),
{
    if str_eq(kind, "send_mail") {
        match parse_i64(payload) {
            Some(id) => JobTask::SendMail(id),
            None => JobTask::BadPayload,
        }
    } else if str_eq(kind, "fail") {
        JobTask::Fail
    } else {
        JobTask::Nothing
    }
}

/// A queued mail.
pub struct OutboxMail {
    pub id: i64,
    pub recipient: String,
    pub subject: String,
    pub body: String,
    pub created_at: i64,
    pub sent_at: Option<i64>,
    pub error: Option<String>,
}

/// Records the outcome of a delivery attempt on the outbox row: the sending
/// time on success, the error text on failure.
pub fn record_delivery(mail: OutboxMail, outcome: Result<(), String>, now: i64) -> (r: OutboxMail)
    ensures
        r.id == mail.id,
        r.recipient@ == mail.recipient@,
        r.subject@ == mail.subject@,
        r.body@ == mail.body@,
        r.created_at == mail.created_at,
        match outcome {
            Ok(()) => r.sent_at == Some(now) && r.error is None,
            Err(e) => r.sent_at == mail.sent_at && (r.error matches Some(t) && t@ == e@),
        },
{
    match outcome {
        Ok(()) => OutboxMail { sent_at: Some(now), error: None, ..mail },
        Err(e) => OutboxMail { error: Some(e), ..mail },
    }
}

/// A failed job whose update carries no attempt count is retried, due
/// `RETRY_DELAY_MS` (one minute) later: a missing count reads as zero, for a
/// finished job as for a claimed one.
pub proof fn law_missing_count_reads_as_zero(succeeded: bool)
    ensures
        finished_status(succeeded, None) == finished_status(succeeded, Some(0)),
        finished_status(false, None) == JobStatus::Pending,
        finished_status(true, None) == JobStatus::Done,
        attempts_after_claim(None) == attempts_after_claim(Some(0)),
        attempts_after_claim(None) == 1,
        RETRY_DELAY_MS == 60_000,
{
}

/// A node is alive exactly while its last heartbeat is less than fifteen
/// seconds old, so a node that has missed two heartbeats (sent every five
/// seconds) is still alive, and one silent for fifteen seconds is not.
pub proof fn law_alive_window(last_seen: i64, now: i64)
    ensures
        alive(last_seen, now) <==> now - last_seen < 15_000,
        now - last_seen <= 2 * HEARTBEAT_INTERVAL_MS ==> alive(last_seen, now),
        now - last_seen >= 3 * HEARTBEAT_INTERVAL_MS ==> !alive(last_seen, now),
{
}

/// The alive node with the smallest id leads: whenever node `i` is alive and
/// no alive node has a smaller id, `i` is the leader, and no other node is.
pub proof fn law_smallest_alive_leads(nodes: Seq<NodeSeen>, now: i64, i: int)
    requires
        0 <= i < nodes.len(),
        now - nodes[i].last_seen < 15_000,
        forall|j: int| 0 <= j < nodes.len() && now - #[trigger] nodes[j].last_seen < 15_000 ==> nodes[i].id <= nodes[j].id,
    ensures
        is_leader_among(nodes, now, nodes[i].id),
        forall|id: u128| is_leader_among(nodes, now, id) ==> id == nodes[i].id,
{
    assert(nodes[i].id == nodes[i].id && alive(nodes[i].last_seen, now));
    assert forall|id: u128| is_leader_among(nodes, now, id) implies id == nodes[i].id by {
        law_single_leader(nodes, now, id, nodes[i].id);
    }
}

/// Only `send_mail` jobs send mail, and they read their payload as the id of
/// the outbox row: a payload that is not a decimal `i64` is a bad payload;
/// `fail` jobs fail; every other kind succeeds with nothing to do.
pub proof fn law_job_kinds(kind: Seq<char>, payload: Seq<char>)
    ensures
        (task_of(kind, payload) is SendMail || task_of(kind, payload) is BadPayload) <==> kind == "send_mail"@,
        task_of(kind, payload) is Fail <==> kind == "fail"@,
        task_of(kind, payload) is Nothing <==> (kind != "send_mail"@ && kind != "fail"@),
        task_of(kind, payload) matches JobTask::SendMail(id) ==> i64_parsed(payload) == Some(id),
        kind == "send_mail"@ && i64_parsed(payload) is None ==> task_of(kind, payload) is BadPayload,
{
    reveal_strlit("send_mail");
    reveal_strlit("fail");
    assert("fail"@.len() != "send_mail"@.len());
}

proof fn lemma_decimal_value_nonneg(s: Seq<char>)
    requires
        all_digits(s),
    ensures
        decimal_value(s) >= 0,
    decreases s.len(),
{
    if s.len() > 0 {
        assert(all_digits(s.drop_last())) by {
            assert forall|i: int| 0 <= i < s.drop_last().len() implies '0' <= #[trigger] s.drop_last()[i] <= '9' by {
                assert(s.drop_last()[i] == s[i]);
            }
        }
        lemma_decimal_value_nonneg(s.drop_last());
        assert('0' <= s[s.len() - 1] <= '9');
    }
}

/// A payload of decimal digits (at least one) is read as its decimal value
/// whenever that value fits in an `i64`.
pub proof fn law_digits_parse_as_value(s: Seq<char>)
    requires
        s.len() > 0,
        all_digits(s),
        decimal_value(s) <= i64::MAX,
    ensures
        i64_parsed(s) == Some(decimal_value(s) as i64),
{
    assert('0' <= s[0] <= '9');
    lemma_decimal_value_nonneg(s);
}

} // verus!
