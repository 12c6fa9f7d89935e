//! The records the store keeps, each identified by a 128-bit id (a UUID), and the
//! text forms of their statuses.

use crate::domain::MessageRole;
use vstd::prelude::*;

verus! {

/// A record with a stable 128-bit id.
pub trait Keyed {
    spec fn key_spec(&self) -> u128;

    fn key(&self) -> (r: u128)
        ensures
            r == self.key_spec(),
    ;
}

/// A record listed in a fixed order: by this rank, ascending.
pub trait Listed {
    spec fn rank_spec(&self) -> u128;

    fn rank(&self) -> (r: u128)
        ensures
            r == self.rank_spec(),
    ;
}

/// The lifecycle of a Run.
#[derive(Debug, Clone, Copy, PartialEq, Eq, Structural)]
pub enum RunStatus {
    Active,
    Completed,
    Failed,
    Cancelled,
    Interrupted,
}

/// An operator session.
#[derive(Debug, Clone)]
pub struct Session {
    pub id: u128,
    pub principal_id: String,
    pub title: Option<String>,
    pub created_at: i64,
    pub updated_at: i64,
}

/// One Run of a session toward a goal.
#[derive(Debug, Clone)]
pub struct Run {
    pub id: u128,
    pub session_id: u128,
    pub principal_id: String,
    pub goal: String,
    pub status: RunStatus,
    pub origin: crate::domain::RunOrigin,
    pub parent_run_id: Option<u128>,
    pub result: Option<String>,
}

impl Run {
    /// Marks the Run interrupted (a restart found it active).
    pub fn interrupt(&mut self)
        ensures
            final(self).status == RunStatus::Interrupted,
            final(self).id == old(self).id,
            final(self).session_id == old(self).session_id,
            final(self).principal_id == old(self).principal_id,
            final(self).goal == old(self).goal,
            final(self).origin == old(self).origin,
            final(self).parent_run_id == old(self).parent_run_id,
            final(self).result == old(self).result,
    {
        self.status = RunStatus::Interrupted;
    }
}

/// A compact record of a tool call in the Transcript.
#[derive(Debug, Clone)]
pub struct ToolCompact {
    pub name: String,
    pub status: String,
    pub summary: String,
    pub artifact_refs: Vec<String>,
}

/// One Transcript message.
#[derive(Debug, Clone)]
pub struct TranscriptMessage {
    pub id: String,
    pub run_id: Option<u128>,
    pub created_at: i64,
    pub role: MessageRole,
    pub content: String,
    pub tool: Option<ToolCompact>,
}

/// The decision state of an approval.
#[derive(Debug, Clone, Copy, PartialEq, Eq, Structural)]
pub enum ApprovalStatus {
    Pending,
    Approved,
    Denied,
}

/// A request for an operator's approval of a high-blast action.
#[derive(Debug, Clone)]
pub struct Approval {
    pub id: u128,
    pub run_id: u128,
    pub action: String,
    pub summary: String,
    pub status: ApprovalStatus,
    pub requested_by: String,
    pub decided_by: Option<String>,
}

/// A durable memory entry.
#[derive(Debug, Clone)]
pub struct MemoryEntry {
    pub id: u128,
    pub content: String,
    pub label: Option<String>,
    pub source_run_id: Option<u128>,
    pub source_principal_id: Option<String>,
}

/// The state of a schedule.
#[derive(Debug, Clone, Copy, PartialEq, Eq, Structural)]
pub enum ScheduleStatus {
    Active,
    Paused,
    Deleted,
}

/// A recurring Run.
#[derive(Debug, Clone)]
pub struct Schedule {
    pub id: u128,
    pub principal_id: String,
    pub session_id: Option<u128>,
    pub goal: String,
    pub interval_secs: u64,
    pub status: ScheduleStatus,
    pub next_fire_at: i64,
    pub policy_tools: Vec<String>,
    pub last_fired_at: Option<i64>,
}

impl Keyed for Session {
    open spec fn key_spec(&self) -> u128 {
        self.id
    }

    fn key(&self) -> (r: u128) {
        self.id
    }
}

impl Listed for Session {
    /// Most recently updated first.
    open spec fn rank_spec(&self) -> u128 {
        (0x7fff_ffff_ffff_ffffi128 - self.updated_at as i128) as u128
    }

    fn rank(&self) -> (r: u128) {
        (0x7fff_ffff_ffff_ffffi128 - self.updated_at as i128) as u128
    }
}

impl Listed for Approval {
    open spec fn rank_spec(&self) -> u128 {
        self.id
    }

    fn rank(&self) -> (r: u128) {
        self.id
    }
}

impl Listed for MemoryEntry {
    open spec fn rank_spec(&self) -> u128 {
        self.id
    }

    fn rank(&self) -> (r: u128) {
        self.id
    }
}

impl Listed for Schedule {
    open spec fn rank_spec(&self) -> u128 {
        self.id
    }

    fn rank(&self) -> (r: u128) {
        self.id
    }
}

impl Keyed for Run {
    open spec fn key_spec(&self) -> u128 {
        self.id
    }

    fn key(&self) -> (r: u128) {
        self.id
    }
}

impl Keyed for Approval {
    open spec fn key_spec(&self) -> u128 {
        self.id
    }

    fn key(&self) -> (r: u128) {
        self.id
    }
}

/// A copy of an optional string.
pub fn copy_opt_string(o: &Option<String>) -> (r: Option<String>)
    ensures
        r == *o,
{
    match o {
        Some(s) => Some(s.clone()),
        None => None,
    }
}

impl MemoryEntry {
    /// A copy of the entry, field for field.
    pub fn copied(&self) -> (r: Self)
        ensures
            r == *self,
    {
        MemoryEntry {
            id: self.id,
            content: self.content.clone(),
            label: copy_opt_string(&self.label),
            source_run_id: self.source_run_id,
            source_principal_id: copy_opt_string(&self.source_principal_id),
        }
    }
}

impl Keyed for MemoryEntry {
    open spec fn key_spec(&self) -> u128 {
        self.id
    }

    fn key(&self) -> (r: u128) {
        self.id
    }
}

impl Keyed for Schedule {
    open spec fn key_spec(&self) -> u128 {
        self.id
    }

    fn key(&self) -> (r: u128) {
        self.id
    }
}

/// The stored text of a Run status.
pub open spec fn run_status_name(s: RunStatus) -> Seq<char> {
    match s {
        RunStatus::Active => "active"@,
        RunStatus::Completed => "completed"@,
        RunStatus::Failed => "failed"@,
        RunStatus::Cancelled => "cancelled"@,
        RunStatus::Interrupted => "interrupted"@,
    }
}

/// The stored text of a Run status.
pub fn status_to_str(s: RunStatus) -> (r: &'static str)
    ensures
        r@ == run_status_name(s),
{
    match s {
        RunStatus::Active => "active",
        RunStatus::Completed => "completed",
        RunStatus::Failed => "failed",
        RunStatus::Cancelled => "cancelled",
        RunStatus::Interrupted => "interrupted",
    }
}

/// Read a stored Run status.
pub fn status_from_str(s: &str) -> (r: Result<RunStatus, String>)
    ensures
        match r {
            Ok(st) => run_status_name(st) == s@,
            Err(e) => (forall|st: RunStatus| run_status_name(st) != s@) && e@
                == "unknown run status: "@ + s@,
        },
{
    proof {
        reveal_strlit("active");
        reveal_strlit("completed");
        reveal_strlit("failed");
        reveal_strlit("cancelled");
        reveal_strlit("interrupted");
    }
    if crate::text::str_eq(s, "active") {
        Ok(RunStatus::Active)
    } else if crate::text::str_eq(s, "completed") {
        Ok(RunStatus::Completed)
    } else if crate::text::str_eq(s, "failed") {
        Ok(RunStatus::Failed)
    } else if crate::text::str_eq(s, "cancelled") {
        Ok(RunStatus::Cancelled)
    } else if crate::text::str_eq(s, "interrupted") {
        Ok(RunStatus::Interrupted)
    } else {
        Err(String::from_str("unknown run status: ").concat(s))
    }
}

/// Reading back the stored text of a Run status gives the status.
pub proof fn lemma_run_status_roundtrip(s: RunStatus)
    ensures
        forall|t: RunStatus| run_status_name(t) == run_status_name(s) ==> t == s,
{
    reveal_strlit("active");
    reveal_strlit("completed");
    reveal_strlit("failed");
    reveal_strlit("cancelled");
    reveal_strlit("interrupted");
    assert forall|t: RunStatus| run_status_name(t) == run_status_name(s) implies t == s by {
        if t != s {
            assert(run_status_name(t).len() != run_status_name(s).len() || run_status_name(t)[0]
                != run_status_name(s)[0] || run_status_name(t)[1] != run_status_name(s)[1]);
        }
    }
}

/// The stored text of a message role.
pub open spec fn role_name(r: MessageRole) -> Seq<char> {
    match r {
        MessageRole::System => "system"@,
        MessageRole::User => "user"@,
        MessageRole::Assistant => "assistant"@,
        MessageRole::Tool => "tool"@,
    }
}

/// The stored text of a message role.
pub fn role_to_str(r: MessageRole) -> (s: &'static str)
    ensures
        s@ == role_name(r),
{
    match r {
        MessageRole::System => "system",
        MessageRole::User => "user",
        MessageRole::Assistant => "assistant",
        MessageRole::Tool => "tool",
    }
}

/// Read a stored message role.
pub fn role_from_str(s: &str) -> (r: Result<MessageRole, String>)
    ensures
        match r {
            Ok(role) => role_name(role) == s@,
            Err(e) => (forall|role: MessageRole| role_name(role) != s@) && e@
                == "unknown message role: "@ + s@,
        },
{
    proof {
        reveal_strlit("system");
        reveal_strlit("user");
        reveal_strlit("assistant");
        reveal_strlit("tool");
    }
    if crate::text::str_eq(s, "system") {
        Ok(MessageRole::System)
    } else if crate::text::str_eq(s, "user") {
        Ok(MessageRole::User)
    } else if crate::text::str_eq(s, "assistant") {
        Ok(MessageRole::Assistant)
    } else if crate::text::str_eq(s, "tool") {
        Ok(MessageRole::Tool)
    } else {
        Err(String::from_str("unknown message role: ").concat(s))
    }
}

/// The stored text of an approval status.
pub open spec fn approval_status_name(s: ApprovalStatus) -> Seq<char> {
    match s {
        ApprovalStatus::Pending => "pending"@,
        ApprovalStatus::Approved => "approved"@,
        ApprovalStatus::Denied => "denied"@,
    }
}

/// The stored text of an approval status.
pub fn approval_status_to_str(s: ApprovalStatus) -> (r: &'static str)
    ensures
        r@ == approval_status_name(s),
{
    match s {
        ApprovalStatus::Pending => "pending",
        ApprovalStatus::Approved => "approved",
        ApprovalStatus::Denied => "denied",
    }
}

/// Read a stored approval status.
pub fn approval_status_from_str(s: &str) -> (r: Result<ApprovalStatus, String>)
    ensures
        match r {
            Ok(st) => approval_status_name(st) == s@,
            Err(e) => (forall|st: ApprovalStatus| approval_status_name(st) != s@) && e@
                == "unknown approval status: "@ + s@,
        },
{
    proof {
        reveal_strlit("pending");
        reveal_strlit("approved");
        reveal_strlit("denied");
    }
    if crate::text::str_eq(s, "pending") {
        Ok(ApprovalStatus::Pending)
    } else if crate::text::str_eq(s, "approved") {
        Ok(ApprovalStatus::Approved)
    } else if crate::text::str_eq(s, "denied") {
        Ok(ApprovalStatus::Denied)
    } else {
        Err(String::from_str("unknown approval status: ").concat(s))
    }
}

/// The stored text of a schedule status.
pub open spec fn schedule_status_name(s: ScheduleStatus) -> Seq<char> {
    match s {
        ScheduleStatus::Active => "active"@,
        ScheduleStatus::Paused => "paused"@,
        ScheduleStatus::Deleted => "deleted"@,
    }
}

/// The stored text of a schedule status.
pub fn schedule_status_to_str(s: ScheduleStatus) -> (r: &'static str)
    ensures
        r@ == schedule_status_name(s),
{
    match s {
        ScheduleStatus::Active => "active",
        ScheduleStatus::Paused => "paused",
        ScheduleStatus::Deleted => "deleted",
    }
}

/// Read a stored schedule status.
pub fn schedule_status_from_str(s: &str) -> (r: Result<ScheduleStatus, String>)
    ensures
        match r {
            Ok(st) => schedule_status_name(st) == s@,
            Err(e) => (forall|st: ScheduleStatus| schedule_status_name(st) != s@) && e@
                == "unknown schedule status: "@ + s@,
        },
{
    proof {
        reveal_strlit("active");
        reveal_strlit("paused");
        reveal_strlit("deleted");
    }
    if crate::text::str_eq(s, "active") {
        Ok(ScheduleStatus::Active)
    } else if crate::text::str_eq(s, "paused") {
        Ok(ScheduleStatus::Paused)
    } else if crate::text::str_eq(s, "deleted") {
        Ok(ScheduleStatus::Deleted)
    } else {
        Err(String::from_str("unknown schedule status: ").concat(s))
    }
}

/// Reading back the stored text of a message role, an Approval status or a Schedule
/// status gives the value that was stored.
pub proof fn lemma_stored_names_roundtrip(
    r: MessageRole,
    a: ApprovalStatus,
    s: ScheduleStatus,
)
    ensures
        forall|t: MessageRole| role_name(t) == role_name(r) ==> t == r,
        forall|t: ApprovalStatus| approval_status_name(t) == approval_status_name(a) ==> t == a,
        forall|t: ScheduleStatus| schedule_status_name(t) == schedule_status_name(s) ==> t == s,
{
    reveal_strlit("system");
    reveal_strlit("user");
    reveal_strlit("assistant");
    reveal_strlit("tool");
    reveal_strlit("pending");
    reveal_strlit("approved");
    reveal_strlit("denied");
    reveal_strlit("active");
    reveal_strlit("paused");
    reveal_strlit("deleted");
    assert forall|t: MessageRole| role_name(t) == role_name(r) implies t == r by {
        if t != r {
            assert(role_name(t).len() != role_name(r).len() || role_name(t)[0] != role_name(r)[0]);
        }
    }
    assert forall|t: ApprovalStatus| approval_status_name(t) == approval_status_name(a) implies t == a by {
        if t != a {
            assert(approval_status_name(t).len() != approval_status_name(a).len());
        }
    }
    assert forall|t: ScheduleStatus| schedule_status_name(t) == schedule_status_name(s) implies t == s by {
        if t != s {
            assert(schedule_status_name(t).len() != schedule_status_name(s).len()
                || schedule_status_name(t)[0] != schedule_status_name(s)[0]);
        }
    }
}

/// The stored text of a Run origin.
pub open spec fn origin_name(o: crate::domain::RunOrigin) -> Seq<char> {
    match o {
        crate::domain::RunOrigin::ControlPlane => "control_plane"@,
        crate::domain::RunOrigin::Gateway => "gateway"@,
        crate::domain::RunOrigin::Schedule => "schedule"@,
        crate::domain::RunOrigin::Subagent => "subagent"@,
    }
}

/// The stored text of a Run origin.
pub fn origin_to_str(o: crate::domain::RunOrigin) -> (r: &'static str)
    ensures
        r@ == origin_name(o),
{
    match o {
        crate::domain::RunOrigin::ControlPlane => "control_plane",
        crate::domain::RunOrigin::Gateway => "gateway",
        crate::domain::RunOrigin::Schedule => "schedule",
        crate::domain::RunOrigin::Subagent => "subagent",
    }
}

/// Read a stored Run origin.
pub fn origin_from_str(s: &str) -> (r: Result<crate::domain::RunOrigin, String>)
    ensures
        match r {
            Ok(o) => origin_name(o) == s@,
            Err(e) => (forall|o: crate::domain::RunOrigin| origin_name(o) != s@) && e@
                == "unknown run origin: "@ + s@,
        },
{
    proof {
        reveal_strlit("control_plane");
        reveal_strlit("gateway");
        reveal_strlit("schedule");
        reveal_strlit("subagent");
    }
    if crate::text::str_eq(s, "control_plane") {
        Ok(crate::domain::RunOrigin::ControlPlane)
    } else if crate::text::str_eq(s, "gateway") {
        Ok(crate::domain::RunOrigin::Gateway)
    } else if crate::text::str_eq(s, "schedule") {
        Ok(crate::domain::RunOrigin::Schedule)
    } else if crate::text::str_eq(s, "subagent") {
        Ok(crate::domain::RunOrigin::Subagent)
    } else {
        Err(String::from_str("unknown run origin: ").concat(s))
    }
}

/// Reading back the stored text of a Run origin gives the origin.
pub proof fn lemma_origin_roundtrip(o: crate::domain::RunOrigin)
    ensures
        forall|t: crate::domain::RunOrigin| origin_name(t) == origin_name(o) ==> t == o,
{
    reveal_strlit("control_plane");
    reveal_strlit("gateway");
    reveal_strlit("schedule");
    reveal_strlit("subagent");
    assert forall|t: crate::domain::RunOrigin| origin_name(t) == origin_name(o) implies t == o by {
        if t != o {
            assert(origin_name(t).len() != origin_name(o).len() || origin_name(t)[1]
                != origin_name(o)[1]);
        }
    }
}

/// The lowercase hexadecimal digit for `d < 16`.
pub open spec fn hex_char(d: nat) -> char {
    if d < 10 {
        ((d + 48) as u32) as char
    } else {
        ((d + 87) as u32) as char
    }
}

/// The last `count` hexadecimal digits of `n`, most significant first.
pub open spec fn hex_digits(n: nat, count: nat) -> Seq<char>
    decreases count,
{
    if count == 0 {
        Seq::empty()
    } else {
        hex_digits(n / 16, (count - 1) as nat).push(hex_char(n % 16))
    }
}

/// The hyphenated text of a UUID (8-4-4-4-12 lowercase hexadecimal digits).
pub open spec fn uuid_text(id: u128) -> Seq<char> {
    let d = hex_digits(id as nat, 32);
    d.subrange(0, 8) + "-"@ + d.subrange(8, 12) + "-"@ + d.subrange(12, 16) + "-"@ + d.subrange(
        16,
        20,
    ) + "-"@ + d.subrange(20, 32)
}

fn push_hex(out: &mut Vec<char>, n: u128, count: u8)
    ensures
        final(out)@ == old(out)@ + hex_digits(n as nat, count as nat),
    decreases count,
{
    if count > 0 {
        push_hex(out, n / 16, count - 1);
        let d = (n % 16) as u8;
        let c = if d < 10 {
            (d + 48) as char
        } else {
            (d + 87) as char
        };
        out.push(c);
        proof {
            assert(old(out)@ + hex_digits(n as nat, count as nat) =~= old(out)@ + hex_digits(
                (n / 16) as nat,
                (count - 1) as nat,
            ) + seq![c]);
        }
    } else {
        assert(old(out)@ + hex_digits(n as nat, 0) =~= old(out)@);
    }
}

fn push_range(out: &mut Vec<char>, d: &Vec<char>, from: usize, to: usize)
    requires
        from <= to <= d@.len(),
    ensures
        final(out)@ == old(out)@ + d@.subrange(from as int, to as int),
{
    let mut i = from;
    while i < to
        invariant
            from <= i <= to <= d@.len(),
            out@ == old(out)@ + d@.subrange(from as int, i as int),
        decreases to - i,
    {
        out.push(d[i]);
        i = i + 1;
        assert(out@ =~= old(out)@ + d@.subrange(from as int, i as int));
    }
}

/// The hyphenated text of a UUID, as `Uuid`'s `Display` writes it.
pub fn uuid_string(id: u128) -> (r: String)
    ensures
        r@ == uuid_text(id),
{
    proof {
        reveal_strlit("-");
    }
    let mut d: Vec<char> = Vec::new();
    push_hex(&mut d, id, 32);
    assert(d@ =~= hex_digits(id as nat, 32));
    proof {
        lemma_hex_len(id as nat, 32);
    }
    let mut out: Vec<char> = Vec::new();
    push_range(&mut out, &d, 0, 8);
    out.push('-');
    push_range(&mut out, &d, 8, 12);
    out.push('-');
    push_range(&mut out, &d, 12, 16);
    out.push('-');
    push_range(&mut out, &d, 16, 20);
    out.push('-');
    push_range(&mut out, &d, 20, 32);
    assert(out@ =~= uuid_text(id));
    crate::text::string_of(out.as_slice())
}

/// A fresh random UUID (version 4) as its 128-bit number, from `uuid::Uuid::new_v4`.
/// Nothing is stated of it: it is random.
#[verifier::external_body]
pub fn random_uuid() -> (r: u128) {
    uuid::Uuid::new_v4().as_u128()
}

/// What `uuid::Uuid::parse_str` gives for a text: the UUID as its number, or the text of
/// the error.
pub uninterp spec fn uuid_parse(s: Seq<char>) -> Result<u128, Seq<char>>;

/// `uuid::Uuid::parse_str`, the UUID taken as its number (`as_u128`) and the error as its
/// text. Its result is named by `uuid_parse`; beyond that the contract claims what the
/// crate documents: the hyphenated lowercase form (which `uuid_string` writes) parses back
/// to the same number.
#[verifier::external_body]
pub fn parse_uuid(s: &str) -> (r: Result<u128, String>)
    ensures
        uuid_parse(s@) == (match r {
            Ok(v) => Ok::<u128, Seq<char>>(v),
            Err(e) => Err::<u128, Seq<char>>(e@),
        }),
        r matches Ok(v) || forall|id: u128| s@ != uuid_text(id),
        r matches Ok(v) ==> forall|id: u128| s@ == uuid_text(id) ==> v == id,
{
    match uuid::Uuid::parse_str(s) {
        Ok(u) => Ok(u.as_u128()),
        Err(e) => Err(e.to_string()),
    }
}

proof fn lemma_hex_len(n: nat, count: nat)
    ensures
        hex_digits(n, count).len() == count,
    decreases count,
{
    if count > 0 {
        lemma_hex_len(n / 16, (count - 1) as nat);
    }
}

} // verus!
