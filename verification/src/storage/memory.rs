//! The process-local store: one table per record kind, each keyed by id, and the
//! Transcript of each session in order.

use crate::storage::records::{
    Approval, ApprovalStatus, Keyed, Listed, MemoryEntry, Run, RunStatus, Schedule, ScheduleStatus, Session,
    TranscriptMessage,
};
use vstd::prelude::*;

verus! {

/// The row at `i` has the key `k`.
pub open spec fn key_at<T: Keyed>(rows: Seq<T>, k: u128, i: int) -> bool {
    0 <= i < rows.len() && rows[i].key_spec() == k
}

/// No two rows share a key.
pub open spec fn distinct_keys<T: Keyed>(rows: Seq<T>) -> bool {
    forall|i: int, j: int|
        0 <= i < rows.len() && 0 <= j < rows.len() && i != j ==> #[trigger] rows[i].key_spec()
            != #[trigger] rows[j].key_spec()
}

/// The row with key `k`, if there is one.
pub open spec fn lookup_key<T: Keyed>(rows: Seq<T>, k: u128) -> Option<T> {
    if exists|i: int| key_at(rows, k, i) {
        Some(rows[choose|i: int| key_at(rows, k, i)])
    } else {
        None
    }
}

/// With distinct keys, the row found for `k` is the one at any index holding `k`.
pub proof fn lemma_lookup_at<T: Keyed>(rows: Seq<T>, k: u128, i: int)
    requires
        distinct_keys(rows),
        key_at(rows, k, i),
    ensures
        lookup_key(rows, k) == Some(rows[i]),
{
    let j = choose|j: int| key_at(rows, k, j);
    assert(key_at(rows, k, j));
    if j != i {
        assert(rows[i].key_spec() != rows[j].key_spec());
    }
}

/// A table of records with distinct keys, in insertion order.
pub struct Table<T> {
    pub rows: Vec<T>,
}

impl<T: Keyed> Table<T> {
    /// Keys are distinct.
    pub open spec fn wf(&self) -> bool {
        distinct_keys(self.rows@)
    }

    /// The record with key `k`, if stored.
    pub open spec fn entry(&self, k: u128) -> Option<T> {
        lookup_key(self.rows@, k)
    }

    /// An empty table.
    pub fn new() -> (r: Self)
        ensures
            r.wf(),
            forall|k: u128| r.entry(k) is None,
            r.rows@.len() == 0,
    {
        Table { rows: Vec::new() }
    }

    /// The position of the record with key `k`.
    fn position(&self, k: u128) -> (r: Option<usize>)
        requires
            self.wf(),
        ensures
            match r {
                Some(i) => key_at(self.rows@, k, i as int) && self.entry(k) == Some(
                    self.rows@[i as int],
                ),
                None => self.entry(k) is None && forall|i: int| !key_at(self.rows@, k, i),
            },
    {
        let mut i: usize = 0;
        while i < self.rows.len()
            invariant
                self.wf(),
                i <= self.rows@.len(),
                forall|j: int| 0 <= j < i ==> !key_at(self.rows@, k, j),
            decreases self.rows@.len() - i,
        {
            if self.rows[i].key() == k {
                proof {
                    lemma_lookup_at(self.rows@, k, i as int);
                }
                return Some(i);
            }
            i = i + 1;
        }
        None
    }

    /// The record with key `k`, if stored.
    pub fn get(&self, k: u128) -> (r: Option<&T>)
        requires
            self.wf(),
        ensures
            match r {
                Some(v) => self.entry(k) == Some(*v),
                None => self.entry(k) is None,
            },
    {
        match self.position(k) {
            Some(i) => Some(&self.rows[i]),
            None => None,
        }
    }

    /// Whether a record with key `k` is stored.
    pub fn contains(&self, k: u128) -> (r: bool)
        requires
            self.wf(),
        ensures
            r == self.entry(k) is Some,
    {
        self.position(k).is_some()
    }

    /// Store `v` under its key, replacing any record with that key.
    pub fn upsert(&mut self, v: T)
        requires
            old(self).wf(),
        ensures
            final(self).wf(),
            final(self).entry(v.key_spec()) == Some(v),
            forall|k: u128| k != v.key_spec() ==> final(self).entry(k) == old(self).entry(k),
            old(self).entry(v.key_spec()) is Some ==> final(self).rows@.len() == old(
                self,
            ).rows@.len(),
            old(self).entry(v.key_spec()) is None ==> final(self).rows@.len() == old(
                self,
            ).rows@.len() + 1,
    {
        let k = v.key();
        let ghost before = self.rows@;
        match self.position(k) {
            Some(i) => {
                self.rows.set(i, v);
                proof {
                    let after = self.rows@;
                    assert(after == before.update(i as int, v));
                    assert forall|a: int, b: int|
                        0 <= a < after.len() && 0 <= b < after.len() && a != b implies #[trigger] after[a].key_spec()
                        != #[trigger] after[b].key_spec() by {
                        assert(before[a].key_spec() == after[a].key_spec());
                        assert(before[b].key_spec() == after[b].key_spec());
                    }
                    lemma_lookup_at(after, k, i as int);
                    assert forall|k2: u128| k2 != k implies lookup_key(after, k2) == lookup_key(
                        before,
                        k2,
                    ) by {
                        if exists|j: int| key_at(before, k2, j) {
                            let j = choose|j: int| key_at(before, k2, j);
                            lemma_lookup_at(before, k2, j);
                            assert(j != i);
                            lemma_lookup_at(after, k2, j);
                        } else {
                            assert forall|j: int| !key_at(after, k2, j) by {
                                if key_at(after, k2, j) {
                                    assert(key_at(before, k2, j));
                                }
                            }
                        }
                    }
                }
            },
            None => {
                self.rows.push(v);
                proof {
                    let after = self.rows@;
                    assert(after == before.push(v));
                    assert forall|a: int, b: int|
                        0 <= a < after.len() && 0 <= b < after.len() && a != b implies #[trigger] after[a].key_spec()
                        != #[trigger] after[b].key_spec() by {
                        if a < before.len() && b < before.len() {
                            assert(before[a].key_spec() != before[b].key_spec());
                        } else if a < before.len() {
                            assert(!key_at(before, k, a));
                        } else {
                            assert(!key_at(before, k, b));
                        }
                    }
                    lemma_lookup_at(after, k, before.len() as int);
                    assert forall|k2: u128| k2 != k implies lookup_key(after, k2) == lookup_key(
                        before,
                        k2,
                    ) by {
                        if exists|j: int| key_at(before, k2, j) {
                            let j = choose|j: int| key_at(before, k2, j);
                            lemma_lookup_at(before, k2, j);
                            lemma_lookup_at(after, k2, j);
                        } else {
                            assert forall|j: int| !key_at(after, k2, j) by {
                                if key_at(after, k2, j) && j < before.len() {
                                    assert(key_at(before, k2, j));
                                }
                            }
                        }
                    }
                }
            },
        }
    }

    /// Replace the stored record with `v`'s key; without one nothing changes and the
    /// result is `false`.
    pub fn update(&mut self, v: T) -> (r: bool)
        requires
            old(self).wf(),
        ensures
            final(self).wf(),
            r == old(self).entry(v.key_spec()) is Some,
            r ==> final(self).entry(v.key_spec()) == Some(v),
            r ==> forall|k: u128| k != v.key_spec() ==> final(self).entry(k) == old(self).entry(k),
            !r ==> final(self).rows@ == old(self).rows@,
    {
        if !self.contains(v.key()) {
            return false;
        }
        self.upsert(v);
        true
    }

    /// Remove the record with key `k`; `false` when there was none.
    pub fn remove(&mut self, k: u128) -> (r: bool)
        requires
            old(self).wf(),
        ensures
            final(self).wf(),
            r == old(self).entry(k) is Some,
            final(self).entry(k) is None,
            forall|k2: u128| k2 != k ==> final(self).entry(k2) == old(self).entry(k2),
    {
        self.take(k).is_some()
    }

    /// Remove and return the record with key `k`, if there is one.
    pub fn take(&mut self, k: u128) -> (r: Option<T>)
        requires
            old(self).wf(),
        ensures
            final(self).wf(),
            r == old(self).entry(k),
            final(self).entry(k) is None,
            forall|k2: u128| k2 != k ==> final(self).entry(k2) == old(self).entry(k2),
            r is Some ==> final(self).rows@.len() + 1 == old(self).rows@.len(),
    {
        let ghost before = self.rows@;
        match self.position(k) {
            None => None,
            Some(i) => {
                let row = self.rows.remove(i);
                proof {
                    let after = self.rows@;
                    assert(after == before.remove(i as int));
                    assert forall|a: int, b: int|
                        0 <= a < after.len() && 0 <= b < after.len() && a != b implies #[trigger] after[a].key_spec()
                        != #[trigger] after[b].key_spec() by {
                        let a2 = if a < i { a } else { a + 1 };
                        let b2 = if b < i { b } else { b + 1 };
                        assert(after[a] == before[a2]);
                        assert(after[b] == before[b2]);
                        assert(before[a2].key_spec() != before[b2].key_spec());
                    }
                    assert forall|j: int| !key_at(after, k, j) by {
                        if key_at(after, k, j) {
                            let j2 = if j < i { j } else { j + 1 };
                            assert(after[j] == before[j2]);
                            assert(before[j2].key_spec() != before[i as int].key_spec());
                        }
                    }
                    assert forall|k2: u128| k2 != k implies lookup_key(after, k2) == lookup_key(
                        before,
                        k2,
                    ) by {
                        if exists|j: int| key_at(before, k2, j) {
                            let j = choose|j: int| key_at(before, k2, j);
                            lemma_lookup_at(before, k2, j);
                            assert(j != i);
                            let j3 = if j < i { j } else { j - 1 };
                            assert(after[j3] == before[j]);
                            lemma_lookup_at(after, k2, j3);
                        } else {
                            assert forall|j: int| !key_at(after, k2, j) by {
                                if key_at(after, k2, j) {
                                    let j2 = if j < i { j } else { j + 1 };
                                    assert(after[j] == before[j2]);
                                    assert(key_at(before, k2, j2));
                                }
                            }
                        }
                    }
                }
                Some(row)
            },
        }
    }
}

/// The Transcript of one session, in order.
#[derive(Debug)]
pub struct SessionTranscript {
    pub session_id: u128,
    pub messages: Vec<TranscriptMessage>,
}

impl Keyed for SessionTranscript {
    open spec fn key_spec(&self) -> u128 {
        self.session_id
    }

    fn key(&self) -> (r: u128) {
        self.session_id
    }
}

/// The records behind some references, in order.
pub open spec fn derefs<T>(v: Seq<&T>) -> Seq<T> {
    v.map_values(|x: &T| *x)
}

/// The process-local Session/Run store.
pub struct InMemorySessionStore {
    pub sessions: Table<Session>,
    pub runs: Table<Run>,
    pub transcripts: Table<SessionTranscript>,
    pub approvals: Table<Approval>,
    pub memory: Table<MemoryEntry>,
    pub schedules: Table<Schedule>,
}

/// The error for a record that is not stored.
pub open spec fn not_found(kind: Seq<char>, id: u128) -> Seq<char> {
    kind + " "@ + crate::storage::records::uuid_text(id) + " not found"@
}

pub(crate) fn not_found_error(kind: &str, id: u128) -> (r: String)
    ensures
        r@ == not_found(kind@, id),
{
    String::from_str(kind).concat(" ").concat(crate::storage::records::uuid_string(id).as_str()).concat(
        " not found",
    )
}

impl InMemorySessionStore {
    /// Every table keeps its keys distinct.
    pub open spec fn wf(&self) -> bool {
        &&& self.sessions.wf()
        &&& self.runs.wf()
        &&& self.transcripts.wf()
        &&& self.approvals.wf()
        &&& self.memory.wf()
        &&& self.schedules.wf()
    }

    /// The Transcript of a session (empty when nothing was appended).
    pub open spec fn messages_of(&self, session_id: u128) -> Seq<TranscriptMessage> {
        match self.transcripts.entry(session_id) {
            Some(t) => t.messages@,
            None => Seq::empty(),
        }
    }

    /// An empty store.
    pub fn new() -> (r: Self)
        ensures
            r.wf(),
            forall|k: u128| r.sessions.entry(k) is None,
            forall|k: u128| r.runs.entry(k) is None,
            forall|k: u128| r.messages_of(k).len() == 0,
            forall|k: u128| r.approvals.entry(k) is None,
            forall|k: u128| r.memory.entry(k) is None,
            forall|k: u128| r.schedules.entry(k) is None,
    {
        InMemorySessionStore {
            sessions: Table::new(),
            runs: Table::new(),
            transcripts: Table::new(),
            approvals: Table::new(),
            memory: Table::new(),
            schedules: Table::new(),
        }
    }

    /// Store a session (replacing one with the same id).
    pub fn create_session(&mut self, session: Session)
        requires
            old(self).wf(),
        ensures
            final(self).wf(),
            final(self).sessions.entry(session.id) == Some(session),
            forall|k: u128| k != session.id ==> final(self).sessions.entry(k) == old(self).sessions.entry(k),
            final(self).runs == old(self).runs,
            final(self).transcripts == old(self).transcripts,
            final(self).approvals == old(self).approvals,
            final(self).memory == old(self).memory,
            final(self).schedules == old(self).schedules,
    {
        self.sessions.upsert(session);
    }

    /// The session with this id, if stored.
    pub fn get_session(&self, id: u128) -> (r: Option<&Session>)
        requires
            self.wf(),
        ensures
            match r {
                Some(s) => self.sessions.entry(id) == Some(*s),
                None => self.sessions.entry(id) is None,
            },
    {
        self.sessions.get(id)
    }

    /// Replace a stored session; an unknown id is an error and changes nothing.
    pub fn update_session(&mut self, session: Session) -> (r: Result<(), String>)
        requires
            old(self).wf(),
        ensures
            final(self).wf(),
            match r {
                Ok(()) => old(self).sessions.entry(session.id) is Some && final(self).sessions.entry(
                    session.id,
                ) == Some(session) && forall|k: u128|
                    k != session.id ==> final(self).sessions.entry(k) == old(self).sessions.entry(k),
                Err(e) => old(self).sessions.entry(session.id) is None && e@ == not_found(
                    "session"@,
                    session.id,
                ) && final(self).sessions.rows@ == old(self).sessions.rows@,
            },
            final(self).runs == old(self).runs,
            final(self).transcripts == old(self).transcripts,
            final(self).approvals == old(self).approvals,
            final(self).memory == old(self).memory,
            final(self).schedules == old(self).schedules,
    {
        let id = session.id;
        if !self.sessions.update(session) {
            return Err(not_found_error("session", id));
        }
        Ok(())
    }

    /// The number of stored sessions.
    pub fn count_sessions(&self) -> (r: usize)
        ensures
            r == self.sessions.rows@.len(),
    {
        self.sessions.rows.len()
    }

    /// Store a Run (replacing one with the same id).
    pub fn create_run(&mut self, run: Run)
        requires
            old(self).wf(),
        ensures
            final(self).wf(),
            final(self).runs.entry(run.id) == Some(run),
            forall|k: u128| k != run.id ==> final(self).runs.entry(k) == old(self).runs.entry(k),
            final(self).sessions == old(self).sessions,
            final(self).transcripts == old(self).transcripts,
            final(self).approvals == old(self).approvals,
            final(self).memory == old(self).memory,
            final(self).schedules == old(self).schedules,
    {
        self.runs.upsert(run);
    }

    /// Replace a stored Run; an unknown id is an error and changes nothing.
    pub fn update_run(&mut self, run: Run) -> (r: Result<(), String>)
        requires
            old(self).wf(),
        ensures
            final(self).wf(),
            match r {
                Ok(()) => old(self).runs.entry(run.id) is Some && final(self).runs.entry(run.id)
                    == Some(run) && forall|k: u128|
                    k != run.id ==> final(self).runs.entry(k) == old(self).runs.entry(k),
                Err(e) => old(self).runs.entry(run.id) is None && e@ == not_found("run"@, run.id)
                    && final(self).runs.rows@ == old(self).runs.rows@,
            },
            final(self).sessions == old(self).sessions,
            final(self).transcripts == old(self).transcripts,
            final(self).approvals == old(self).approvals,
            final(self).memory == old(self).memory,
            final(self).schedules == old(self).schedules,
    {
        let id = run.id;
        if !self.runs.update(run) {
            return Err(not_found_error("run", id));
        }
        Ok(())
    }

    /// The Run with this id, if stored.
    pub fn get_run(&self, id: u128) -> (r: Option<&Run>)
        requires
            self.wf(),
        ensures
            match r {
                Some(x) => self.runs.entry(id) == Some(*x),
                None => self.runs.entry(id) is None,
            },
    {
        self.runs.get(id)
    }

    /// The number of stored Runs.
    pub fn count_runs(&self) -> (r: usize)
        ensures
            r == self.runs.rows@.len(),
    {
        self.runs.rows.len()
    }

    /// The Runs of a session, in the order they were first stored.
    pub fn list_runs_for_session(&self, session_id: u128) -> (r: Vec<&Run>)
        ensures
            derefs(r@) == self.runs.rows@.filter(|x: Run| x.session_id == session_id),
    {
        let mut out: Vec<&Run> = Vec::new();
        let mut i: usize = 0;
        let ghost rows = self.runs.rows@;
        assert(rows.take(0) =~= Seq::<Run>::empty());
        while i < self.runs.rows.len()
            invariant
                i <= rows.len(),
                rows == self.runs.rows@,
                derefs(out@) == rows.take(i as int).filter(|x: Run| x.session_id == session_id),
            decreases rows.len() - i,
        {
            let ghost before = out@;
            assert(rows.take(i + 1).drop_last() =~= rows.take(i as int));
            reveal(Seq::filter);
            let r = &self.runs.rows[i];
            if r.session_id == session_id {
                out.push(r);
                assert(derefs(out@) =~= derefs(before).push(*r));
            }
            i = i + 1;
        }
        assert(rows.take(i as int) =~= rows);
        out
    }

    /// Mark every active Run interrupted (after a restart); the number marked.
    pub fn interrupt_active_runs(&mut self) -> (r: usize)
        requires
            old(self).wf(),
        ensures
            final(self).wf(),
            r == old(self).runs.rows@.filter(|x: Run| x.status == RunStatus::Active).len(),
            final(self).runs.rows@.len() == old(self).runs.rows@.len(),
            forall|i: int|
                0 <= i < old(self).runs.rows@.len() ==> {
                    let a = #[trigger] old(self).runs.rows@[i];
                    let b = final(self).runs.rows@[i];
                    &&& b.id == a.id
                    &&& b.session_id == a.session_id
                    &&& b.goal == a.goal
                    &&& b.result == a.result
                    &&& b.status == if a.status == RunStatus::Active {
                        RunStatus::Interrupted
                    } else {
                        a.status
                    }
                },
            final(self).sessions == old(self).sessions,
            final(self).transcripts == old(self).transcripts,
            final(self).approvals == old(self).approvals,
            final(self).memory == old(self).memory,
            final(self).schedules == old(self).schedules,
    {
        let ghost before = self.runs.rows@;
        let ghost s0 = *self;
        let mut count: usize = 0;
        let mut i: usize = 0;
        assert(before.take(0) =~= Seq::<Run>::empty());
        while i < self.runs.rows.len()
            invariant
                self.sessions == s0.sessions,
                self.transcripts == s0.transcripts,
                self.approvals == s0.approvals,
                self.memory == s0.memory,
                self.schedules == s0.schedules,
                s0.wf(),
                before == s0.runs.rows@,
                i <= before.len(),
                self.runs.rows@.len() == before.len(),
                count == before.take(i as int).filter(|x: Run| x.status == RunStatus::Active).len(),
                count <= i,
                forall|j: int| i <= j < before.len() ==> self.runs.rows@[j] == before[j],
                forall|j: int|
                    0 <= j < i ==> {
                        let a = #[trigger] before[j];
                        let b = self.runs.rows@[j];
                        &&& b.id == a.id
                        &&& b.session_id == a.session_id
                        &&& b.goal == a.goal
                        &&& b.result == a.result
                        &&& b.principal_id == a.principal_id
                        &&& b.origin == a.origin
                        &&& b.parent_run_id == a.parent_run_id
                        &&& b.status == if a.status == RunStatus::Active {
                            RunStatus::Interrupted
                        } else {
                            a.status
                        }
                    },
            decreases before.len() - i,
        {
            assert(before.take(i + 1).drop_last() =~= before.take(i as int));
            reveal(Seq::filter);
            if self.runs.rows[i].status == RunStatus::Active {
                let mut run = self.runs.rows.remove(i);
                run.interrupt();
                self.runs.rows.insert(i, run);
                count = count + 1;
            }
            i = i + 1;
        }
        assert(before.take(i as int) =~= before);
        proof {
            let after = self.runs.rows@;
            assert forall|a: int, b: int|
                0 <= a < after.len() && 0 <= b < after.len() && a != b implies #[trigger] after[a].key_spec()
                != #[trigger] after[b].key_spec() by {
                assert(before[a].key_spec() != before[b].key_spec());
            }
        }
        count
    }

    /// The messages of a session's Transcript, in order.
    pub fn get_transcript(&self, session_id: u128) -> (r: Vec<&TranscriptMessage>)
        requires
            self.wf(),
        ensures
            derefs(r@) == self.messages_of(session_id),
    {
        let mut out: Vec<&TranscriptMessage> = Vec::new();
        match self.transcripts.get(session_id) {
            None => {
                assert(derefs(out@) =~= Seq::<TranscriptMessage>::empty());
            },
            Some(t) => {
                let mut i: usize = 0;
                while i < t.messages.len()
                    invariant
                        i <= t.messages@.len(),
                        derefs(out@) == t.messages@.take(i as int),
                    decreases t.messages@.len() - i,
                {
                    let ghost before = out@;
                    out.push(&t.messages[i]);
                    assert(derefs(out@) =~= derefs(before).push(t.messages@[i as int]));
                    assert(t.messages@.take(i + 1) =~= t.messages@.take(i as int).push(
                        t.messages@[i as int],
                    ));
                    i = i + 1;
                }
                assert(t.messages@.take(i as int) =~= t.messages@);
            },
        }
        out
    }

    /// Append a message to a session's Transcript.
    pub fn append_transcript(&mut self, session_id: u128, message: TranscriptMessage)
        requires
            old(self).wf(),
        ensures
            final(self).wf(),
            final(self).messages_of(session_id) == old(self).messages_of(session_id).push(message),
            forall|k: u128| k != session_id ==> final(self).messages_of(k) == old(self).messages_of(k),
            final(self).sessions == old(self).sessions,
            final(self).runs == old(self).runs,
            final(self).approvals == old(self).approvals,
            final(self).memory == old(self).memory,
            final(self).schedules == old(self).schedules,
    {
        let mut row = match self.transcripts.take(session_id) {
            Some(t) => t,
            None => SessionTranscript { session_id, messages: Vec::new() },
        };
        row.messages.push(message);
        self.transcripts.upsert(row);
    }
}

/// `v` is in ascending rank order.
pub open spec fn ranked<T: Listed>(v: Seq<T>) -> bool {
    forall|i: int, j: int| 0 <= i < j < v.len() ==> #[trigger] v[i].rank_spec() <= #[trigger] v[j].rank_spec()
}

/// `a` and `b` hold the same records, the same number of them.
pub open spec fn same_records<T>(a: Seq<T>, b: Seq<T>) -> bool {
    &&& a.len() == b.len()
    &&& forall|i: int| 0 <= i < a.len() ==> b.contains(#[trigger] a[i])
    &&& forall|i: int| 0 <= i < b.len() ==> a.contains(#[trigger] b[i])
}

/// The records in rank order (records of equal rank in their given order).
pub fn rank_sorted<T: Listed>(items: Vec<&T>) -> (r: Vec<&T>)
    ensures
        ranked(derefs(r@)),
        same_records(derefs(r@), derefs(items@)),
{
    let ghost src = derefs(items@);
    let mut out: Vec<&T> = Vec::new();
    let mut i: usize = 0;
    while i < items.len()
        invariant
            i <= items@.len(),
            src == derefs(items@),
            ranked(derefs(out@)),
            derefs(out@).len() == i,
            forall|k: int| 0 <= k < i ==> derefs(out@).contains(#[trigger] src[k]),
            forall|k: int| 0 <= k < derefs(out@).len() ==> src.take(i as int).contains(#[trigger] derefs(out@)[k]),
        decreases items@.len() - i,
    {
        let x = items[i];
        let rx = x.rank();
        let mut p: usize = 0;
        while p < out.len() && out[p].rank() <= rx
            invariant
                p <= out@.len(),
                forall|k: int| 0 <= k < p ==> (#[trigger] derefs(out@)[k]).rank_spec() <= rx,
            decreases out@.len() - p,
        {
            p = p + 1;
        }
        let ghost before = derefs(out@);
        out.insert(p, x);
        proof {
            let after = derefs(out@);
            assert(after =~= before.insert(p as int, *x));
            assert forall|a: int, b: int| 0 <= a < b < after.len() implies #[trigger] after[a].rank_spec()
                <= #[trigger] after[b].rank_spec() by {
                if a < p as int && b < p as int {
                    assert(after[a] == before[a] && after[b] == before[b]);
                } else if a < p as int && b == p as int {
                    assert(after[a] == before[a]);
                } else if a < p as int {
                    assert(after[a] == before[a] && after[b] == before[b - 1]);
                } else if a == p as int {
                    assert(after[b] == before[b - 1]);
                    if p < before.len() {
                        assert(before[p as int].rank_spec() > rx);
                        if b - 1 > p {
                            assert(before[p as int].rank_spec() <= before[b - 1].rank_spec());
                        }
                    }
                } else {
                    assert(after[a] == before[a - 1] && after[b] == before[b - 1]);
                }
            }
            assert forall|k: int| 0 <= k < i + 1 implies after.contains(#[trigger] src[k]) by {
                if k < i {
                    let w = choose|w: int| 0 <= w < before.len() && before[w] == src[k];
                    if w < p {
                        assert(after[w] == src[k]);
                    } else {
                        assert(after[w + 1] == src[k]);
                    }
                } else {
                    assert(after[p as int] == src[k]);
                }
            }
            assert forall|k: int| 0 <= k < after.len() implies src.take(i + 1).contains(#[trigger] after[k]) by {
                if k == p {
                    assert(src.take(i + 1)[i as int] == after[k]);
                } else {
                    let k2 = if k < p { k } else { k - 1 };
                    assert(after[k] == before[k2]);
                    assert(src.take(i as int).contains(before[k2]));
                    let w = choose|w: int| 0 <= w < src.take(i as int).len() && src.take(i as int)[w] == before[k2];
                    assert(src.take(i + 1)[w] == before[k2]);
                }
            }
        }
        i = i + 1;
    }
    assert(src.take(i as int) =~= src);
    out
}

/// The references to a table's records, in table order.
fn all_refs<T>(rows: &Vec<T>) -> (r: Vec<&T>)
    ensures
        derefs(r@) == rows@,
{
    let mut out: Vec<&T> = Vec::new();
    let mut i: usize = 0;
    while i < rows.len()
        invariant
            i <= rows@.len(),
            derefs(out@) == rows@.take(i as int),
        decreases rows@.len() - i,
    {
        let ghost before = out@;
        out.push(&rows[i]);
        assert(derefs(out@) =~= derefs(before).push(rows@[i as int]));
        assert(rows@.take(i + 1) =~= rows@.take(i as int).push(rows@[i as int]));
        i = i + 1;
    }
    assert(rows@.take(i as int) =~= rows@);
    out
}

impl InMemorySessionStore {
    /// Every stored session, most recently updated first.
    pub fn list_sessions(&self) -> (r: Vec<&Session>)
        ensures
            ranked(derefs(r@)),
            same_records(derefs(r@), self.sessions.rows@),
    {
        rank_sorted(all_refs(&self.sessions.rows))
    }

    /// Store an approval (replacing one with the same id).
    pub fn create_approval(&mut self, approval: Approval)
        requires
            old(self).wf(),
        ensures
            final(self).wf(),
            final(self).approvals.entry(approval.id) == Some(approval),
            forall|k: u128| k != approval.id ==> final(self).approvals.entry(k) == old(self).approvals.entry(k),
            final(self).sessions == old(self).sessions,
            final(self).runs == old(self).runs,
            final(self).transcripts == old(self).transcripts,
            final(self).memory == old(self).memory,
            final(self).schedules == old(self).schedules,
    {
        self.approvals.upsert(approval);
    }

    /// Replace a stored approval; an unknown id is an error and changes nothing.
    pub fn update_approval(&mut self, approval: Approval) -> (r: Result<(), String>)
        requires
            old(self).wf(),
        ensures
            final(self).wf(),
            match r {
                Ok(()) => old(self).approvals.entry(approval.id) is Some && final(self).approvals.entry(
                    approval.id,
                ) == Some(approval) && forall|k: u128|
                    k != approval.id ==> final(self).approvals.entry(k) == old(self).approvals.entry(k),
                Err(e) => old(self).approvals.entry(approval.id) is None && e@ == not_found(
                    "approval"@,
                    approval.id,
                ) && final(self).approvals.rows@ == old(self).approvals.rows@,
            },
            final(self).sessions == old(self).sessions,
            final(self).runs == old(self).runs,
            final(self).transcripts == old(self).transcripts,
            final(self).memory == old(self).memory,
            final(self).schedules == old(self).schedules,
    {
        let id = approval.id;
        if !self.approvals.update(approval) {
            return Err(not_found_error("approval", id));
        }
        Ok(())
    }

    /// Decide an approval only while it is pending: `true` when it was stored and
    /// pending (and is now replaced), `false` otherwise with nothing changed.
    pub fn update_approval_if_pending(&mut self, approval: Approval) -> (r: bool)
        requires
            old(self).wf(),
        ensures
            final(self).wf(),
            r == (old(self).approvals.entry(approval.id) matches Some(a) && a.status
                == ApprovalStatus::Pending),
            r ==> final(self).approvals.entry(approval.id) == Some(approval) && forall|k: u128|
                k != approval.id ==> final(self).approvals.entry(k) == old(self).approvals.entry(k),
            !r ==> final(self).approvals.rows@ == old(self).approvals.rows@,
            final(self).sessions == old(self).sessions,
            final(self).runs == old(self).runs,
            final(self).transcripts == old(self).transcripts,
            final(self).memory == old(self).memory,
            final(self).schedules == old(self).schedules,
    {
        let pending = match self.approvals.get(approval.id) {
            Some(existing) => existing.status == ApprovalStatus::Pending,
            None => false,
        };
        if !pending {
            return false;
        }
        self.approvals.upsert(approval);
        true
    }

    /// The approval with this id, if stored.
    pub fn get_approval(&self, id: u128) -> (r: Option<&Approval>)
        requires
            self.wf(),
        ensures
            match r {
                Some(x) => self.approvals.entry(id) == Some(*x),
                None => self.approvals.entry(id) is None,
            },
    {
        self.approvals.get(id)
    }

    /// The approvals (only the pending ones when asked), by id.
    pub fn list_approvals(&self, pending_only: bool) -> (r: Vec<&Approval>)
        ensures
            ranked(derefs(r@)),
            same_records(
                derefs(r@),
                self.approvals.rows@.filter(|a: Approval| !pending_only || a.status == ApprovalStatus::Pending),
            ),
    {
        let ghost rows = self.approvals.rows@;
        let mut out: Vec<&Approval> = Vec::new();
        let mut i: usize = 0;
        assert(rows.take(0) =~= Seq::<Approval>::empty());
        while i < self.approvals.rows.len()
            invariant
                i <= rows.len(),
                rows == self.approvals.rows@,
                derefs(out@) == rows.take(i as int).filter(|a: Approval| !pending_only || a.status == ApprovalStatus::Pending),
            decreases rows.len() - i,
        {
            let ghost before = out@;
            assert(rows.take(i + 1).drop_last() =~= rows.take(i as int));
            reveal(Seq::filter);
            let a = &self.approvals.rows[i];
            if !pending_only || a.status == ApprovalStatus::Pending {
                out.push(a);
                assert(derefs(out@) =~= derefs(before).push(*a));
            }
            i = i + 1;
        }
        assert(rows.take(i as int) =~= rows);
        rank_sorted(out)
    }

    /// Store a memory entry (replacing one with the same id).
    pub fn create_memory(&mut self, entry: MemoryEntry)
        requires
            old(self).wf(),
        ensures
            final(self).wf(),
            final(self).memory.entry(entry.id) == Some(entry),
            forall|k: u128| k != entry.id ==> final(self).memory.entry(k) == old(self).memory.entry(k),
            final(self).sessions == old(self).sessions,
            final(self).runs == old(self).runs,
            final(self).transcripts == old(self).transcripts,
            final(self).approvals == old(self).approvals,
            final(self).schedules == old(self).schedules,
    {
        self.memory.upsert(entry);
    }

    /// The memory entry with this id, if stored.
    pub fn get_memory(&self, id: u128) -> (r: Option<&MemoryEntry>)
        requires
            self.wf(),
        ensures
            match r {
                Some(x) => self.memory.entry(id) == Some(*x),
                None => self.memory.entry(id) is None,
            },
    {
        self.memory.get(id)
    }

    /// Replace a stored memory entry; an unknown id is an error and changes nothing.
    pub fn update_memory(&mut self, entry: MemoryEntry) -> (r: Result<(), String>)
        requires
            old(self).wf(),
        ensures
            final(self).wf(),
            match r {
                Ok(()) => old(self).memory.entry(entry.id) is Some && final(self).memory.entry(entry.id)
                    == Some(entry) && forall|k: u128|
                    k != entry.id ==> final(self).memory.entry(k) == old(self).memory.entry(k),
                Err(e) => old(self).memory.entry(entry.id) is None && e@ == not_found(
                    "memory"@,
                    entry.id,
                ) && final(self).memory.rows@ == old(self).memory.rows@,
            },
            final(self).sessions == old(self).sessions,
            final(self).runs == old(self).runs,
            final(self).transcripts == old(self).transcripts,
            final(self).approvals == old(self).approvals,
            final(self).schedules == old(self).schedules,
    {
        let id = entry.id;
        if !self.memory.update(entry) {
            return Err(not_found_error("memory", id));
        }
        Ok(())
    }

    /// Delete a memory entry; an unknown id is an error.
    pub fn delete_memory(&mut self, id: u128) -> (r: Result<(), String>)
        requires
            old(self).wf(),
        ensures
            final(self).wf(),
            final(self).memory.entry(id) is None,
            forall|k: u128| k != id ==> final(self).memory.entry(k) == old(self).memory.entry(k),
            match r {
                Ok(()) => old(self).memory.entry(id) is Some,
                Err(e) => old(self).memory.entry(id) is None && e@ == not_found("memory"@, id),
            },
            final(self).sessions == old(self).sessions,
            final(self).runs == old(self).runs,
            final(self).transcripts == old(self).transcripts,
            final(self).approvals == old(self).approvals,
            final(self).schedules == old(self).schedules,
    {
        if !self.memory.remove(id) {
            return Err(not_found_error("memory", id));
        }
        Ok(())
    }

    /// Every memory entry, by id.
    pub fn list_memory(&self) -> (r: Vec<&MemoryEntry>)
        ensures
            ranked(derefs(r@)),
            same_records(derefs(r@), self.memory.rows@),
    {
        rank_sorted(all_refs(&self.memory.rows))
    }

    /// Store a schedule (replacing one with the same id).
    pub fn create_schedule(&mut self, schedule: Schedule)
        requires
            old(self).wf(),
        ensures
            final(self).wf(),
            final(self).schedules.entry(schedule.id) == Some(schedule),
            forall|k: u128| k != schedule.id ==> final(self).schedules.entry(k) == old(self).schedules.entry(k),
            final(self).sessions == old(self).sessions,
            final(self).runs == old(self).runs,
            final(self).transcripts == old(self).transcripts,
            final(self).approvals == old(self).approvals,
            final(self).memory == old(self).memory,
    {
        self.schedules.upsert(schedule);
    }

    /// Replace a stored schedule; an unknown id is an error and changes nothing.
    pub fn update_schedule(&mut self, schedule: Schedule) -> (r: Result<(), String>)
        requires
            old(self).wf(),
        ensures
            final(self).wf(),
            match r {
                Ok(()) => old(self).schedules.entry(schedule.id) is Some && final(self).schedules.entry(
                    schedule.id,
                ) == Some(schedule) && forall|k: u128|
                    k != schedule.id ==> final(self).schedules.entry(k) == old(self).schedules.entry(k),
                Err(e) => old(self).schedules.entry(schedule.id) is None && e@ == not_found(
                    "schedule"@,
                    schedule.id,
                ) && final(self).schedules.rows@ == old(self).schedules.rows@,
            },
            final(self).sessions == old(self).sessions,
            final(self).runs == old(self).runs,
            final(self).transcripts == old(self).transcripts,
            final(self).approvals == old(self).approvals,
            final(self).memory == old(self).memory,
    {
        let id = schedule.id;
        if !self.schedules.update(schedule) {
            return Err(not_found_error("schedule", id));
        }
        Ok(())
    }

    /// The schedule with this id, if stored.
    pub fn get_schedule(&self, id: u128) -> (r: Option<&Schedule>)
        requires
            self.wf(),
        ensures
            match r {
                Some(x) => self.schedules.entry(id) == Some(*x),
                None => self.schedules.entry(id) is None,
            },
    {
        self.schedules.get(id)
    }

    /// The schedules not deleted, by id.
    pub fn list_schedules(&self) -> (r: Vec<&Schedule>)
        ensures
            ranked(derefs(r@)),
            same_records(
                derefs(r@),
                self.schedules.rows@.filter(|s: Schedule| s.status != ScheduleStatus::Deleted),
            ),
    {
        let ghost rows = self.schedules.rows@;
        let mut out: Vec<&Schedule> = Vec::new();
        let mut i: usize = 0;
        assert(rows.take(0) =~= Seq::<Schedule>::empty());
        while i < self.schedules.rows.len()
            invariant
                i <= rows.len(),
                rows == self.schedules.rows@,
                derefs(out@) == rows.take(i as int).filter(|s: Schedule| s.status != ScheduleStatus::Deleted),
            decreases rows.len() - i,
        {
            let ghost before = out@;
            assert(rows.take(i + 1).drop_last() =~= rows.take(i as int));
            reveal(Seq::filter);
            let x = &self.schedules.rows[i];
            if x.status != ScheduleStatus::Deleted {
                out.push(x);
                assert(derefs(out@) =~= derefs(before).push(*x));
            }
            i = i + 1;
        }
        assert(rows.take(i as int) =~= rows);
        rank_sorted(out)
    }
}

/// Position of the first message with id `id`.
pub open spec fn position_of_id(ms: Seq<TranscriptMessage>, id: Seq<char>) -> Option<int>
    decreases ms.len(),
{
    if ms.len() == 0 {
        None
    } else if ms[0].id@ == id {
        Some(0)
    } else {
        match position_of_id(ms.drop_first(), id) {
            Some(i) => Some(i + 1),
            None => None,
        }
    }
}

/// One page of a Transcript, newest first: after the message `before` when it is
/// present, at most `limit` (at least one) messages, and the cursor for the next page
/// when the page is full.
pub open spec fn transcript_page(
    all: Seq<TranscriptMessage>,
    limit: nat,
    before: Option<Seq<char>>,
) -> (Seq<TranscriptMessage>, Option<Seq<char>>) {
    let rev = all.reverse();
    let start = match before {
        Some(b) => match position_of_id(rev, b) {
            Some(p) => p + 1,
            None => 0,
        },
        None => 0,
    };
    let rest = rev.skip(start);
    let lim = if limit == 0 {
        1
    } else {
        limit
    };
    let page = if rest.len() <= lim {
        rest
    } else {
        rest.take(lim as int)
    };
    let next = if page.len() == lim {
        Some(page.last().id@)
    } else {
        None
    };
    (page, next)
}

proof fn lemma_position_of_id(ms: Seq<TranscriptMessage>, id: Seq<char>, i: int)
    requires
        0 <= i < ms.len(),
        ms[i].id@ == id,
        forall|j: int| 0 <= j < i ==> ms[j].id@ != id,
    ensures
        position_of_id(ms, id) == Some(i),
    decreases ms.len(),
{
    if i > 0 {
        lemma_position_of_id(ms.drop_first(), id, i - 1);
    }
}

proof fn lemma_position_of_id_none(ms: Seq<TranscriptMessage>, id: Seq<char>)
    requires
        forall|j: int| 0 <= j < ms.len() ==> ms[j].id@ != id,
    ensures
        position_of_id(ms, id) is None,
    decreases ms.len(),
{
    if ms.len() > 0 {
        lemma_position_of_id_none(ms.drop_first(), id);
    }
}

/// `e`'s content or label holds the query, ASCII case ignored.
pub open spec fn memory_hit(e: MemoryEntry, query: Seq<char>) -> bool {
    let q = crate::text::ascii_lower(query);
    crate::text::contains(crate::text::ascii_lower(e.content@), q) || (e.label matches Some(l)
        && crate::text::contains(crate::text::ascii_lower(l@), q))
}

fn lower_contains(hay: &str, lowered_query: &Vec<char>) -> (r: bool)
    ensures
        r == crate::text::contains(crate::text::ascii_lower(hay@), lowered_query@),
{
    let h = crate::text::chars_of(hay);
    let hl = crate::text::ascii_lower_exec(h.as_slice());
    crate::text::contains_seq(hl.as_slice(), lowered_query.as_slice())
}

/// The (session, message) pairs of the Transcripts, session by session in table order.
pub open spec fn all_messages(ts: Seq<SessionTranscript>) -> Seq<(u128, TranscriptMessage)>
    decreases ts.len(),
{
    if ts.len() == 0 {
        Seq::empty()
    } else {
        all_messages(ts.drop_last()) + ts.last().messages@.map_values(
            |m: TranscriptMessage| (ts.last().session_id, m),
        )
    }
}

/// The first `n` items, or all of them when there are fewer.
pub open spec fn at_most<T>(s: Seq<T>, n: nat) -> Seq<T> {
    if s.len() <= n {
        s
    } else {
        s.take(n as int)
    }
}

fn newest_position(all: &Vec<&TranscriptMessage>, b: &str) -> (r: Option<usize>)
    ensures
        match r {
            Some(j) => position_of_id(derefs(all@).reverse(), b@) == Some(j as int) && j < all@.len(),
            None => position_of_id(derefs(all@).reverse(), b@) is None,
        },
{
    let ghost msgs = derefs(all@);
    let ghost rev = msgs.reverse();
    let n = all.len();
    let mut j: usize = 0;
    while j < n
        invariant
            n == msgs.len(),
            msgs == derefs(all@),
            rev == msgs.reverse(),
            j <= n,
            forall|k: int| 0 <= k < j ==> rev[k].id@ != b@,
        decreases n - j,
    {
        let m = all[n - 1 - j];
        assert(rev[j as int] == msgs[n - 1 - j]);
        if crate::text::str_eq(m.id.as_str(), b) {
            proof {
                lemma_position_of_id(rev, b@, j as int);
            }
            return Some(j);
        }
        j = j + 1;
    }
    proof {
        lemma_position_of_id_none(rev, b@);
    }
    None
}

impl InMemorySessionStore {
    /// One page of a session's Transcript, newest first, and the next page's cursor.
    pub fn get_transcript_page(&self, session_id: u128, limit: usize, before: Option<&str>) -> (r: (
        Vec<&TranscriptMessage>,
        Option<String>,
    ))
        requires
            self.wf(),
        ensures
            ({
                let (page, next) = transcript_page(
                    self.messages_of(session_id),
                    limit as nat,
                    crate::model::auth::opt_str_view(before),
                );
                &&& derefs(r.0@) == page
                &&& crate::text::opt_view(r.1) == next
            }),
    {
        let all = self.get_transcript(session_id);
        let ghost msgs = self.messages_of(session_id);
        let ghost rev = msgs.reverse();
        let n = all.len();
        assert(derefs(all@) == msgs);
        // the position in newest-first order where the page starts
        let start: usize = match before {
            Some(b) => match newest_position(&all, b) {
                Some(j) => j + 1,
                None => 0,
            },
            None => 0,
        };
        let lim: usize = if limit == 0 {
            1
        } else {
            limit
        };
        let mut page: Vec<&TranscriptMessage> = Vec::new();
        let mut k: usize = start;
        let ghost rest = rev.skip(start as int);
        while k < n && page.len() < lim
            invariant
                n == msgs.len(),
                derefs(all@) == msgs,
                rev == msgs.reverse(),
                start <= k <= n,
                rest == rev.skip(start as int),
                page@.len() == k - start,
                page@.len() <= lim,
                derefs(page@) == rest.take(k - start),
            decreases n - k,
        {
            let ghost before_page = page@;
            let m = all[n - 1 - k];
            page.push(m);
            assert(rev[k as int] == msgs[n - 1 - k]);
            assert(rest[k - start] == rev[k as int]);
            assert(derefs(page@) =~= derefs(before_page).push(*m));
            assert(rest.take(k - start + 1) =~= rest.take(k - start).push(rest[k - start]));
            k = k + 1;
        }
        proof {
            if k == n {
                assert(rest.take(k - start) =~= rest);
            }
        }
        let next = if page.len() == lim {
            Some(page[page.len() - 1].id.clone())
        } else {
            None
        };
        (page, next)
    }

    /// Memory entries whose content or label holds the query (ASCII case ignored), at
    /// most `limit` (at least one), in table order.
    pub fn search_memory(&self, query: &str, limit: usize) -> (r: Vec<&MemoryEntry>)
        ensures
            derefs(r@) == at_most(
                self.memory.rows@.filter(|e: MemoryEntry| memory_hit(e, query@)),
                if limit == 0 {
                    1
                } else {
                    limit as nat
                },
            ),
    {
        let qc = crate::text::chars_of(query);
        let q = crate::text::ascii_lower_exec(qc.as_slice());
        let ghost rows = self.memory.rows@;
        let mut out: Vec<&MemoryEntry> = Vec::new();
        let mut i: usize = 0;
        assert(rows.take(0) =~= Seq::<MemoryEntry>::empty());
        while i < self.memory.rows.len()
            invariant
                i <= rows.len(),
                rows == self.memory.rows@,
                q@ == crate::text::ascii_lower(query@),
                derefs(out@) == rows.take(i as int).filter(|e: MemoryEntry| memory_hit(e, query@)),
            decreases rows.len() - i,
        {
            let ghost before = out@;
            assert(rows.take(i + 1).drop_last() =~= rows.take(i as int));
            reveal(Seq::filter);
            let e = &self.memory.rows[i];
            let hit = lower_contains(e.content.as_str(), &q) || match &e.label {
                Some(l) => lower_contains(l.as_str(), &q),
                None => false,
            };
            if hit {
                out.push(e);
                assert(derefs(out@) =~= derefs(before).push(*e));
            }
            i = i + 1;
        }
        assert(rows.take(i as int) =~= rows);
        let lim: usize = if limit == 0 {
            1
        } else {
            limit
        };
        if out.len() > lim {
            let ghost full = out@;
            out.truncate(lim);
            assert(out@ =~= full.take(lim as int));
            assert(derefs(out@) =~= derefs(full).take(lim as int));
        }
        out
    }
}

/// The (session, message) pairs behind some references.
pub open spec fn pair_derefs(v: Seq<(u128, &TranscriptMessage)>) -> Seq<(u128, TranscriptMessage)> {
    v.map_values(|p: (u128, &TranscriptMessage)| (p.0, *p.1))
}

/// A Transcript message holds the query, ASCII case ignored.
pub open spec fn transcript_hit(p: (u128, TranscriptMessage), query: Seq<char>) -> bool {
    crate::text::contains(
        crate::text::ascii_lower(p.1.content@),
        crate::text::ascii_lower(query),
    )
}

/// The test `transcript_hit` against one query.
pub open spec fn hits_query(query: Seq<char>) -> spec_fn((u128, TranscriptMessage)) -> bool {
    |p: (u128, TranscriptMessage)| transcript_hit(p, query)
}

impl InMemorySessionStore {
    /// Transcript messages holding the query (ASCII case ignored), session by session,
    /// at most `limit` (at least one).
    pub fn search_transcripts(&self, query: &str, limit: usize) -> (r: Vec<(u128, &TranscriptMessage)>)
        ensures
            pair_derefs(r@) == at_most(
                all_messages(self.transcripts.rows@).filter(hits_query(query@)),
                if limit == 0 {
                    1
                } else {
                    limit as nat
                },
            ),
    {
        let qc = crate::text::chars_of(query);
        let q = crate::text::ascii_lower_exec(qc.as_slice());
        let lim: usize = if limit == 0 {
            1
        } else {
            limit
        };
        let ghost pred = hits_query(query@);
        let ghost rows = self.transcripts.rows@;
        let ghost all = all_messages(rows).filter(pred);
        let mut out: Vec<(u128, &TranscriptMessage)> = Vec::new();
        let mut i: usize = 0;
        assert(rows.take(0) =~= Seq::<SessionTranscript>::empty());
        while i < self.transcripts.rows.len()
            invariant
                i <= rows.len(),
                rows == self.transcripts.rows@,
                q@ == crate::text::ascii_lower(query@),
                pred == hits_query(query@),
                all == all_messages(rows).filter(pred),
                out@.len() < lim,
                lim == (if limit == 0 { 1 } else { limit }),
                pair_derefs(out@) == all_messages(rows.take(i as int)).filter(pred),
            decreases rows.len() - i,
        {
            let t = &self.transcripts.rows[i];
            let ghost base = all_messages(rows.take(i as int));
            let ghost msgs = t.messages@.map_values(|m: TranscriptMessage| (t.session_id, m));
            assert(rows.take(i + 1).drop_last() =~= rows.take(i as int));
            assert(all_messages(rows.take(i + 1)) == base + msgs);
            let mut j: usize = 0;
            assert(msgs.take(0) =~= Seq::<(u128, TranscriptMessage)>::empty());
            assert(base + msgs.take(0) =~= base);
            while j < t.messages.len()
                invariant
                    j <= t.messages@.len(),
                    i < rows.len(),
                    rows == self.transcripts.rows@,
                    *t == rows[i as int],
                    base == all_messages(rows.take(i as int)),
                    all == all_messages(rows).filter(pred),
                    q@ == crate::text::ascii_lower(query@),
                    msgs == t.messages@.map_values(|m: TranscriptMessage| (t.session_id, m)),
                    pred == hits_query(query@),
                    out@.len() < lim,
                    lim == (if limit == 0 { 1 } else { limit }),
                    pair_derefs(out@) == (base + msgs.take(j as int)).filter(pred),
                decreases t.messages@.len() - j,
            {
                let ghost before = out@;
                let ghost pre = base + msgs.take(j as int);
                assert(base + msgs.take(j + 1) =~= pre.push(msgs[j as int]));
                let m = &t.messages[j];
                assert(msgs[j as int] == (t.session_id, *m));
                let hit = lower_contains(m.content.as_str(), &q);
                assert(hit == pred((t.session_id, *m)));
                proof {
                    lemma_filter_push(pre, msgs[j as int], pred);
                }
                if hit {
                    out.push((t.session_id, m));
                    assert(pair_derefs(out@) =~= pair_derefs(before).push((t.session_id, *m)));
                    if out.len() >= lim {
                        proof {
                            lemma_search_cut(
                                rows,
                                i as int,
                                t.messages@,
                                t.session_id,
                                j + 1,
                                pred,
                                pair_derefs(out@),
                                lim as nat,
                            );
                        }
                        return out;
                    }
                }
                j = j + 1;
            }
            assert(msgs.take(j as int) =~= msgs);
            i = i + 1;
        }
        assert(rows.take(i as int) =~= rows);
        out
    }
}

/// Filtering a sequence with one more element keeps it exactly when it passes.
proof fn lemma_filter_push<A>(s: Seq<A>, x: A, pred: spec_fn(A) -> bool)
    ensures
        s.push(x).filter(pred) == if pred(x) {
            s.filter(pred).push(x)
        } else {
            s.filter(pred)
        },
{
    reveal(Seq::filter);
    assert(s.push(x).drop_last() =~= s);
}

/// Once the hits among the first messages reach the limit, they are the first hits
/// of all messages, cut at the limit.
proof fn lemma_search_cut(
    rows: Seq<SessionTranscript>,
    i: int,
    ms: Seq<TranscriptMessage>,
    sid: u128,
    j: int,
    pred: spec_fn((u128, TranscriptMessage)) -> bool,
    found: Seq<(u128, TranscriptMessage)>,
    lim: nat,
)
    requires
        0 <= i < rows.len(),
        ms == rows[i].messages@,
        sid == rows[i].session_id,
        0 <= j <= ms.len(),
        found == (all_messages(rows.take(i)) + ms.map_values(
            |m: TranscriptMessage| (sid, m),
        ).take(j)).filter(pred),
        found.len() >= lim,
        found.len() <= lim,
    ensures
        found == at_most(all_messages(rows).filter(pred), lim),
{
    let full = all_messages(rows);
    assert(ms.map_values(|m: TranscriptMessage| (sid, m)) =~= ms.map_values(
        |m: TranscriptMessage| (rows[i].session_id, m),
    ));
    let done = all_messages(rows.take(i)) + ms.map_values(
        |m: TranscriptMessage| (rows[i].session_id, m),
    ).take(j);
    lemma_prefix_of_all(rows, i, ms, j);
    let rest = full.skip(done.len() as int);
    assert(full =~= done + rest);
    Seq::filter_distributes_over_add(done, rest, pred);
    let all = full.filter(pred);
    assert(all == found + rest.filter(pred));
    assert(all.take(lim as int) =~= found);
    if all.len() <= lim {
        assert(all =~= found);
    }
}

/// The messages up to message `j` of session `i` begin the list of all messages.
proof fn lemma_prefix_of_all(rows: Seq<SessionTranscript>, i: int, ms: Seq<TranscriptMessage>, j: int)
    requires
        0 <= i < rows.len(),
        ms == rows[i].messages@,
        0 <= j <= ms.len(),
    ensures
        ({
            let done = all_messages(rows.take(i)) + ms.map_values(
                |m: TranscriptMessage| (rows[i].session_id, m),
            ).take(j);
            &&& done.len() <= all_messages(rows).len()
            &&& all_messages(rows).take(done.len() as int) == done
        }),
    decreases rows.len(),
{
    let msgs = ms.map_values(|m: TranscriptMessage| (rows[i].session_id, m));
    let done = all_messages(rows.take(i)) + msgs.take(j);
    if i == rows.len() - 1 {
        assert(rows.drop_last() =~= rows.take(i));
        assert(all_messages(rows) == all_messages(rows.take(i)) + msgs);
        assert(all_messages(rows).take(done.len() as int) =~= done);
    } else {
        lemma_prefix_of_all(rows.drop_last(), i, ms, j);
        assert(rows.drop_last().take(i) =~= rows.take(i));
        assert(rows.drop_last()[i] == rows[i]);
        let shorter = all_messages(rows.drop_last());
        assert(all_messages(rows) == shorter + rows.last().messages@.map_values(
            |m: TranscriptMessage| (rows.last().session_id, m),
        ));
        assert(all_messages(rows).take(done.len() as int) =~= shorter.take(done.len() as int));
    }
}

} // verus!
