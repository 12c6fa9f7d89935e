//! The operator's in-run checklist and clarifying questions.

use crate::domain::{ToolCall, ToolError, ToolResult};
use crate::json::{get_str, Json};
use crate::text::{decimal, views};
use vstd::prelude::*;

verus! {

/// One checklist line: its number, its mark and its text.
pub open spec fn todo_line(i: nat, item: (String, bool)) -> Seq<char> {
    decimal(i + 1) + ". ["@ + (if item.1 {
        "x"@
    } else {
        " "@
    }) + "] "@ + item.0@
}

/// The checklist as text: one numbered line per item, or `(empty todo)`.
pub open spec fn todo_text(items: Seq<(String, bool)>) -> Seq<char> {
    if items.len() == 0 {
        "(empty todo)"@
    } else {
        crate::model::consumer::join_lines(Seq::new(items.len(), |i: int| todo_line(i as nat, items[i])))
    }
}

/// In-run checklist state: each item's text and whether it is done.
#[derive(Debug, Default)]
pub struct TodoState {
    pub items: Vec<(String, bool)>,
}

impl TodoState {
    pub fn new() -> (r: Self)
        ensures
            r.items@.len() == 0,
    {
        TodoState { items: Vec::new() }
    }

    /// The checklist as text.
    pub fn snapshot(&self) -> (r: String)
        ensures
            r@ == todo_text(self.items@),
    {
        if self.items.len() == 0 {
            return String::from_str("(empty todo)");
        }
        let ghost lines = Seq::new(self.items@.len(), |i: int| todo_line(i as nat, self.items@[i]));
        let mut out: Vec<String> = Vec::new();
        let mut i: usize = 0;
        while i < self.items.len()
            invariant
                i <= self.items@.len(),
                lines == Seq::new(self.items@.len(), |i: int| todo_line(i as nat, self.items@[i])),
                views(out@) == lines.take(i as int),
            decreases self.items@.len() - i,
        {
            let (t, done) = &self.items[i];
            let mark = if *done {
                "x"
            } else {
                " "
            };
            let line = crate::text::decimal_string((i + 1) as u64).concat(". [").concat(mark).concat(
                "] ",
            ).concat(t.as_str());
            let ghost before = views(out@);
            out.push(line);
            assert(views(out@) =~= before.push(lines[i as int]));
            assert(lines.take(i + 1) =~= lines.take(i as int).push(lines[i as int]));
            i = i + 1;
        }
        assert(lines.take(i as int) =~= lines);
        crate::tools::workspace::join_with_newlines(&out)
    }

    /// Add an open item.
    pub fn add(&mut self, item: String)
        ensures
            final(self).items@ == old(self).items@.push((item, false)),
    {
        self.items.push((item, false));
    }

    /// Mark done the item at `index` less one (saturating: 0 and 1 both mean the first
    /// item); a position past the end changes nothing.
    pub fn mark_done(&mut self, index: usize)
        ensures
            ({
                let pos = if index == 0 {
                    0
                } else {
                    index - 1
                };
                &&& pos < old(self).items@.len() ==> final(self).items@ == old(self).items@.update(
                    pos,
                    (old(self).items@[pos].0, true),
                )
                &&& pos >= old(self).items@.len() ==> final(self).items@ == old(self).items@
            }),
    {
        let pos: usize = if index == 0 {
            0
        } else {
            index - 1
        };
        if pos < self.items.len() {
            let (t, _) = self.items.remove(pos);
            self.items.insert(pos, (t, true));
            assert(self.items@ =~= old(self).items@.update(pos as int, (old(self).items@[pos as int].0, true)));
        }
    }
}

/// A clarifying question and its answer once given.
#[derive(Debug, Clone)]
pub struct ClarifyRequest {
    pub id: String,
    pub question: String,
    pub answer: Option<String>,
}

/// The first request with id `id`.
pub open spec fn first_with_id(p: Seq<ClarifyRequest>, id: Seq<char>) -> Option<int>
    decreases p.len(),
{
    if p.len() == 0 {
        None
    } else if p[0].id@ == id {
        Some(0)
    } else {
        match first_with_id(p.drop_first(), id) {
            Some(i) => Some(i + 1),
            None => None,
        }
    }
}

proof fn lemma_first_with_id(p: Seq<ClarifyRequest>, id: Seq<char>, i: int)
    requires
        0 <= i < p.len(),
        p[i].id@ == id,
        forall|j: int| 0 <= j < i ==> p[j].id@ != id,
    ensures
        first_with_id(p, id) == Some(i),
    decreases p.len(),
{
    if i > 0 {
        lemma_first_with_id(p.drop_first(), id, i - 1);
    }
}

proof fn lemma_first_with_id_none(p: Seq<ClarifyRequest>, id: Seq<char>)
    requires
        forall|j: int| 0 <= j < p.len() ==> p[j].id@ != id,
    ensures
        first_with_id(p, id) is None,
    decreases p.len(),
{
    if p.len() > 0 {
        lemma_first_with_id_none(p.drop_first(), id);
    }
}

/// Questions waiting for the control plane's answer.
#[derive(Debug, Default)]
pub struct ClarifyQueue {
    pub pending: Vec<ClarifyRequest>,
}

/// A fresh random UUID (v4) in its hyphenated text form.
fn fresh_id() -> (r: String)
    ensures
        exists|id: u128| r@ == crate::storage::records::uuid_text(id),
{
    let id = crate::storage::records::random_uuid();
    crate::storage::records::uuid_string(id)
}

impl ClarifyQueue {
    pub fn new() -> (r: Self)
        ensures
            r.pending@.len() == 0,
    {
        ClarifyQueue { pending: Vec::new() }
    }

    /// Queue a question under a fresh random id; the id.
    pub fn ask(&mut self, question: String) -> (r: String)
        ensures
            final(self).pending@.len() == old(self).pending@.len() + 1,
            final(self).pending@.drop_last() == old(self).pending@,
            final(self).pending@.last().id@ == r@,
            exists|id: u128| r@ == crate::storage::records::uuid_text(id),
            final(self).pending@.last().question == question,
            final(self).pending@.last().answer is None,
    {
        let id = fresh_id();
        self.pending.push(ClarifyRequest { id: id.clone(), question, answer: None });
        assert(self.pending@.drop_last() =~= old(self).pending@);
        id
    }

    /// Record the answer of the first question with this id; an unknown id is an error.
    pub fn answer(&mut self, id: &str, answer: String) -> (r: Result<(), String>)
        ensures
            match first_with_id(old(self).pending@, id@) {
                Some(i) => r is Ok && final(self).pending@ == old(self).pending@.update(
                    i,
                    ClarifyRequest {
                        id: old(self).pending@[i].id,
                        question: old(self).pending@[i].question,
                        answer: Some(answer),
                    },
                ),
                None => (r matches Err(e) && e@ == "clarify id not found"@) && final(self).pending@
                    == old(self).pending@,
            },
    {
        let mut i: usize = 0;
        while i < self.pending.len()
            invariant
                i <= self.pending@.len(),
                self.pending@ == old(self).pending@,
                forall|j: int| 0 <= j < i ==> self.pending@[j].id@ != id@,
            decreases self.pending@.len() - i,
        {
            if crate::text::str_eq(self.pending[i].id.as_str(), id) {
                proof {
                    lemma_first_with_id(self.pending@, id@, i as int);
                }
                let old_item = self.pending.remove(i);
                let ClarifyRequest { id: rid, question, answer: _ } = old_item;
                self.pending.insert(i, ClarifyRequest { id: rid, question, answer: Some(answer) });
                assert(self.pending@ =~= old(self).pending@.update(
                    i as int,
                    ClarifyRequest {
                        id: old(self).pending@[i as int].id,
                        question: old(self).pending@[i as int].question,
                        answer: Some(answer),
                    },
                ));
                return Ok(());
            }
            i = i + 1;
        }
        proof {
            lemma_first_with_id_none(self.pending@, id@);
        }
        Err(String::from_str("clarify id not found"))
    }

    /// The questions without an answer, in order (by position in the queue).
    pub fn list_pending(&self) -> (r: Vec<&ClarifyRequest>)
        ensures
            crate::storage::memory::derefs(r@) == self.pending@.filter(
                |c: ClarifyRequest| c.answer is None,
            ),
    {
        let mut out: Vec<&ClarifyRequest> = Vec::new();
        let mut i: usize = 0;
        assert(self.pending@.take(0) =~= Seq::<ClarifyRequest>::empty());
        while i < self.pending.len()
            invariant
                i <= self.pending@.len(),
                crate::storage::memory::derefs(out@) == self.pending@.take(i as int).filter(
                    |c: ClarifyRequest| c.answer is None,
                ),
            decreases self.pending@.len() - i,
        {
            let ghost before = out@;
            assert(self.pending@.take(i + 1).drop_last() =~= self.pending@.take(i as int));
            reveal(Seq::filter);
            let c = &self.pending[i];
            if c.answer.is_none() {
                out.push(c);
                assert(crate::storage::memory::derefs(out@) =~= crate::storage::memory::derefs(
                    before,
                ).push(*c));
            }
            i = i + 1;
        }
        assert(self.pending@.take(i as int) =~= self.pending@);
        out
    }

    /// The answer of the first question with this id, once given.
    pub fn take_answer(&self, id: &str) -> (r: Option<String>)
        ensures
            crate::text::opt_view(r) == match first_with_id(self.pending@, id@) {
                Some(i) => crate::text::opt_view(self.pending@[i].answer),
                None => None,
            },
    {
        let mut i: usize = 0;
        while i < self.pending.len()
            invariant
                i <= self.pending@.len(),
                forall|j: int| 0 <= j < i ==> self.pending@[j].id@ != id@,
            decreases self.pending@.len() - i,
        {
            if crate::text::str_eq(self.pending[i].id.as_str(), id) {
                proof {
                    lemma_first_with_id(self.pending@, id@, i as int);
                }
                return match &self.pending[i].answer {
                    Some(a) => Some(a.clone()),
                    None => None,
                };
            }
            i = i + 1;
        }
        proof {
            lemma_first_with_id_none(self.pending@, id@);
        }
        None
    }
}

/// An answered question's answer is what reading it back gives.
pub proof fn lemma_answer_then_take(
    before: Seq<ClarifyRequest>,
    after: Seq<ClarifyRequest>,
    id: Seq<char>,
    i: int,
    answer: String,
)
    requires
        first_with_id(before, id) == Some(i),
        after == before.update(
            i,
            ClarifyRequest { id: before[i].id, question: before[i].question, answer: Some(answer) },
        ),
    ensures
        first_with_id(after, id) == Some(i),
        after[i].answer == Some(answer),
{
    lemma_first_with_id_spec(before, id);
    assert forall|j: int| 0 <= j < i implies after[j].id@ != id by {
        assert(after[j] == before[j]);
    }
    lemma_first_with_id(after, id, i);
}

proof fn lemma_first_with_id_spec(p: Seq<ClarifyRequest>, id: Seq<char>)
    ensures
        first_with_id(p, id) matches Some(i) ==> 0 <= i < p.len() && p[i].id@ == id && forall|j: int|
            0 <= j < i ==> p[j].id@ != id,
    decreases p.len(),
{
    if p.len() > 0 {
        lemma_first_with_id_spec(p.drop_first(), id);
        if p[0].id@ != id {
            if let Some(i) = first_with_id(p.drop_first(), id) {
                assert forall|j: int| 0 <= j < i + 1 implies p[j].id@ != id by {
                    if j > 0 {
                        assert(p[j] == p.drop_first()[j - 1]);
                    }
                }
            }
        }
    }
}

/// The operator tools: which of `todo` and `clarify` may run, the checklist and the
/// question queue.
pub struct OperatorTools {
    pub allowed: Vec<String>,
    pub todos: TodoState,
    pub clarify: ClarifyQueue,
}

impl OperatorTools {
    pub fn new(allowed: Vec<String>, todos: TodoState, clarify: ClarifyQueue) -> (r: Self)
        ensures
            r.allowed == allowed,
            r.todos == todos,
            r.clarify == clarify,
    {
        OperatorTools { allowed, todos, clarify }
    }

    /// Run a `todo` call: `add` an item, mark one `done`, or `list` (the default); the
    /// answer is the checklist and the action.
    pub fn todo(&mut self, args: &Json) -> (r: Result<ToolResult, ToolError>)
        ensures
            ({
                let action = match get_str(*args, "action"@) {
                    Some(a) => a,
                    None => "list"@,
                };
                &&& action == "add"@ && get_str(*args, "item"@) is None ==> (r matches Err(
                    ToolError::Failed(m),
                ) && m@ == "missing item"@ && final(self).todos.items@ == old(self).todos.items@)
                &&& action == "add"@ && get_str(*args, "item"@) is Some ==> final(self).todos.items@.len()
                    == old(self).todos.items@.len() + 1 && final(self).todos.items@.drop_last()
                    == old(self).todos.items@ && final(self).todos.items@.last().0@ == get_str(
                    *args,
                    "item"@,
                )->Some_0 && !final(self).todos.items@.last().1
                &&& action == "list"@ ==> final(self).todos.items@ == old(self).todos.items@
                &&& action != "add"@ && action != "done"@ && action != "list"@ ==> (r matches Err(
                    ToolError::Failed(m),
                ) && m@ == "unknown todo action '"@ + action + "'"@)
                &&& r matches Ok(res) ==> res.content@ == todo_text(final(self).todos.items@)
                    && res.summary@ == "todo action="@ + action
                &&& (action == "add"@ && get_str(*args, "item"@) is Some) || action == "done"@
                    || action == "list"@ ==> r is Ok
            }),
    {
        proof {
            reveal_strlit("add");
            reveal_strlit("done");
            reveal_strlit("list");
            assert("add"@ != "list"@) by {
                assert("add"@.len() != "list"@.len());
            }
            assert("add"@ != "done"@) by {
                assert("add"@.len() != "done"@.len());
            }
            assert("done"@ != "list"@) by {
                assert("done"@[0] != "list"@[0]);
            }
        }
        let action: String = match crate::json::get_str_exec(args, "action") {
            Some(a) => a.clone(),
            None => String::from_str("list"),
        };
        if crate::text::str_eq(action.as_str(), "add") {
            match crate::json::get_str_exec(args, "item") {
                None => return Err(ToolError::Failed(String::from_str("missing item"))),
                Some(item) => {
                    let ghost before = self.todos.items@;
                    self.todos.add(item.clone());
                    assert(self.todos.items@.drop_last() =~= before);
                },
            }
        } else if crate::text::str_eq(action.as_str(), "done") {
            let idx: usize = match crate::json::get_u64_exec(args, "index") {
                Some(v) => v as usize,
                None => 0,
            };
            self.todos.mark_done(idx);
        } else if crate::text::str_eq(action.as_str(), "list") {
        } else {
            return Err(
                ToolError::Failed(
                    String::from_str("unknown todo action '").concat(action.as_str()).concat("'"),
                ),
            );
        }
        let snap = self.todos.snapshot();
        Ok(ToolResult { content: snap, summary: String::from_str("todo action=").concat(action.as_str()) })
    }

    /// Which operator tool a call runs, or the denial.
    pub fn check_call(&self, call: &ToolCall) -> (r: Result<(), ToolError>)
        ensures
            r is Ok <==> views(self.allowed@).contains(call.name@) && (call.name@ == "todo"@
                || call.name@ == "clarify"@),
            r matches Err(e) ==> (e matches ToolError::Denied(m) && m@
                == crate::tools::workspace::disallowed(call.name@)),
    {
        let name = call.name.as_str();
        if crate::text::list_contains(self.allowed.as_slice(), name) && (crate::text::str_eq(
            name,
            "todo",
        ) || crate::text::str_eq(name, "clarify")) {
            Ok(())
        } else {
            Err(ToolError::Denied(String::from_str("unknown or disallowed tool '").concat(name).concat("'")))
        }
    }
}

/// The question of a `clarify` call.
pub fn clarify_question(args: &Json) -> (r: Result<String, ToolError>)
    ensures
        match get_str(*args, "question"@) {
            Some(q) => r matches Ok(s) && s@ == q,
            None => r matches Err(ToolError::Failed(m)) && m@ == "missing question"@,
        },
{
    match crate::json::get_str_exec(args, "question") {
        Some(q) => Ok(q.clone()),
        None => Err(ToolError::Failed(String::from_str("missing question"))),
    }
}

/// The answer of a `clarify` call once the operator answered.
pub fn clarify_answered(id: &str, answer: &str) -> (r: ToolResult)
    ensures
        r.content@ == "clarify answered: "@ + answer@,
        r.summary@ == "clarify id="@ + id@ + " status=answered"@,
{
    ToolResult {
        content: String::from_str("clarify answered: ").concat(answer),
        summary: String::from_str("clarify id=").concat(id).concat(" status=answered"),
    }
}

/// The answer of a `clarify` call still waiting (the id lets the API answer later).
pub fn clarify_waiting(id: &str, question: &str) -> (r: ToolResult)
    ensures
        r.content@ == "clarify waiting id="@ + id@ + " question="@ + question@,
        r.summary@ == "clarify id="@ + id@ + " status=waiting"@,
{
    ToolResult {
        content: String::from_str("clarify waiting id=").concat(id).concat(" question=").concat(
            question,
        ),
        summary: String::from_str("clarify id=").concat(id).concat(" status=waiting"),
    }
}

} // verus!
