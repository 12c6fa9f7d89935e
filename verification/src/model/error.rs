//! Model errors and secret redaction (fail closed on leakage).

use crate::text::{chars_of, contains, occurs_at, replace_all, replace_all_exec, string_of, views};
use vstd::prelude::*;

verus! {

/// An error from a model provider; its message never holds secrets it was told about.
#[derive(Debug)]
pub struct ModelError {
    pub message: String,
}

impl ModelError {
    pub fn new(message: String) -> (r: Self)
        ensures
            r.message == message,
    {
        ModelError { message }
    }

    /// The error's message, as its `Display` would write it.
    pub fn to_text(&self) -> (r: String)
        ensures
            r@ == self.message@,
    {
        self.message.clone()
    }
}

/// The text that stands where a secret was.
pub open spec fn marker() -> Seq<char> {
    "[REDACTED]"@
}

/// `message` with each non-empty secret, in order, replaced by the marker.
pub open spec fn redacted(message: Seq<char>, secrets: Seq<Seq<char>>) -> Seq<char>
    decreases secrets.len(),
{
    if secrets.len() == 0 {
        message
    } else {
        let prev = redacted(message, secrets.drop_last());
        let s = secrets.last();
        if s.len() == 0 {
            prev
        } else {
            replace_all(prev, s, marker())
        }
    }
}

/// Strips known secret substrings from a message: every non-empty secret, in order,
/// is replaced by `[REDACTED]` wherever it occurs.
pub fn redact_secrets(message: &str, secrets: &[String]) -> (r: String)
    ensures
        r@ == redacted(message@, views(secrets@)),
{
    let mark = chars_of("[REDACTED]");
    let mut out = chars_of(message);
    let mut i: usize = 0;
    assert(views(secrets@).take(0) =~= Seq::<Seq<char>>::empty());
    while i < secrets.len()
        invariant
            i <= secrets@.len(),
            mark@ == marker(),
            out@ == redacted(message@, views(secrets@).take(i as int)),
        decreases secrets@.len() - i,
    {
        let s = chars_of(secrets[i].as_str());
        assert(views(secrets@).take(i + 1).drop_last() =~= views(secrets@).take(i as int));
        assert(views(secrets@).take(i + 1).last() == secrets@[i as int]@);
        if s.len() > 0 {
            out = replace_all_exec(out.as_slice(), s.as_slice(), mark.as_slice());
        }
        i = i + 1;
    }
    assert(views(secrets@).take(secrets@.len() as int) =~= views(secrets@));
    string_of(out.as_slice())
}

/// A secret the marker cannot give back: non-empty, without `[` or `]`, and not a
/// piece of `REDACTED`.
pub open spec fn marker_safe(q: Seq<char>) -> bool {
    &&& q.len() > 0
    &&& !q.contains('[')
    &&& !q.contains(']')
    &&& !contains("REDACTED"@, q)
}

/// A marker-safe text does not start inside a marker.
proof fn lemma_not_at_marker(q: Seq<char>, rest: Seq<char>, i: int)
    requires
        marker_safe(q),
        0 <= i < marker().len(),
    ensures
        !occurs_at(marker() + rest, q, i),
{
    reveal_strlit("[REDACTED]");
    reveal_strlit("REDACTED");
    let out = marker() + rest;
    if occurs_at(out, q, i) {
        assert(out.subrange(i, i + q.len())[0] == q[0]);
        if i == 0 {
            assert(q[0] == '[');
        } else if i == 9 {
            assert(q[0] == ']');
        } else if i + q.len() <= 9 {
            assert forall|j: int| 0 <= j < q.len() implies #[trigger] q[j] == "REDACTED"@[i - 1
                + j] by {
                assert(out.subrange(i, i + q.len())[j] == out[i + j]);
                assert(out[i + j] == marker()[i + j]);
            }
            assert("REDACTED"@.subrange(i - 1, i - 1 + q.len()) =~= q);
            assert(occurs_at("REDACTED"@, q, i - 1));
        } else {
            let k = 9 - i;
            assert(out.subrange(i, i + q.len())[k] == out[9]);
            assert(q[k] == ']');
        }
    }
}

/// A prefix of a replacement result that holds no first character of the replacement
/// is copied unchanged from the input.
proof fn lemma_replace_prefix_copied(t: Seq<char>, p: Seq<char>, r: Seq<char>, k: int)
    requires
        p.len() > 0,
        r.len() > 0,
        0 <= k <= replace_all(t, p, r).len(),
        forall|j: int| 0 <= j < k ==> #[trigger] replace_all(t, p, r)[j] != r[0],
    ensures
        k <= t.len(),
        replace_all(t, p, r).take(k) == t.take(k),
    decreases t.len(),
{
    let out = replace_all(t, p, r);
    if k == 0 {
        assert(out.take(0) =~= t.take(0));
    } else if t.len() < p.len() {
        assert(out == t);
    } else if t.take(p.len() as int) == p {
        assert(out[0] == r[0]);
    } else {
        let rest = replace_all(t.drop_first(), p, r);
        assert(out == seq![t[0]] + rest);
        assert forall|j: int| 0 <= j < k - 1 implies #[trigger] rest[j] != r[0] by {
            assert(rest[j] == out[j + 1]);
        }
        lemma_replace_prefix_copied(t.drop_first(), p, r, k - 1);
        assert(out.take(k) =~= seq![t[0]] + rest.take(k - 1));
        assert(t.take(k) =~= seq![t[0]] + t.drop_first().take(k - 1));
    }
}

/// An occurrence at the start of a replacement result of a text without `[` was there
/// in the input already.
proof fn lemma_leading_occurrence_copied(s: Seq<char>, p: Seq<char>, q: Seq<char>)
    requires
        p.len() > 0,
        marker_safe(q),
        occurs_at(replace_all(s, p, marker()), q, 0),
    ensures
        occurs_at(s, q, 0),
{
    reveal_strlit("[REDACTED]");
    let out = replace_all(s, p, marker());
    assert forall|j: int| 0 <= j < q.len() implies #[trigger] out[j] != marker()[0] by {
        assert(out.subrange(0, q.len() as int)[j] == out[j]);
        assert(q[j] == out[j]);
    }
    lemma_replace_prefix_copied(s, p, marker(), q.len() as int);
    assert(out.take(q.len() as int) =~= out.subrange(0, q.len() as int));
    assert(s.take(q.len() as int) =~= s.subrange(0, q.len() as int));
}

/// After replacing a marker-safe `p` by the marker, `p` no longer occurs.
proof fn lemma_replace_removes(s: Seq<char>, p: Seq<char>)
    requires
        marker_safe(p),
    ensures
        !contains(replace_all(s, p, marker()), p),
    decreases s.len(),
{
    reveal_strlit("[REDACTED]");
    let r = marker();
    let out = replace_all(s, p, r);
    if s.len() < p.len() {
        assert forall|i: int| !occurs_at(out, p, i) by {
        }
    } else if s.take(p.len() as int) == p {
        let rest = replace_all(s.skip(p.len() as int), p, r);
        lemma_replace_removes(s.skip(p.len() as int), p);
        assert(out == r + rest);
        assert forall|i: int| !occurs_at(out, p, i) by {
            if occurs_at(out, p, i) {
                if i < r.len() {
                    lemma_not_at_marker(p, rest, i);
                } else {
                    assert(rest.subrange(i - r.len(), i - r.len() + p.len()) =~= out.subrange(
                        i,
                        i + p.len(),
                    ));
                    assert(occurs_at(rest, p, i - r.len()));
                }
            }
        }
    } else {
        let rest = replace_all(s.drop_first(), p, r);
        lemma_replace_removes(s.drop_first(), p);
        assert(out == seq![s[0]] + rest);
        assert forall|i: int| !occurs_at(out, p, i) by {
            if occurs_at(out, p, i) {
                if i == 0 {
                    lemma_leading_occurrence_copied(s, p, p);
                    assert(s.take(p.len() as int) =~= s.subrange(0, p.len() as int));
                } else {
                    assert(rest.subrange(i - 1, i - 1 + p.len()) =~= out.subrange(i, i + p.len()));
                    assert(occurs_at(rest, p, i - 1));
                }
            }
        }
    }
}

/// Replacing `p` by the marker introduces no occurrence of a marker-safe `q`.
proof fn lemma_replace_keeps_absent(s: Seq<char>, p: Seq<char>, q: Seq<char>)
    requires
        p.len() > 0,
        marker_safe(q),
        !contains(s, q),
    ensures
        !contains(replace_all(s, p, marker()), q),
    decreases s.len(),
{
    reveal_strlit("[REDACTED]");
    let r = marker();
    let out = replace_all(s, p, r);
    if s.len() < p.len() {
    } else if s.take(p.len() as int) == p {
        let tail = s.skip(p.len() as int);
        assert forall|i: int| !occurs_at(tail, q, i) by {
            if occurs_at(tail, q, i) {
                assert(s.subrange(i + p.len(), i + p.len() + q.len()) =~= tail.subrange(
                    i,
                    i + q.len(),
                ));
                assert(occurs_at(s, q, i + p.len()));
            }
        }
        let rest = replace_all(tail, p, r);
        lemma_replace_keeps_absent(tail, p, q);
        assert(out == r + rest);
        assert forall|i: int| !occurs_at(out, q, i) by {
            if occurs_at(out, q, i) {
                if i < r.len() {
                    lemma_not_at_marker(q, rest, i);
                } else {
                    assert(rest.subrange(i - r.len(), i - r.len() + q.len()) =~= out.subrange(
                        i,
                        i + q.len(),
                    ));
                    assert(occurs_at(rest, q, i - r.len()));
                }
            }
        }
    } else {
        let tail = s.drop_first();
        assert forall|i: int| !occurs_at(tail, q, i) by {
            if occurs_at(tail, q, i) {
                assert(s.subrange(i + 1, i + 1 + q.len()) =~= tail.subrange(i, i + q.len()));
                assert(occurs_at(s, q, i + 1));
            }
        }
        let rest = replace_all(tail, p, r);
        lemma_replace_keeps_absent(tail, p, q);
        assert(out == seq![s[0]] + rest);
        assert forall|i: int| !occurs_at(out, q, i) by {
            if occurs_at(out, q, i) {
                if i == 0 {
                    lemma_leading_occurrence_copied(s, p, q);
                } else {
                    assert(rest.subrange(i - 1, i - 1 + q.len()) =~= out.subrange(i, i + q.len()));
                    assert(occurs_at(rest, q, i - 1));
                }
            }
        }
    }
}

/// Redaction leaves no trace of any secret without `[` or `]` that is not a piece of
/// `REDACTED`, whatever the message and the other secrets.
pub proof fn lemma_redacted_hides_secrets(message: Seq<char>, secrets: Seq<Seq<char>>, i: int)
    requires
        0 <= i < secrets.len(),
        marker_safe(secrets[i]),
    ensures
        !contains(redacted(message, secrets), secrets[i]),
    decreases secrets.len(),
{
    let prev = redacted(message, secrets.drop_last());
    let last = secrets.last();
    if i == secrets.len() - 1 {
        lemma_replace_removes(prev, last);
    } else {
        assert(secrets.drop_last()[i] == secrets[i]);
        lemma_redacted_hides_secrets(message, secrets.drop_last(), i);
        if last.len() > 0 {
            lemma_replace_keeps_absent(prev, last, secrets[i]);
        }
    }
}

/// A message that holds none of the non-empty secrets passes through redaction
/// unchanged; empty secrets are ignored.
pub proof fn lemma_redact_without_secrets(message: Seq<char>, secrets: Seq<Seq<char>>)
    requires
        forall|i: int|
            0 <= i < secrets.len() && #[trigger] secrets[i].len() > 0 ==> !contains(
                message,
                secrets[i],
            ),
    ensures
        redacted(message, secrets) == message,
    decreases secrets.len(),
{
    if secrets.len() > 0 {
        assert forall|i: int|
            0 <= i < secrets.drop_last().len() && #[trigger] secrets.drop_last()[i].len()
                > 0 implies !contains(message, secrets.drop_last()[i]) by {
            assert(secrets.drop_last()[i] == secrets[i]);
        }
        lemma_redact_without_secrets(message, secrets.drop_last());
        let s = secrets.last();
        if s.len() > 0 {
            assert(secrets[secrets.len() - 1].len() > 0);
            lemma_replace_absent_identity(message, s, marker());
        }
    }
}

/// Replacing a pattern that does not occur changes nothing.
proof fn lemma_replace_absent_identity(s: Seq<char>, p: Seq<char>, r: Seq<char>)
    requires
        p.len() > 0,
        !contains(s, p),
    ensures
        replace_all(s, p, r) == s,
    decreases s.len(),
{
    if s.len() >= p.len() {
        assert(s.take(p.len() as int) =~= s.subrange(0, p.len() as int));
        assert(!occurs_at(s, p, 0));
        let tail = s.drop_first();
        assert forall|i: int| !occurs_at(tail, p, i) by {
            if occurs_at(tail, p, i) {
                assert(s.subrange(i + 1, i + 1 + p.len()) =~= tail.subrange(i, i + p.len()));
                assert(occurs_at(s, p, i + 1));
            }
        }
        lemma_replace_absent_identity(tail, p, r);
        assert(seq![s[0]] + tail =~= s);
    }
}

/// What `Display` writes for an HTTP status code: the number and its canonical reason.
pub uninterp spec fn http_status_text(code: u16) -> Seq<char>;

/// The status line text of `reqwest::StatusCode` for `code` (`"401 Unauthorized"`):
/// its `Display` writes the number in decimal, a space, then the reason, which is left
/// unsaid here beyond its name.
#[verifier::external_body]
pub(crate) fn status_text(code: u16) -> (r: String)
    requires
        100 <= code <= 999,
    ensures
        r@ == http_status_text(code),
        crate::text::starts_with(r@, crate::text::decimal(code as nat) + " "@),
{
    match reqwest::StatusCode::from_u16(code) {
        Ok(s) => s.to_string(),
        Err(_) => String::new(),
    }
}

/// The message for a failed HTTP status: session wording for 401 and 403.
pub open spec fn http_status_message(provider: Seq<char>, code: u16) -> Seq<char> {
    if code == 401 || code == 403 {
        provider + ": session expired or rejected (HTTP "@ + http_status_text(code) + ")"@
    } else {
        provider + ": upstream HTTP "@ + http_status_text(code)
    }
}

/// Maps an HTTP status to a model error without response bodies, secrets redacted.
pub fn map_http_status(provider: &str, status: u16, secrets: &[String]) -> (r: ModelError)
    requires
        100 <= status <= 999,
    ensures
        r.message@ == redacted(http_status_message(provider@, status), views(secrets@)),
{
    let st = status_text(status);
    let raw = if status == 401 || status == 403 {
        String::from_str(provider).concat(": session expired or rejected (HTTP ").concat(
            st.as_str(),
        ).concat(")")
    } else {
        String::from_str(provider).concat(": upstream HTTP ").concat(st.as_str())
    };
    ModelError::new(redact_secrets(raw.as_str(), secrets))
}

} // verus!
