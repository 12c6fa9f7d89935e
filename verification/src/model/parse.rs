//! Text extraction from consumer-web JSON payloads and SSE bodies.

use crate::json::{as_str, at, at_exec, get, get_exec, get_str, get_str_exec, parse_json, serde_parse, str_of, Json};
use crate::text::{chars_of, lines, lines_exec, opt_view, skip_exec, starts_with, starts_with_seq, string_of, trim, trim_end_char, trim_end_char_exec, trim_exec};
use vstd::prelude::*;

verus! {

/// A text, kept only when non-empty.
pub open spec fn nonempty_text(o: Option<Seq<char>>) -> Option<Seq<char>> {
    match o {
        Some(s) => if s.len() > 0 {
            Some(s)
        } else {
            None
        },
        None => None,
    }
}

/// The text of an optional value that is a JSON string.
pub open spec fn opt_str(o: Option<Json>) -> Option<Seq<char>> {
    match o {
        Some(v) => str_of(v),
        None => None,
    }
}

/// `j[a][b]` through objects.
pub open spec fn get2(j: Json, a: Seq<char>, b: Seq<char>) -> Option<Json> {
    match get(j, a) {
        Some(x) => get(x, b),
        None => None,
    }
}

/// `j[a][b][c]` through objects.
pub open spec fn get3(j: Json, a: Seq<char>, b: Seq<char>, c: Seq<char>) -> Option<Json> {
    match get2(j, a, b) {
        Some(x) => get(x, c),
        None => None,
    }
}

/// The JSON-pointer step `0`: element 0 of an array, member `"0"` of an object.
pub open spec fn step_zero(j: Json) -> Option<Json> {
    match j {
        Json::Array(_) => at(j, 0),
        Json::Object(_) => get(j, "0"@),
        _ => None,
    }
}

/// `message.content.parts[0]` when it is a string.
pub open spec fn first_part_text(v: Json) -> Option<Seq<char>> {
    match get3(v, "message"@, "content"@, "parts"@) {
        Some(Json::Array(items)) => if items@.len() > 0 {
            str_of(items@[0])
        } else {
            None
        },
        _ => None,
    }
}

/// `choices[0].delta.content` when it is a string.
pub open spec fn choice_delta_text(v: Json) -> Option<Seq<char>> {
    match get(v, "choices"@) {
        Some(c) => match step_zero(c) {
            Some(z) => opt_str(get2(z, "delta"@, "content"@)),
            None => None,
        },
        None => None,
    }
}

/// The assistant text of a consumer-web event: the first non-empty of
/// `message.content.parts[0]`, `delta`, `delta.content`, `choices[0].delta.content`,
/// `v`, `content`, `message.content` and `result.message`.
pub open spec fn text_delta(v: Json) -> Option<Seq<char>> {
    if nonempty_text(first_part_text(v)) is Some {
        first_part_text(v)
    } else if nonempty_text(get_str(v, "delta"@)) is Some {
        get_str(v, "delta"@)
    } else if nonempty_text(opt_str(get2(v, "delta"@, "content"@))) is Some {
        opt_str(get2(v, "delta"@, "content"@))
    } else if nonempty_text(choice_delta_text(v)) is Some {
        choice_delta_text(v)
    } else if nonempty_text(get_str(v, "v"@)) is Some {
        get_str(v, "v"@)
    } else if nonempty_text(get_str(v, "content"@)) is Some {
        get_str(v, "content"@)
    } else if nonempty_text(opt_str(get2(v, "message"@, "content"@))) is Some {
        opt_str(get2(v, "message"@, "content"@))
    } else {
        nonempty_text(opt_str(get2(v, "result"@, "message"@)))
    }
}

/// The event carries a cumulative snapshot (`message.content.parts` present).
pub open spec fn is_snapshot(v: Json) -> bool {
    get3(v, "message"@, "content"@, "parts"@) is Some
}

/// The JSON text of an SSE `data:` line, unless it is empty or `[DONE]`.
pub open spec fn sse_data(line: Seq<char>) -> Option<Seq<char>> {
    let l = trim_end_char(line, '\r');
    if starts_with(l, "data:"@) {
        let d = trim(l.skip(5));
        if d.len() == 0 || d == "[DONE]"@ {
            None
        } else {
            Some(d)
        }
    } else {
        None
    }
}

/// Deltas so far and the last cumulative snapshot.
pub type SseState = (Seq<Seq<char>>, Option<Seq<char>>);

/// One line of an SSE body applied to the state.
pub open spec fn sse_step(st: SseState, line: Seq<char>) -> SseState {
    match sse_data(line) {
        None => st,
        Some(d) => match serde_parse(d) {
            Err(_) => st,
            Ok(v) => match text_delta(v) {
                None => st,
                Some(t) => if is_snapshot(v) {
                    match st.1 {
                        Some(prev) => if t == prev {
                            st
                        } else if starts_with(t, prev) {
                            (st.0.push(t.skip(prev.len() as int)), Some(t))
                        } else {
                            (st.0.push(t), Some(t))
                        },
                        None => (st.0.push(t), Some(t)),
                    }
                } else {
                    (st.0.push(t), st.1)
                },
            },
        },
    }
}

/// The state after the given lines.
pub open spec fn sse_fold(ls: Seq<Seq<char>>) -> SseState
    decreases ls.len(),
{
    if ls.len() == 0 {
        (Seq::empty(), None)
    } else {
        sse_step(sse_fold(ls.drop_last()), ls.last())
    }
}

/// The ordered text deltas of an SSE body.
pub open spec fn sse_deltas(body: Seq<char>) -> Seq<Seq<char>> {
    sse_fold(lines(body)).0
}

/// The texts of a list, one after another.
pub open spec fn concat_texts(ts: Seq<Seq<char>>) -> Seq<char>
    decreases ts.len(),
{
    if ts.len() == 0 {
        Seq::empty()
    } else {
        concat_texts(ts.drop_last()) + ts.last()
    }
}

/// An SSE line carrying a cumulative snapshot whose text is `t`.
pub open spec fn snapshot_line(line: Seq<char>, t: Seq<char>) -> bool {
    sse_data(line) matches Some(d) && serde_parse(d) matches Ok(v) && is_snapshot(v) && text_delta(
        v,
    ) == Some(t)
}

/// A stream of cumulative snapshots, each extending the one before it, reads as its
/// last snapshot: the deltas, one after another, spell out exactly the final text
/// (each delta is what a snapshot adds to the snapshot right before it).
pub proof fn lemma_snapshots_spell_last(ls: Seq<Seq<char>>, snaps: Seq<Seq<char>>)
    requires
        ls.len() == snaps.len(),
        ls.len() > 0,
        forall|i: int| 0 <= i < ls.len() ==> snapshot_line(#[trigger] ls[i], snaps[i]),
        forall|i: int| 0 < i < snaps.len() ==> starts_with(#[trigger] snaps[i], snaps[i - 1]),
    ensures
        concat_texts(sse_fold(ls).0) == snaps.last(),
        sse_fold(ls).1 == Some(snaps.last()),
    decreases ls.len(),
{
    let n = ls.len() as int;
    let t = snaps[n - 1];
    assert(snapshot_line(ls[n - 1], t));
    assert(ls.last() == ls[n - 1]);
    if n == 1 {
        assert(ls.drop_last() =~= Seq::<Seq<char>>::empty());
        let st = sse_fold(ls);
        let e: SseState = (Seq::empty(), None);
        assert(sse_fold(ls.drop_last()) == e);
        assert(st == sse_step(e, ls[0]));
        assert(st == (e.0.push(t), Some(t)));
        assert(st.0 =~= seq![t]);
        assert(st.0.drop_last() =~= Seq::<Seq<char>>::empty());
        assert(concat_texts(st.0.drop_last()) == Seq::<char>::empty());
        assert(st.0.last() == t);
        assert(concat_texts(st.0) =~= t);
    } else {
        let lp = ls.drop_last();
        let sp = snaps.drop_last();
        assert forall|i: int| 0 <= i < lp.len() implies snapshot_line(#[trigger] lp[i], sp[i]) by {
            assert(lp[i] == ls[i] && sp[i] == snaps[i]);
        }
        assert forall|i: int| 0 < i < sp.len() implies starts_with(#[trigger] sp[i], sp[i - 1]) by {
            assert(sp[i] == snaps[i] && sp[i - 1] == snaps[i - 1]);
        }
        lemma_snapshots_spell_last(lp, sp);
        let prev = sp.last();
        assert(prev == snaps[n - 2]);
        assert(starts_with(snaps[n - 1], snaps[n - 2]));
        let st = sse_fold(lp);
        assert(sse_fold(ls) == sse_step(st, ls[n - 1]));
        if t == prev {
        } else {
            let d = t.skip(prev.len() as int);
            assert(sse_fold(ls).0 == st.0.push(d));
            assert(sse_fold(ls).0.drop_last() =~= st.0);
            assert(prev + d =~= t);
        }
    }
}

/// An SSE line carrying a text delta `t` that is not a snapshot.
pub open spec fn delta_line(line: Seq<char>, t: Seq<char>) -> bool {
    sse_data(line) matches Some(d) && serde_parse(d) matches Ok(v) && !is_snapshot(v)
        && text_delta(v) == Some(t)
}

/// Pure deltas come out as they came in, in order, and leave the last snapshot alone;
/// lines that carry no event (comments, `event:` lines, `[DONE]`) change nothing.
pub proof fn lemma_pure_deltas_in_order(ls: Seq<Seq<char>>, ts: Seq<Seq<char>>, line: Seq<char>, st: SseState)
    requires
        ls.len() == ts.len(),
        forall|i: int| 0 <= i < ls.len() ==> delta_line(#[trigger] ls[i], ts[i]),
    ensures
        sse_fold(ls).0 == ts,
        sse_fold(ls).1 is None,
        sse_data(line) is None ==> sse_step(st, line) == st,
    decreases ls.len(),
{
    if ls.len() > 0 {
        let n = ls.len() as int;
        let lp = ls.drop_last();
        let tp = ts.drop_last();
        assert forall|i: int| 0 <= i < lp.len() implies delta_line(#[trigger] lp[i], tp[i]) by {
            assert(lp[i] == ls[i] && tp[i] == ts[i]);
        }
        lemma_pure_deltas_in_order(lp, tp, line, st);
        assert(delta_line(ls[n - 1], ts[n - 1]));
        assert(ls.last() == ls[n - 1]);
        assert(sse_fold(ls) == sse_step(sse_fold(lp), ls[n - 1]));
        assert(tp.push(ts[n - 1]) =~= ts);
    } else {
        assert(ts =~= Seq::<Seq<char>>::empty());
    }
}

fn get2_exec<'a>(j: &'a Json, a: &str, b: &str) -> (r: Option<&'a Json>)
    ensures
        r matches Some(x) ==> get2(*j, a@, b@) == Some(*x),
        r is None ==> get2(*j, a@, b@) is None,
{
    match get_exec(j, a) {
        Some(x) => get_exec(x, b),
        None => None,
    }
}

fn opt_str_exec(o: Option<&Json>) -> (r: Option<&String>)
    ensures
        r matches Some(s) ==> o matches Some(v) && opt_str(Some(*v)) == Some(s@),
        r is None ==> (o matches Some(v) ==> opt_str(Some(*v)) is None),
{
    match o {
        Some(v) => as_str(v),
        None => None,
    }
}

fn first_part_exec(v: &Json) -> (r: Option<&String>)
    ensures
        opt_view(match r {
            Some(s) => Some(*s),
            None => None,
        }) == first_part_text(*v),
{
    let x = match get_exec(v, "message") {
        Some(x) => x,
        None => return None,
    };
    let y = match get_exec(x, "content") {
        Some(y) => y,
        None => return None,
    };
    match get_exec(y, "parts") {
        Some(Json::Array(items)) => if items.len() > 0 {
            as_str(&items[0])
        } else {
            None
        },
        _ => None,
    }
}

fn choice_delta_exec(v: &Json) -> (r: Option<&String>)
    ensures
        opt_view(match r {
            Some(s) => Some(*s),
            None => None,
        }) == choice_delta_text(*v),
{
    let c = match get_exec(v, "choices") {
        Some(c) => c,
        None => return None,
    };
    let z = match c {
        Json::Array(_) => at_exec(c, 0),
        Json::Object(_) => get_exec(c, "0"),
        _ => None,
    };
    match z {
        Some(z) => opt_str_exec(get2_exec(z, "delta", "content")),
        None => None,
    }
}

fn take_nonempty(o: Option<&String>) -> (r: Option<String>)
    ensures
        opt_view(r) == nonempty_text(opt_view(
            match o {
                Some(s) => Some(*s),
                None => None,
            },
        )),
{
    match o {
        Some(s) => if s.as_str().is_empty() {
            None
        } else {
            Some(s.clone())
        },
        None => None,
    }
}

/// The assistant text of a consumer-web event, if it carries any.
pub fn extract_text_delta(value: &Json) -> (r: Option<String>)
    ensures
        opt_view(r) == text_delta(*value),
{
    let c = take_nonempty(first_part_exec(value));
    if c.is_some() {
        return c;
    }
    let c = take_nonempty(get_str_exec(value, "delta"));
    if c.is_some() {
        return c;
    }
    let c = take_nonempty(opt_str_exec(get2_exec(value, "delta", "content")));
    if c.is_some() {
        return c;
    }
    let c = take_nonempty(choice_delta_exec(value));
    if c.is_some() {
        return c;
    }
    let c = take_nonempty(get_str_exec(value, "v"));
    if c.is_some() {
        return c;
    }
    let c = take_nonempty(get_str_exec(value, "content"));
    if c.is_some() {
        return c;
    }
    let c = take_nonempty(opt_str_exec(get2_exec(value, "message", "content")));
    if c.is_some() {
        return c;
    }
    take_nonempty(opt_str_exec(get2_exec(value, "result", "message")))
}


/// `choices[0].message.content` when it is a string.
pub open spec fn choice_message_text(v: Json) -> Option<Seq<char>> {
    match get(v, "choices"@) {
        Some(c) => match step_zero(c) {
            Some(z) => opt_str(get2(z, "message"@, "content"@)),
            None => None,
        },
        None => None,
    }
}

/// The full content of a non-streamed JSON body.
pub open spec fn json_content(body: Seq<char>) -> Option<Seq<char>> {
    match serde_parse(body) {
        Err(_) => None,
        Ok(v) => match text_delta(v) {
            Some(t) => Some(t),
            None => choice_message_text(v),
        },
    }
}

fn choice_message_exec(v: &Json) -> (r: Option<&String>)
    ensures
        opt_view(match r {
            Some(s) => Some(*s),
            None => None,
        }) == choice_message_text(*v),
{
    let c = match get_exec(v, "choices") {
        Some(c) => c,
        None => return None,
    };
    let z = match c {
        Json::Array(_) => at_exec(c, 0),
        Json::Object(_) => get_exec(c, "0"),
        _ => None,
    };
    match z {
        Some(z) => opt_str_exec(get2_exec(z, "message", "content")),
        None => None,
    }
}

/// The full content of a non-streamed JSON body, if it parses and carries text.
pub fn parse_json_content(body: &str) -> (r: Option<String>)
    ensures
        opt_view(r) == json_content(body@),
{
    let value = match parse_json(body) {
        Ok(v) => v,
        Err(_) => return None,
    };
    match extract_text_delta(&value) {
        Some(t) => Some(t),
        None => match choice_message_exec(&value) {
            Some(s) => Some(s.clone()),
            None => None,
        },
    }
}

fn is_snapshot_exec(v: &Json) -> (r: bool)
    ensures
        r == is_snapshot(*v),
{
    match get2_exec(v, "message", "content") {
        Some(x) => get_exec(x, "parts").is_some(),
        None => false,
    }
}

pub(crate) fn sse_data_exec(line: &[char]) -> (r: Option<String>)
    ensures
        opt_view(r) == sse_data(line@),
{
    let l = trim_end_char_exec(line, '\r');
    let prefix = chars_of("data:");
    proof {
        reveal_strlit("data:");
    }
    if !starts_with_seq(l.as_slice(), prefix.as_slice()) {
        return None;
    }
    let rest = skip_exec(l.as_slice(), 5);
    let d = trim_exec(rest.as_slice());
    let done = chars_of("[DONE]");
    if d.len() == 0 || crate::text::seq_eq(d.as_slice(), done.as_slice()) {
        return None;
    }
    Some(string_of(d.as_slice()))
}

/// Ordered text deltas of an SSE body (or newline-delimited `data:` lines):
/// pure deltas are kept as they come, cumulative snapshots contribute only the
/// text they add to the previous snapshot.
pub fn parse_sse_text_deltas(body: &str) -> (r: Vec<String>)
    ensures
        r@.map_values(|s: String| s@) == sse_deltas(body@),
{
    let chars = chars_of(body);
    let ls = lines_exec(chars.as_slice());
    let ghost lv = ls@.map_values(|v: Vec<char>| v@);
    let mut deltas: Vec<String> = Vec::new();
    let mut last: Option<Vec<char>> = None;
    let mut i: usize = 0;
    while i < ls.len()
        invariant
            i <= ls@.len(),
            lv == ls@.map_values(|v: Vec<char>| v@),
            lv == lines(body@),
            (deltas@.map_values(|s: String| s@), match last {
                Some(v) => Some(v@),
                None => None,
            }) == sse_fold(lv.take(i as int)),
        decreases ls@.len() - i,
    {
        assert(lv.take(i + 1).drop_last() =~= lv.take(i as int));
        assert(lv.take(i + 1).last() == ls@[i as int]@);
        let ghost st = sse_fold(lv.take(i as int));
        let ghost old_deltas = deltas@;
        let line = &ls[i];
        i = i + 1;
        let data = match sse_data_exec(line.as_slice()) {
            Some(d) => d,
            None => continue,
        };
        let value = match parse_json(data.as_str()) {
            Ok(v) => v,
            Err(_) => continue,
        };
        let text = match extract_text_delta(&value) {
            Some(t) => t,
            None => continue,
        };
        if is_snapshot_exec(&value) {
            let tc = chars_of(text.as_str());
            let mut push_whole = true;
            match &last {
                Some(prev) => {
                    if crate::text::seq_eq(tc.as_slice(), prev.as_slice()) {
                        continue;
                    }
                    if starts_with_seq(tc.as_slice(), prev.as_slice()) {
                        let tail = skip_exec(tc.as_slice(), prev.len());
                        deltas.push(string_of(tail.as_slice()));
                        push_whole = false;
                    }
                },
                None => {},
            }
            if push_whole {
                deltas.push(text);
            }
            last = Some(tc);
        } else {
            deltas.push(text);
        }
        assert(deltas@.map_values(|s: String| s@) =~= sse_fold(lv.take(i as int)).0);
    }
    assert(lv.take(ls@.len() as int) =~= lv);
    deltas
}

} // verus!
