//! MCP tool naming and the Content-Length framing of stdio messages.

use crate::text::{
    chars_of, contains, decimal, digit_char, find_char, first_index, has_char, is_whitespace, lemma_first_index,
    lemma_first_index_none, lines, occurs_at, push_decimal, split, starts_with, starts_with_seq, trim,
    trim_end, trim_start,
};
use vstd::prelude::*;
use vstd::string::{StrSliceExecFns, StringSliceAdditionalSpecFns};
use vstd::utf8::{decode_utf8, encode_utf8, is_ascii_chars, valid_utf8};

verus! {

/// The prefix of every namespaced MCP tool.
pub const MCP_NAMESPACE_PREFIX: &'static str = "mcp.";

/// The MCP protocol revision this client speaks.
pub const PROTOCOL_VERSION: &'static str = "2024-11-05";

/// `mcp.<server_id>.<local_name>`.
pub open spec fn namespaced(server_id: Seq<char>, local_name: Seq<char>) -> Seq<char> {
    "mcp."@ + server_id + "."@ + local_name
}

/// Build `mcp.<server_id>.<tool_name>`.
pub fn namespaced_tool_name(server_id: &str, local_name: &str) -> (r: String)
    ensures
        r@ == namespaced(server_id@, local_name@),
{
    String::from_str("mcp.").concat(server_id).concat(".").concat(local_name)
}

/// The server id and local name of a namespaced tool: after `mcp.`, split at the
/// first `.`; both parts must be non-empty (the local name may hold dots).
pub open spec fn parse_namespaced(full: Seq<char>) -> Option<(Seq<char>, Seq<char>)> {
    if starts_with(full, "mcp."@) {
        let rest = full.skip("mcp."@.len() as int);
        match first_index(rest, '.') {
            Some(i) => if i == 0 || i + 1 == rest.len() {
                None
            } else {
                Some((rest.take(i), rest.skip(i + 1)))
            },
            None => None,
        }
    } else {
        None
    }
}

/// Parse `mcp.<server_id>.<tool_name>` into (server_id, local_name).
pub fn parse_namespaced_tool(full: &str) -> (r: Option<(&str, &str)>)
    ensures
        match r {
            Some((a, b)) => parse_namespaced(full@) == Some((a@, b@)),
            None => parse_namespaced(full@) is None,
        },
{
    proof {
        reveal_strlit("mcp.");
    }
    let cs = chars_of(full);
    let p = chars_of("mcp.");
    if !starts_with_seq(cs.as_slice(), p.as_slice()) {
        return None;
    }
    let ghost rest = full@.skip(4);
    let mut tail: Vec<char> = Vec::new();
    let mut k: usize = 4;
    while k < cs.len()
        invariant
            4 <= k <= cs@.len(),
            cs@ == full@,
            tail@ == full@.subrange(4, k as int),
        decreases cs@.len() - k,
    {
        tail.push(cs[k]);
        k = k + 1;
        assert(tail@ =~= full@.subrange(4, k as int));
    }
    assert(tail@ =~= rest);
    match find_char(tail.as_slice(), '.') {
        None => {
            proof {
                lemma_first_index_none(rest, '.');
            }
            None
        },
        Some(i) => {
            proof {
                lemma_first_index(rest, '.', i as int);
            }
            if i == 0 || i + 1 == tail.len() {
                None
            } else {
                let a = full.substring_char(4, 4 + i);
                let b = full.substring_char(4 + i + 1, cs.len());
                assert(a@ =~= rest.take(i as int));
                assert(b@ =~= rest.skip(i + 1));
                Some((a, b))
            }
        },
    }
}

/// Naming a tool and parsing the name gives back the server id and the local name,
/// for a non-empty server id without dots and a non-empty local name.
pub proof fn lemma_namespace_roundtrip(server_id: Seq<char>, local_name: Seq<char>)
    requires
        server_id.len() > 0,
        local_name.len() > 0,
        !has_char(server_id, '.'),
    ensures
        parse_namespaced(namespaced(server_id, local_name)) == Some((server_id, local_name)),
{
    reveal_strlit("mcp.");
    reveal_strlit(".");
    let full = namespaced(server_id, local_name);
    assert(full.take(4) =~= "mcp."@);
    let rest = full.skip(4);
    assert(rest =~= server_id + "."@ + local_name);
    let i = server_id.len() as int;
    assert(rest[i] == '.');
    assert forall|j: int| 0 <= j < i implies rest[j] != '.' by {
        assert(rest[j] == server_id[j]);
    }
    lemma_first_index(rest, '.', i);
    assert(rest.take(i) =~= server_id);
    assert(rest.skip(i + 1) =~= local_name);
}

/// A name that parses is the namespaced form of its parts.
pub proof fn lemma_parsed_name_is_namespaced(full: Seq<char>)
    requires
        parse_namespaced(full) is Some,
    ensures
        ({
            let (a, b) = parse_namespaced(full)->Some_0;
            &&& namespaced(a, b) == full
            &&& a.len() > 0
            &&& b.len() > 0
            &&& !has_char(a, '.')
        }),
{
    reveal_strlit("mcp.");
    reveal_strlit(".");
    let rest = full.skip(4);
    let i = first_index(rest, '.')->Some_0;
    lemma_first_index_spec(rest, '.');
    assert(namespaced(rest.take(i), rest.skip(i + 1)) =~= full);
}

/// What `first_index` finds is the first `c`.
proof fn lemma_first_index_spec(s: Seq<char>, c: char)
    ensures
        match first_index(s, c) {
            Some(i) => 0 <= i < s.len() && s[i] == c && forall|j: int| 0 <= j < i ==> s[j] != c,
            None => !has_char(s, c),
        },
    decreases s.len(),
{
    if s.len() > 0 {
        lemma_first_index_spec(s.drop_first(), c);
        if s[0] != c {
            match first_index(s.drop_first(), c) {
                Some(i) => {
                    assert forall|j: int| 0 <= j < i + 1 implies s[j] != c by {
                        if j > 0 {
                            assert(s[j] == s.drop_first()[j - 1]);
                        }
                    }
                },
                None => {
                    assert forall|j: int| 0 <= j < s.len() implies s[j] != c by {
                        if j > 0 {
                            assert(s[j] == s.drop_first()[j - 1]);
                        }
                    }
                },
            }
        }
    }
}

/// ASCII text as bytes, one per character.
pub open spec fn ascii_bytes(s: Seq<char>) -> Seq<u8> {
    s.map_values(|c: char| c as u8)
}

/// The header that frames a body of `len` bytes.
pub open spec fn frame_header(len: nat) -> Seq<char> {
    "Content-Length: "@ + decimal(len) + "\r\n\r\n"@
}

/// A body framed for the stdio transport: its Content-Length header, then the body.
pub open spec fn framed(body: Seq<u8>) -> Seq<u8> {
    ascii_bytes(frame_header(body.len())) + body
}

/// Content-Length framed MCP message (stdio).
pub fn encode_framed(body: &str) -> (r: Vec<u8>)
    ensures
        r@ == framed(body.spec_bytes()),
{
    let bytes = body.as_bytes();
    let mut head = chars_of("Content-Length: ");
    push_decimal(&mut head, bytes.len() as u64);
    let end = chars_of("\r\n\r\n");
    let mut k: usize = 0;
    let ghost h0 = head@;
    while k < end.len()
        invariant
            k <= end@.len(),
            head@ == h0 + end@.take(k as int),
        decreases end@.len() - k,
    {
        head.push(end[k]);
        k = k + 1;
        assert(head@ =~= h0 + end@.take(k as int));
    }
    assert(end@.take(end@.len() as int) =~= end@);
    assert(head@ == frame_header(body.spec_bytes().len()));
    let mut out: Vec<u8> = Vec::new();
    let mut i: usize = 0;
    while i < head.len()
        invariant
            i <= head@.len(),
            out@ == ascii_bytes(head@.take(i as int)),
        decreases head@.len() - i,
    {
        let c = head[i];
        out.push(c as u8);
        i = i + 1;
        assert(out@ =~= ascii_bytes(head@.take(i as int)));
    }
    assert(head@.take(head@.len() as int) =~= head@);
    let ghost o0 = out@;
    let mut j: usize = 0;
    while j < bytes.len()
        invariant
            j <= bytes@.len(),
            out@ == o0 + bytes@.take(j as int),
        decreases bytes@.len() - j,
    {
        out.push(bytes[j]);
        j = j + 1;
        assert(out@ =~= o0 + bytes@.take(j as int));
    }
    assert(bytes@.take(bytes@.len() as int) =~= bytes@);
    out
}

/// What `String::from_utf8_lossy` makes of bytes that are not valid UTF-8.
pub uninterp spec fn lossy_utf8(bytes: Seq<u8>) -> Seq<char>;

/// The text of some bytes: their decoding when they are valid UTF-8, else the lossy
/// decoding with replacement characters.
pub open spec fn utf8_text(bytes: Seq<u8>) -> Seq<char> {
    if valid_utf8(bytes) {
        decode_utf8(bytes)
    } else {
        lossy_utf8(bytes)
    }
}

/// The text of some bytes, invalid sequences replaced (`String::from_utf8_lossy`).
#[verifier::external_body]
pub(crate) fn text_of_bytes(bytes: &[u8]) -> (r: String)
    ensures
        r@ == (if valid_utf8(bytes@) {
            decode_utf8(bytes@)
        } else {
            lossy_utf8(bytes@)
        }),
{
    String::from_utf8_lossy(bytes).into_owned()
}

/// `pat` occurs in `buf` at `i`.
pub open spec fn occurs_bytes_at(buf: Seq<u8>, pat: Seq<u8>, i: int) -> bool {
    0 <= i && i + pat.len() <= buf.len() && buf.subrange(i, i + pat.len()) == pat
}

/// The first occurrence of `pat` in `buf` at or after `i`.
pub open spec fn find_bytes_from(buf: Seq<u8>, pat: Seq<u8>, i: int) -> Option<int>
    decreases buf.len() + 1 - i,
{
    if i < 0 || i + pat.len() > buf.len() {
        None
    } else if occurs_bytes_at(buf, pat, i) {
        Some(i)
    } else {
        find_bytes_from(buf, pat, i + 1)
    }
}

/// The header/body separator of a frame.
pub open spec fn crlf_crlf() -> Seq<u8> {
    seq![13u8, 10u8, 13u8, 10u8]
}

/// The separator accepted from lenient peers.
pub open spec fn lf_lf() -> Seq<u8> {
    seq![10u8, 10u8]
}

fn find_bytes(buf: &[u8], pat: &Vec<u8>) -> (r: Option<usize>)
    requires
        pat@.len() > 0,
    ensures
        match r {
            Some(i) => find_bytes_from(buf@, pat@, 0) == Some(i as int),
            None => find_bytes_from(buf@, pat@, 0) is None,
        },
{
    let mut i: usize = 0;
    while i < buf.len() && pat.len() <= buf.len() - i
        invariant
            i <= buf@.len(),
            find_bytes_from(buf@, pat@, 0) == find_bytes_from(buf@, pat@, i as int),
        decreases buf@.len() - i,
    {
        let mut k: usize = 0;
        let mut same = true;
        while k < pat.len()
            invariant
                i + pat@.len() <= buf@.len(),
                buf@.len() == buf.len(),
                k <= pat@.len(),
                same == forall|j: int| 0 <= j < k ==> buf@[i + j] == pat@[j],
            decreases pat@.len() - k,
        {
            if buf[i + k] != pat[k] {
                same = false;
            }
            k = k + 1;
        }
        if same {
            assert(buf@.subrange(i as int, i + pat@.len()) =~= pat@);
            return Some(i);
        }
        assert(!occurs_bytes_at(buf@, pat@, i as int)) by {
            if occurs_bytes_at(buf@, pat@, i as int) {
                assert forall|j: int| 0 <= j < pat@.len() implies buf@[i + j] == pat@[j] by {
                    assert(buf@.subrange(i as int, i + pat@.len())[j] == buf@[i + j]);
                }
            }
        }
        i = i + 1;
    }
    None
}

/// The value of a run of decimal digits, read left to right as the standard unsigned
/// `from_str` does for a type whose largest value is `max`; the error is the text of
/// the `ParseIntError`.
pub open spec fn digits_value(ds: Seq<char>, max: nat) -> Result<nat, Seq<char>>
    decreases ds.len(),
{
    if ds.len() == 0 {
        Ok(0)
    } else {
        match digits_value(ds.drop_last(), max) {
            Err(e) => Err(e),
            Ok(v) => {
                let c = ds.last();
                if !('0' <= c && c <= '9') {
                    Err("invalid digit found in string"@)
                } else if v * 10 + (c as int - 48) > max {
                    Err("number too large to fit in target type"@)
                } else {
                    Ok((v * 10 + (c as int - 48)) as nat)
                }
            },
        }
    }
}

/// An error in reading a prefix of the digits is the error of the whole run.
proof fn lemma_digits_error_sticks(ds: Seq<char>, max: nat, k: int)
    requires
        0 <= k <= ds.len(),
        digits_value(ds.take(k), max) is Err,
    ensures
        digits_value(ds, max) == digits_value(ds.take(k), max),
    decreases ds.len() - k,
{
    if k < ds.len() {
        assert(ds.take(k + 1).drop_last() =~= ds.take(k));
        lemma_digits_error_sticks(ds, max, k + 1);
    } else {
        assert(ds.take(k) =~= ds);
    }
}

/// The standard unsigned `from_str` for a type whose largest value is `max`: an
/// optional `+`, then decimal digits.
pub open spec fn parse_unsigned(s: Seq<char>, max: nat) -> Result<nat, Seq<char>> {
    if s.len() == 0 {
        Err("cannot parse integer from empty string"@)
    } else if s[0] == '+' && s.len() == 1 {
        Err("invalid digit found in string"@)
    } else if s[0] == '+' {
        digits_value(s.drop_first(), max)
    } else {
        digits_value(s, max)
    }
}

/// `usize::from_str`.
pub open spec fn parse_usize(s: Seq<char>) -> Result<nat, Seq<char>> {
    parse_unsigned(s, usize::MAX as nat)
}

/// `u64::from_str`.
pub open spec fn parse_u64(s: Seq<char>) -> Result<nat, Seq<char>> {
    parse_unsigned(s, u64::MAX as nat)
}

/// Parse an unsigned decimal no larger than `max`, as the standard `from_str` does.
pub fn parse_unsigned_exec(s: &[char], max: u64) -> (r: Result<u64, String>)
    ensures
        match r {
            Ok(n) => parse_unsigned(s@, max as nat) == Ok::<nat, Seq<char>>(n as nat),
            Err(e) => parse_unsigned(s@, max as nat) == Err::<nat, Seq<char>>(e@),
        },
{
    if s.len() == 0 {
        return Err(String::from_str("cannot parse integer from empty string"));
    }
    if s[0] == '+' && s.len() == 1 {
        return Err(String::from_str("invalid digit found in string"));
    }
    let start: usize = if s[0] == '+' {
        1
    } else {
        0
    };
    let ghost ds = s@.skip(start as int);
    assert(s[0] == '+' ==> ds =~= s@.drop_first());
    assert(s[0] != '+' ==> ds =~= s@);
    let mut v: u64 = 0;
    let mut i: usize = start;
    assert(ds.take(0) =~= Seq::<char>::empty());
    while i < s.len()
        invariant
            start <= i <= s@.len(),
            ds == s@.skip(start as int),
            parse_unsigned(s@, max as nat) == digits_value(ds, max as nat),
            digits_value(ds.take(i - start), max as nat) == Ok::<nat, Seq<char>>(v as nat),
            v <= max,
        decreases s@.len() - i,
    {
        let c = s[i];
        let ghost pre = ds.take(i - start);
        let ghost cur = ds.take(i - start + 1);
        assert(cur.drop_last() =~= pre);
        assert(cur.last() == c);
        if !('0' <= c && c <= '9') {
            proof {
                lemma_digits_error_sticks(ds, max as nat, i - start + 1);
            }
            return Err(String::from_str("invalid digit found in string"));
        }
        let d = ((c as u8) - 48) as u64;
        assert(d == c as int - 48);
        if d > max || v > (max - d) / 10 {
            assert(v * 10 + d > max) by (nonlinear_arith)
                requires
                    d > max || v > (max - d) / 10,
                    d <= 9,
            {
            }
            proof {
                lemma_digits_error_sticks(ds, max as nat, i - start + 1);
            }
            return Err(String::from_str("number too large to fit in target type"));
        }
        assert(v * 10 + d <= max) by (nonlinear_arith)
            requires
                d <= max,
                v <= (max - d) / 10,
        {
        }
        v = v * 10 + d;
        i = i + 1;
    }
    assert(ds.take(i - start) =~= ds);
    Ok(v)
}

/// Parse an unsigned decimal as `usize::from_str` does.
pub fn parse_usize_exec(s: &[char]) -> (r: Result<usize, String>)
    ensures
        match r {
            Ok(n) => parse_usize(s@) == Ok::<nat, Seq<char>>(n as nat),
            Err(e) => parse_usize(s@) == Err::<nat, Seq<char>>(e@),
        },
{
    match parse_unsigned_exec(s, usize::MAX as u64) {
        Ok(n) => Ok(n as usize),
        Err(e) => Err(e),
    }
}

/// Parse an unsigned decimal as `u64::from_str` does.
pub fn parse_u64_exec(s: &[char]) -> (r: Result<u64, String>)
    ensures
        match r {
            Ok(n) => parse_u64(s@) == Ok::<nat, Seq<char>>(n as nat),
            Err(e) => parse_u64(s@) == Err::<nat, Seq<char>>(e@),
        },
{
    parse_unsigned_exec(s, u64::MAX)
}

/// The value of a `Content-Length` header line (already trimmed), if it is one.
pub open spec fn length_header_value(line: Seq<char>) -> Option<Seq<char>> {
    if starts_with(line, "Content-Length:"@) || starts_with(line, "content-length:"@) {
        Some(line.skip(15))
    } else {
        None
    }
}

/// The Content-Length read from the first header line that carries one.
pub open spec fn length_from_lines(ls: Seq<Seq<char>>) -> Result<nat, Seq<char>>
    decreases ls.len(),
{
    if ls.len() == 0 {
        Err("MCP frame missing Content-Length"@)
    } else {
        match length_header_value(trim(ls[0])) {
            Some(rest) => match parse_usize(trim(rest)) {
                Ok(n) => Ok(n),
                Err(e) => Err("invalid Content-Length: "@ + e),
            },
            None => length_from_lines(ls.drop_first()),
        }
    }
}

/// The Content-Length of a frame's header text.
pub open spec fn content_length(headers: Seq<char>) -> Result<nat, Seq<char>> {
    length_from_lines(lines(headers))
}

/// Read the Content-Length from a frame's header text.
pub fn parse_content_length(headers: &str) -> (r: Result<usize, String>)
    ensures
        match r {
            Ok(n) => content_length(headers@) == Ok::<nat, Seq<char>>(n as nat),
            Err(e) => content_length(headers@) == Err::<nat, Seq<char>>(e@),
        },
{
    proof {
        reveal_strlit("Content-Length:");
        reveal_strlit("content-length:");
    }
    let cs = chars_of(headers);
    let ls = crate::text::lines_exec(cs.as_slice());
    let ghost lv = ls@.map_values(|v: Vec<char>| v@);
    let upper = chars_of("Content-Length:");
    let lower = chars_of("content-length:");
    let mut i: usize = 0;
    assert(lv.skip(0) =~= lv);
    while i < ls.len()
        invariant
            i <= ls@.len(),
            lv == ls@.map_values(|v: Vec<char>| v@),
            lv == lines(headers@),
            upper@ == "Content-Length:"@,
            lower@ == "content-length:"@,
            content_length(headers@) == length_from_lines(lv.skip(i as int)),
        decreases ls@.len() - i,
    {
        proof {
            reveal_strlit("Content-Length:");
            reveal_strlit("content-length:");
        }
        let ghost rest_lines = lv.skip(i as int);
        assert(rest_lines[0] == ls@[i as int]@);
        assert(rest_lines.drop_first() =~= lv.skip(i + 1));
        let line = crate::text::trim_exec(ls[i].as_slice());
        if starts_with_seq(line.as_slice(), upper.as_slice()) || starts_with_seq(
            line.as_slice(),
            lower.as_slice(),
        ) {
            let rest = crate::text::skip_exec(line.as_slice(), 15);
            let value = crate::text::trim_exec(rest.as_slice());
            return match parse_usize_exec(value.as_slice()) {
                Ok(n) => Ok(n),
                Err(e) => Err(String::from_str("invalid Content-Length: ").concat(e.as_str())),
            };
        }
        i = i + 1;
    }
    Err(String::from_str("MCP frame missing Content-Length"))
}

/// One frame read from the front of `buf`, its header ending at `sep` and followed by
/// a separator `width` bytes long: the body and the bytes consumed, nothing while the
/// body is incomplete, or the header's error.
pub open spec fn frame_at(buf: Seq<u8>, sep: int, width: int) -> Result<
    Option<(Seq<char>, int)>,
    Seq<char>,
> {
    match content_length(utf8_text(buf.take(sep))) {
        Err(e) => Err(e),
        Ok(n) => if buf.len() < sep + width + n {
            Ok(None)
        } else {
            Ok(Some((utf8_text(buf.subrange(sep + width, sep + width + n)), sep + width + n)))
        },
    }
}

/// The first frame of `buf`: the header ends at the first `\r\n\r\n`, or, when there is
/// none, at the first `\n\n`; without either nothing is complete yet.
pub open spec fn decoded_frame(buf: Seq<u8>) -> Result<Option<(Seq<char>, int)>, Seq<char>> {
    match find_bytes_from(buf, crlf_crlf(), 0) {
        Some(sep) => frame_at(buf, sep, 4),
        None => match find_bytes_from(buf, lf_lf(), 0) {
            Some(sep) => frame_at(buf, sep, 2),
            None => Ok(None),
        },
    }
}

/// A decoding result by its views.
pub open spec fn frame_view(r: Result<Option<(String, usize)>, String>) -> Result<
    Option<(Seq<char>, int)>,
    Seq<char>,
> {
    match r {
        Ok(Some((b, n))) => Ok(Some((b@, n as int))),
        Ok(None) => Ok(None),
        Err(e) => Err(e@),
    }
}

/// What `find_bytes_from` finds is an occurrence at or after the start.
proof fn lemma_find_bytes_occurs(buf: Seq<u8>, pat: Seq<u8>, i: int)
    ensures
        find_bytes_from(buf, pat, i) matches Some(k) ==> i <= k && occurs_bytes_at(buf, pat, k),
    decreases buf.len() + 1 - i,
{
    if !(i < 0 || i + pat.len() > buf.len()) && !occurs_bytes_at(buf, pat, i) {
        lemma_find_bytes_occurs(buf, pat, i + 1);
    }
}

/// With no occurrence in `[i, k)` and one at `k`, the search from `i` finds `k`.
proof fn lemma_find_bytes_at(buf: Seq<u8>, pat: Seq<u8>, i: int, k: int)
    requires
        0 <= i <= k,
        occurs_bytes_at(buf, pat, k),
        forall|j: int| i <= j < k ==> !occurs_bytes_at(buf, pat, j),
    ensures
        find_bytes_from(buf, pat, i) == Some(k),
    decreases k - i,
{
    if i < k {
        lemma_find_bytes_at(buf, pat, i + 1, k);
    }
}

fn copy_bytes(buf: &[u8], from: usize, to: usize) -> (r: Vec<u8>)
    requires
        from <= to <= buf@.len(),
    ensures
        r@ == buf@.subrange(from as int, to as int),
{
    let mut out: Vec<u8> = Vec::new();
    let mut i = from;
    while i < to
        invariant
            from <= i <= to,
            to <= buf@.len(),
            out@ == buf@.subrange(from as int, i as int),
        decreases to - i,
    {
        out.push(buf[i]);
        i = i + 1;
        assert(out@ =~= buf@.subrange(from as int, i as int));
    }
    out
}

fn frame_at_exec(buf: &[u8], sep: usize, width: usize) -> (r: Result<
    Option<(String, usize)>,
    String,
>)
    requires
        sep + width <= buf@.len(),
    ensures
        frame_view(r) == frame_at(buf@, sep as int, width as int),
{
    let total = buf.len();
    let head = copy_bytes(buf, 0, sep);
    assert(head@ =~= buf@.take(sep as int));
    let headers = text_of_bytes(head.as_slice());
    match parse_content_length(headers.as_str()) {
        Err(e) => Err(e),
        Ok(n) => {
            let header_end = sep + width;
            if total - header_end < n {
                Ok(None)
            } else {
                let body = copy_bytes(buf, header_end, header_end + n);
                Ok(Some((text_of_bytes(body.as_slice()), header_end + n)))
            }
        },
    }
}

/// Try to extract one framed message from the front of a buffer: the body and the
/// bytes it took, nothing while the message is incomplete, or the header's error.
pub fn try_decode_framed(buf: &[u8]) -> (r: Result<Option<(String, usize)>, String>)
    ensures
        frame_view(r) == decoded_frame(buf@),
{
    let crlf: Vec<u8> = vec![13u8, 10u8, 13u8, 10u8];
    let lflf: Vec<u8> = vec![10u8, 10u8];
    assert(crlf@ =~= crlf_crlf());
    assert(lflf@ =~= lf_lf());
    match find_bytes(buf, &crlf) {
        Some(sep) => {
            proof {
                lemma_find_bytes_occurs(buf@, crlf_crlf(), 0);
            }
            frame_at_exec(buf, sep, 4)
        },
        None => match find_bytes(buf, &lflf) {
            Some(sep) => {
                proof {
                    lemma_find_bytes_occurs(buf@, lf_lf(), 0);
                }
                frame_at_exec(buf, sep, 2)
            },
            None => Ok(None),
        },
    }
}

/// Every character of a decimal text is a digit.
proof fn lemma_decimal_digits(n: nat)
    ensures
        decimal(n).len() >= 1,
        forall|i: int| 0 <= i < decimal(n).len() ==> '0' <= #[trigger] decimal(n)[i] <= '9',
    decreases n,
{
    if n >= 10 {
        lemma_decimal_digits(n / 10);
        assert forall|i: int| 0 <= i < decimal(n).len() implies '0' <= #[trigger] decimal(n)[i]
            <= '9' by {
            if i < decimal(n / 10).len() {
                assert(decimal(n)[i] == decimal(n / 10)[i]);
            }
        }
    }
}

/// Reading the decimal text of `n` gives back `n`.
proof fn lemma_digits_value_decimal(n: nat, max: nat)
    requires
        n <= max,
    ensures
        digits_value(decimal(n), max) == Ok::<nat, Seq<char>>(n),
    decreases n,
{
    let d = n % 10;
    let c = digit_char(d);
    assert(c as int == d + 48);
    assert(decimal(n).last() == c);
    if n >= 10 {
        lemma_digits_value_decimal(n / 10, max);
        assert(decimal(n).drop_last() =~= decimal(n / 10));
        vstd::arithmetic::div_mod::lemma_fundamental_div_mod(n as int, 10);
    } else {
        assert(decimal(n).drop_last() =~= Seq::<char>::empty());
        assert(digits_value(Seq::<char>::empty(), max) == Ok::<nat, Seq<char>>(0));
    }
}

/// Text without `c` splits into itself alone.
proof fn lemma_split_without(s: Seq<char>, c: char)
    requires
        !has_char(s, c),
    ensures
        split(s, c) == seq![s],
    decreases s.len(),
{
    if s.len() > 0 {
        assert(!has_char(s.drop_last(), c)) by {
            if has_char(s.drop_last(), c) {
                let k = choose|k: int| 0 <= k < s.drop_last().len() && s.drop_last()[k] == c;
                assert(s[k] == c);
            }
        }
        lemma_split_without(s.drop_last(), c);
        assert(s.last() != c);
        assert(s.drop_last().push(s.last()) =~= s);
        assert(split(s, c) =~= seq![s]);
    } else {
        assert(s =~= Seq::<char>::empty());
    }
}

/// Text that neither begins nor ends with whitespace is its own trim.
proof fn lemma_trim_unchanged(s: Seq<char>)
    requires
        s.len() > 0,
        !is_whitespace(s[0]),
        !is_whitespace(s.last()),
    ensures
        trim(s) == s,
{
}

/// The bytes of a frame's header: no CR or LF before the separator, the separator
/// last, and a Content-Length that reads back as `n`.
proof fn lemma_header_bytes(n: nat)
    requires
        n <= usize::MAX,
    ensures
        ({
            let hb = ascii_bytes(frame_header(n));
            let k = hb.len() - 4;
            &&& k >= 16
            &&& forall|j: int| 0 <= j < k ==> #[trigger] hb[j] != 13u8 && hb[j] != 10u8
            &&& hb.subrange(k, k + 4) == crlf_crlf()
            &&& content_length(utf8_text(hb.take(k))) == Ok::<nat, Seq<char>>(n)
        }),
{
    reveal_strlit("Content-Length: ");
    reveal_strlit("\r\n\r\n");
    reveal_strlit("Content-Length:");
    reveal_strlit("content-length:");
    let hc = "Content-Length: "@ + decimal(n);
    let k = hc.len() as int;
    let hb = ascii_bytes(frame_header(n));
    lemma_decimal_digits(n);
    assert(frame_header(n) =~= hc + "\r\n\r\n"@);
    assert(is_ascii_chars(hc)) by {
        assert forall|i: int| 0 <= i < hc.len() implies '\0' <= #[trigger] hc[i] <= '\u{7f}' by {
            if i >= 16 {
                assert(hc[i] == decimal(n)[i - 16]);
            }
        }
    }
    vstd::utf8::is_ascii_chars_encode_utf8(hc);
    vstd::utf8::encode_utf8_valid_utf8(hc);
    vstd::utf8::encode_utf8_decode_utf8(hc);
    assert(hb.take(k) =~= encode_utf8(hc));
    assert(utf8_text(hb.take(k)) == hc);
    assert forall|j: int| 0 <= j < k implies #[trigger] hb[j] != 13u8 && hb[j] != 10u8 by {
        assert(hb[j] == hc[j] as u8);
        assert(hc[j] != '\r' && hc[j] != '\n') by {
            if j >= 16 {
                assert(hc[j] == decimal(n)[j - 16]);
            }
        }
    }
    assert(hb.subrange(k, k + 4) =~= crlf_crlf());
    assert(!has_char(hc, '\n')) by {
        if has_char(hc, '\n') {
            let j = choose|j: int| 0 <= j < hc.len() && hc[j] == '\n';
            if j >= 16 {
                assert(hc[j] == decimal(n)[j - 16]);
            }
        }
    }
    lemma_split_without(hc, '\n');
    assert(lines(hc) =~= seq![hc]);
    lemma_trim_unchanged(hc);
    assert(hc.take(15) =~= "Content-Length:"@);
    let rest = hc.skip(15);
    assert(rest =~= seq![' '] + decimal(n));
    assert(trim_start(rest) == trim_start(decimal(n))) by {
        assert(rest.drop_first() =~= decimal(n));
    }
    lemma_trim_unchanged(decimal(n));
    assert(trim_end(trim_start(rest)) == decimal(n));
    lemma_digits_value_decimal(n, usize::MAX as nat);
    assert(parse_usize(decimal(n)) == Ok::<nat, Seq<char>>(n));
    assert(length_from_lines(seq![hc].drop_first()) == length_from_lines(Seq::empty()));
    assert(content_length(hc) == Ok::<nat, Seq<char>>(n));
}

/// With no occurrence of `pat` at or after `i`, the search from `i` finds nothing.
proof fn lemma_find_bytes_none(buf: Seq<u8>, pat: Seq<u8>, i: int)
    requires
        forall|j: int| i <= j ==> !#[trigger] occurs_bytes_at(buf, pat, j),
    ensures
        find_bytes_from(buf, pat, i) is None,
    decreases buf.len() + 1 - i,
{
    if !(i < 0 || i + pat.len() > buf.len()) {
        assert(!occurs_bytes_at(buf, pat, i));
        lemma_find_bytes_none(buf, pat, i + 1);
    }
}

/// A buffer that starts with the header of a frame of `n` bytes: nothing is decoded
/// until the body is there, then the body and the frame's length.
proof fn lemma_decode_after_header(n: nat, buf: Seq<u8>)
    requires
        n <= usize::MAX,
        ascii_bytes(frame_header(n)).len() <= buf.len(),
        buf.take(ascii_bytes(frame_header(n)).len() as int) == ascii_bytes(frame_header(n)),
    ensures
        ({
            let h = ascii_bytes(frame_header(n)).len() as int;
            decoded_frame(buf) == if buf.len() < h + n {
                Ok::<Option<(Seq<char>, int)>, Seq<char>>(None)
            } else {
                Ok::<Option<(Seq<char>, int)>, Seq<char>>(
                    Some((utf8_text(buf.subrange(h, h + n)), h + n)),
                )
            }
        }),
{
    lemma_header_bytes(n);
    let hb = ascii_bytes(frame_header(n));
    let k = hb.len() - 4;
    assert forall|j: int| 0 <= j < k implies !occurs_bytes_at(buf, crlf_crlf(), j) by {
        if occurs_bytes_at(buf, crlf_crlf(), j) {
            assert(buf.subrange(j, j + 4)[0] == buf[j]);
            assert(buf.take(hb.len() as int)[j] == buf[j]);
        }
    }
    assert(buf.subrange(k, k + 4) =~= hb.subrange(k, k + 4)) by {
        assert forall|j: int| 0 <= j < 4 implies #[trigger] buf.subrange(k, k + 4)[j] == hb.subrange(
            k,
            k + 4,
        )[j] by {
            assert(buf.take(hb.len() as int)[k + j] == buf[k + j]);
        }
    }
    lemma_find_bytes_at(buf, crlf_crlf(), 0, k);
    assert(buf.take(k) =~= hb.take(k)) by {
        assert forall|j: int| 0 <= j < k implies buf.take(k)[j] == hb.take(k)[j] by {
            assert(buf.take(hb.len() as int)[j] == buf[j]);
        }
    }
}

/// Decoding reads one frame off the front of a buffer and leaves whatever follows it:
/// the body comes back, and exactly the frame's bytes are consumed.
pub proof fn lemma_frame_leaves_rest(body: Seq<char>, rest: Seq<u8>)
    requires
        encode_utf8(body).len() <= usize::MAX,
    ensures
        decoded_frame(framed(encode_utf8(body)) + rest) == Ok::<
            Option<(Seq<char>, int)>,
            Seq<char>,
        >(Some((body, framed(encode_utf8(body)).len() as int))),
{
    let b = encode_utf8(body);
    let n = b.len();
    let hb = ascii_bytes(frame_header(n));
    let buf = framed(b) + rest;
    assert(buf.take(hb.len() as int) =~= hb);
    lemma_decode_after_header(n, buf);
    assert(buf.subrange(hb.len() as int, (hb.len() + n) as int) =~= b);
    vstd::utf8::encode_utf8_valid_utf8(body);
    vstd::utf8::encode_utf8_decode_utf8(body);
}

/// Decoding a framed body gives the body back, with the whole frame consumed.
pub proof fn lemma_frame_roundtrip(body: Seq<char>)
    requires
        encode_utf8(body).len() <= usize::MAX,
    ensures
        decoded_frame(framed(encode_utf8(body))) == Ok::<Option<(Seq<char>, int)>, Seq<char>>(
            Some((body, framed(encode_utf8(body)).len() as int)),
        ),
{
    lemma_frame_leaves_rest(body, Seq::empty());
    assert(framed(encode_utf8(body)) + Seq::<u8>::empty() =~= framed(encode_utf8(body)));
}

/// Every proper prefix of a frame is incomplete: nothing is decoded and nothing fails.
pub proof fn lemma_frame_prefix_incomplete(body: Seq<char>, m: int)
    requires
        encode_utf8(body).len() <= usize::MAX,
        0 <= m < framed(encode_utf8(body)).len(),
    ensures
        decoded_frame(framed(encode_utf8(body)).take(m)) == Ok::<
            Option<(Seq<char>, int)>,
            Seq<char>,
        >(None),
{
    let b = encode_utf8(body);
    let n = b.len();
    let hb = ascii_bytes(frame_header(n));
    let h = hb.len() as int;
    let p = framed(b).take(m);
    if m >= h {
        assert(p.take(h) =~= hb);
        lemma_decode_after_header(n, p);
    } else {
        lemma_header_bytes(n);
        let k = h - 4;
        assert forall|j: int| 0 <= j < m implies #[trigger] p[j] == hb[j] by {}
        assert forall|j: int| 0 <= j implies !#[trigger] occurs_bytes_at(p, crlf_crlf(), j) by {
            if occurs_bytes_at(p, crlf_crlf(), j) {
                assert(p.subrange(j, j + 4)[0] == p[j]);
                assert(p[j] == 13u8);
                assert(j < k);
                assert(hb[j] != 13u8);
            }
        }
        lemma_find_bytes_none(p, crlf_crlf(), 0);
        assert(hb.subrange(k, k + 4)[0] == hb[k]);
        assert(hb.subrange(k, k + 4)[1] == hb[k + 1]);
        assert(hb.subrange(k, k + 4)[2] == hb[k + 2]);
        assert forall|j: int| 0 <= j implies !#[trigger] occurs_bytes_at(p, lf_lf(), j) by {
            if occurs_bytes_at(p, lf_lf(), j) {
                assert(p.subrange(j, j + 2)[0] == p[j]);
                assert(p.subrange(j, j + 2)[1] == p[j + 1]);
                assert(p[j] == 10u8 && p[j + 1] == 10u8);
                if j < k {
                    assert(hb[j] != 10u8);
                } else if j == k {
                    assert(hb[k] == 13u8);
                } else {
                    assert(j + 1 == k + 2);
                    assert(hb[k + 2] == 13u8);
                }
            }
        }
        lemma_find_bytes_none(p, lf_lf(), 0);
    }
}

/// The Content-Length header name is read in either of its two spellings: a line
/// starting `content-length:` gives the same value as one starting `Content-Length:`.
pub proof fn lemma_length_header_either_case(rest: Seq<char>)
    ensures
        length_header_value("content-length:"@ + rest) == Some(rest),
        length_header_value("Content-Length:"@ + rest) == Some(rest),
{
    reveal_strlit("Content-Length:");
    reveal_strlit("content-length:");
    assert(("content-length:"@ + rest).take(15) =~= "content-length:"@);
    assert(("content-length:"@ + rest).skip(15) =~= rest);
    assert(("Content-Length:"@ + rest).take(15) =~= "Content-Length:"@);
    assert(("Content-Length:"@ + rest).skip(15) =~= rest);
}

/// A header block of one Content-Length line, in either spelling, reads as the
/// length it names.
pub proof fn lemma_length_line(name: Seq<char>, n: nat)
    requires
        name == "Content-Length:"@ || name == "content-length:"@,
        n <= usize::MAX,
    ensures
        content_length(name + " "@ + decimal(n)) == Ok::<nat, Seq<char>>(n),
{
    reveal_strlit("Content-Length:");
    reveal_strlit("content-length:");
    reveal_strlit(" ");
    let hc = name + " "@ + decimal(n);
    assert(name.len() == 15);
    assert(hc.len() == 16 + decimal(n).len());
    lemma_decimal_digits(n);
    assert(!has_char(hc, '\n')) by {
        if has_char(hc, '\n') {
            let j = choose|j: int| 0 <= j < hc.len() && hc[j] == '\n';
            if j >= 16 {
                assert(hc[j] == decimal(n)[j - 16]);
            } else if j < 15 {
                assert(hc[j] == name[j]);
            }
        }
    }
    lemma_split_without(hc, '\n');
    assert(lines(hc) =~= seq![hc]);
    assert(hc.last() == decimal(n)[decimal(n).len() - 1]);
    lemma_trim_unchanged(hc);
    assert(hc.take(15) =~= name);
    lemma_length_header_either_case(" "@ + decimal(n));
    assert(hc =~= name + (" "@ + decimal(n)));
    let rest = hc.skip(15);
    assert(rest =~= seq![' '] + decimal(n));
    assert(trim_start(rest) == trim_start(decimal(n))) by {
        assert(rest.drop_first() =~= decimal(n));
    }
    lemma_trim_unchanged(decimal(n));
    assert(trim_end(trim_start(rest)) == decimal(n));
    lemma_digits_value_decimal(n, usize::MAX as nat);
    assert(parse_usize(decimal(n)) == Ok::<nat, Seq<char>>(n));
    assert(length_from_lines(seq![hc].drop_first()) == length_from_lines(Seq::empty()));
}

/// Header lines none of which carries a Content-Length read as a missing length.
pub proof fn lemma_missing_length(ls: Seq<Seq<char>>)
    requires
        forall|i: int| 0 <= i < ls.len() ==> (#[trigger] length_header_value(trim(ls[i]))) is None,
    ensures
        length_from_lines(ls) == Err::<nat, Seq<char>>("MCP frame missing Content-Length"@),
    decreases ls.len(),
{
    if ls.len() > 0 {
        assert(length_header_value(trim(ls[0])) is None);
        assert forall|i: int| 0 <= i < ls.drop_first().len() implies (#[trigger] length_header_value(
            trim(ls.drop_first()[i]),
        )) is None by {
            assert(ls.drop_first()[i] == ls[i + 1]);
        }
        lemma_missing_length(ls.drop_first());
    }
}

/// A complete header block whose Content-Length cannot be read is refused with that
/// error, whatever follows the blank line.
pub proof fn lemma_header_error(header: Seq<char>, rest: Seq<u8>)
    requires
        is_ascii_chars(header),
        !contains(header + "\r\n\r"@, "\r\n\r\n"@),
        content_length(header) is Err,
    ensures
        decoded_frame(encode_utf8(header) + crlf_crlf() + rest) == Err::<
            Option<(Seq<char>, int)>,
            Seq<char>,
        >(content_length(header)->Err_0),
{
    reveal_strlit("\r\n\r");
    reveal_strlit("\r\n\r\n");
    vstd::utf8::is_ascii_chars_encode_utf8(header);
    vstd::utf8::encode_utf8_valid_utf8(header);
    vstd::utf8::encode_utf8_decode_utf8(header);
    let hb = encode_utf8(header);
    let k = header.len() as int;
    let buf = hb + crlf_crlf() + rest;
    let ext = header + "\r\n\r"@;
    assert forall|j: int| 0 <= j < k + 3 implies #[trigger] buf[j] == ext[j] as u8 by {
        if j < k {
            assert(buf[j] == hb[j]);
        }
    }
    assert forall|j: int| 0 <= j < k implies !occurs_bytes_at(buf, crlf_crlf(), j) by {
        if occurs_bytes_at(buf, crlf_crlf(), j) {
            assert forall|t: int| 0 <= t < 4 implies #[trigger] ext.subrange(j, j + 4)[t]
                == "\r\n\r\n"@[t] by {
                assert(buf.subrange(j, j + 4)[t] == buf[j + t]);
                assert(buf[j + t] == ext[j + t] as u8);
                if j + t < k {
                    assert('\0' <= header[j + t] <= '\u{7f}');
                }
            }
            assert(ext.subrange(j, j + 4) =~= "\r\n\r\n"@);
            assert(occurs_at(ext, "\r\n\r\n"@, j));
        }
    }
    assert(buf.subrange(k, k + 4) =~= crlf_crlf());
    lemma_find_bytes_at(buf, crlf_crlf(), 0, k);
    assert(buf.take(k) =~= hb);
}

} // verus!
