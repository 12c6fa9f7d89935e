//! Skill packages (`{root}/{name}/SKILL.md`): safe names, listing order, the
//! create/improve rules, the answers, and the root's doctor classification.

use crate::domain::{ToolCall, ToolError, ToolResult, ToolSpec};
use crate::json::{get_str, text, Json};
use crate::text::{chars_of, decimal, has_char, trim, views};
use vstd::prelude::*;
use vstd::utf8::encode_utf8;

verus! {

/// Skill tools over a skills root.
pub struct SkillsTools {
    pub root: String,
    pub allowed: Vec<String>,
}

impl SkillsTools {
    pub fn new(root: String, allowed: Vec<String>) -> (r: Self)
        ensures
            r.root == root,
            r.allowed == allowed,
    {
        SkillsTools { root, allowed }
    }

    /// The skills root.
    pub fn root(&self) -> (r: &str)
        ensures
            r@ == self.root@,
    {
        self.root.as_str()
    }
}

/// An ASCII letter or digit.
pub open spec fn is_alnum(c: char) -> bool {
    ('a' <= c && c <= 'z') || ('A' <= c && c <= 'Z') || ('0' <= c && c <= '9')
}

/// Why `name` is not a safe package name, if it is not: 1 to 64 bytes, no `.`, `..`
/// or path separators, an alphanumeric start, then `[A-Za-z0-9_-]` only.
pub open spec fn skill_name_error(name: Seq<char>) -> Option<Seq<char>> {
    if name.len() == 0 || (encode_utf8(name).len() as usize) > 64 {
        Some("skill name must be 1..=64 characters"@)
    } else if name == "."@ || name == ".."@ || has_char(name, '/') || has_char(name, '\\') {
        Some("skill name must not contain path separators"@)
    } else if !is_alnum(name[0]) {
        Some("skill name must start with alphanumeric"@)
    } else if exists|i: int|
        1 <= i < name.len() && !(is_alnum(#[trigger] name[i]) || name[i] == '-' || name[i] == '_') {
        Some("skill name may only contain [A-Za-z0-9_-]"@)
    } else {
        None
    }
}

/// Validate a package directory name (no path traversal).
pub fn validate_skill_name(name: &str) -> (r: Result<(), ToolError>)
    ensures
        match r {
            Ok(()) => skill_name_error(name@) is None,
            Err(e) => skill_name_error(name@) matches Some(m) && (e matches ToolError::Failed(x)
                && x@ == m),
        },
{
    let cs = chars_of(name);
    if cs.len() == 0 || name.len() > 64 {
        return Err(ToolError::Failed(String::from_str("skill name must be 1..=64 characters")));
    }
    if crate::text::str_eq(name, ".") || crate::text::str_eq(name, "..")
        || crate::text::has_char_exec(cs.as_slice(), '/') || crate::text::has_char_exec(
        cs.as_slice(),
        '\\',
    ) {
        return Err(
            ToolError::Failed(String::from_str("skill name must not contain path separators")),
        );
    }
    let first = cs[0];
    if !(('a' <= first && first <= 'z') || ('A' <= first && first <= 'Z') || ('0' <= first && first
        <= '9')) {
        return Err(ToolError::Failed(String::from_str("skill name must start with alphanumeric")));
    }
    let mut i: usize = 1;
    while i < cs.len()
        invariant
            1 <= i <= cs@.len(),
            cs@ == name@,
            skill_name_error(name@) == (if exists|k: int|
                1 <= k < name@.len() && !(is_alnum(#[trigger] name@[k]) || name@[k] == '-' || name@[k]
                    == '_') {
                Some("skill name may only contain [A-Za-z0-9_-]"@)
            } else {
                None::<Seq<char>>
            }),
            forall|k: int| 1 <= k < i ==> (is_alnum(#[trigger] cs@[k]) || cs@[k] == '-' || cs@[k] == '_'),
        decreases cs@.len() - i,
    {
        let c = cs[i];
        if !(('a' <= c && c <= 'z') || ('A' <= c && c <= 'Z') || ('0' <= c && c <= '9') || c == '-'
            || c == '_') {
            assert(!(is_alnum(name@[i as int]) || name@[i as int] == '-' || name@[i as int] == '_'));
            return Err(ToolError::Failed(String::from_str("skill name may only contain [A-Za-z0-9_-]")));
        }
        i = i + 1;
    }
    Ok(())
}

/// `a` sorts before or with `b`, character by character (the order of `String`).
pub open spec fn text_le(a: Seq<char>, b: Seq<char>) -> bool
    decreases a.len(),
{
    if a.len() == 0 {
        true
    } else if b.len() == 0 {
        false
    } else if a[0] != b[0] {
        (a[0] as int) < (b[0] as int)
    } else {
        text_le(a.drop_first(), b.drop_first())
    }
}

proof fn lemma_text_le_total(a: Seq<char>, b: Seq<char>)
    ensures
        text_le(a, b) || text_le(b, a),
    decreases a.len(),
{
    if a.len() > 0 && b.len() > 0 && a[0] == b[0] {
        lemma_text_le_total(a.drop_first(), b.drop_first());
    }
}

proof fn lemma_text_le_trans(a: Seq<char>, b: Seq<char>, c: Seq<char>)
    requires
        text_le(a, b),
        text_le(b, c),
    ensures
        text_le(a, c),
    decreases a.len(),
{
    if a.len() > 0 && b.len() > 0 && c.len() > 0 && a[0] == b[0] && b[0] == c[0] {
        lemma_text_le_trans(a.drop_first(), b.drop_first(), c.drop_first());
    }
}

fn text_le_exec(a: &[char], b: &[char]) -> (r: bool)
    ensures
        r == text_le(a@, b@),
{
    let mut i: usize = 0;
    assert(a@.skip(0) =~= a@);
    assert(b@.skip(0) =~= b@);
    while i < a.len() && i < b.len() && a[i] == b[i]
        invariant
            i <= a@.len(),
            i <= b@.len(),
            text_le(a@, b@) == text_le(a@.skip(i as int), b@.skip(i as int)),
        decreases a@.len() - i,
    {
        assert(a@.skip(i as int).drop_first() =~= a@.skip(i + 1));
        assert(b@.skip(i as int).drop_first() =~= b@.skip(i + 1));
        i = i + 1;
    }
    if i == a.len() {
        true
    } else if i == b.len() {
        false
    } else {
        assert(a@.skip(i as int)[0] == a@[i as int]);
        assert(b@.skip(i as int)[0] == b@[i as int]);
        a[i] < b[i]
    }
}

/// The package names in listing order: the valid names among the directory entries
/// holding a `SKILL.md`, sorted.
pub fn sorted_skill_names(entries: Vec<String>) -> (r: Vec<String>)
    ensures
        forall|i: int, j: int| 0 <= i < j < r@.len() ==> text_le(r@[i]@, r@[j]@),
        forall|i: int| 0 <= i < r@.len() ==> skill_name_error(#[trigger] r@[i]@) is None,
        forall|i: int| 0 <= i < r@.len() ==> views(entries@).contains(#[trigger] r@[i]@),
        forall|i: int|
            0 <= i < entries@.len() && skill_name_error(#[trigger] entries@[i]@) is None ==> views(
                r@,
            ).contains(entries@[i]@),
{
    let mut out: Vec<String> = Vec::new();
    let mut i: usize = 0;
    while i < entries.len()
        invariant
            i <= entries@.len(),
            forall|a: int, b: int| 0 <= a < b < out@.len() ==> text_le(out@[a]@, out@[b]@),
            forall|k: int| 0 <= k < out@.len() ==> skill_name_error(#[trigger] out@[k]@) is None,
            forall|k: int| 0 <= k < out@.len() ==> views(entries@).contains(#[trigger] out@[k]@),
            forall|k: int|
                0 <= k < i && skill_name_error(#[trigger] entries@[k]@) is None ==> views(
                    out@,
                ).contains(entries@[k]@),
        decreases entries@.len() - i,
    {
        let name = &entries[i];
        if validate_skill_name(name.as_str()).is_ok() {
            let nc = chars_of(name.as_str());
            let mut p: usize = 0;
            while p < out.len() && text_le_exec(chars_of(out[p].as_str()).as_slice(), nc.as_slice())
                invariant
                    p <= out@.len(),
                    nc@ == name@,
                    forall|k: int| 0 <= k < p ==> text_le(#[trigger] out@[k]@, name@),
                decreases out@.len() - p,
            {
                p = p + 1;
            }
            let ghost before = out@;
            out.insert(p, name.clone());
            proof {
                let after = out@;
                assert(after =~= before.insert(p as int, *name));
                if p < before.len() {
                    lemma_text_le_total(before[p as int]@, name@);
                }
                assert forall|a: int, b: int| 0 <= a < b < after.len() implies text_le(
                    after[a]@,
                    after[b]@,
                ) by {
                    if a < p && b < p {
                        assert(after[a] == before[a] && after[b] == before[b]);
                    } else if a < p && b == p {
                        assert(after[a] == before[a]);
                    } else if a < p {
                        assert(after[a] == before[a] && after[b] == before[b - 1]);
                        if b - 1 > p {
                            lemma_text_le_trans(name@, before[p as int]@, before[b - 1]@);
                        }
                        lemma_text_le_trans(before[a]@, name@, before[b - 1]@);
                    } else if a == p {
                        assert(after[b] == before[b - 1]);
                        if b - 1 > p {
                            lemma_text_le_trans(name@, before[p as int]@, before[b - 1]@);
                        }
                    } else {
                        assert(after[a] == before[a - 1] && after[b] == before[b - 1]);
                    }
                }
                assert forall|k: int| 0 <= k < after.len() implies views(entries@).contains(
                    #[trigger] after[k]@,
                ) by {
                    if k == p {
                        assert(views(entries@)[i as int] == after[k]@);
                    } else if k < p {
                        assert(after[k] == before[k]);
                    } else {
                        assert(after[k] == before[k - 1]);
                    }
                }
                assert forall|k: int| 0 <= k < after.len() implies skill_name_error(
                    #[trigger] after[k]@,
                ) is None by {
                    if k < p {
                        assert(after[k] == before[k]);
                    } else if k > p {
                        assert(after[k] == before[k - 1]);
                    }
                }
                assert forall|k: int|
                    0 <= k < i + 1 && skill_name_error(#[trigger] entries@[k]@) is None implies views(
                    after,
                ).contains(entries@[k]@) by {
                    if k < i {
                        let w = choose|w: int| 0 <= w < views(before).len() && views(before)[w]
                            == entries@[k]@;
                        if w < p {
                            assert(views(after)[w] == entries@[k]@);
                        } else {
                            assert(views(after)[w + 1] == entries@[k]@);
                        }
                    } else {
                        assert(views(after)[p as int] == entries@[k]@);
                    }
                }
            }
        }
        i = i + 1;
    }
    out
}

/// The answer to a listing: the names one per line (or `(no skills)`) and the count.
pub fn skills_list_result(names: &Vec<String>) -> (r: ToolResult)
    ensures
        names@.len() == 0 ==> r.content@ == "(no skills)"@,
        names@.len() > 0 ==> r.content@ == crate::model::consumer::join_lines(views(names@)),
        r.summary@ == "skills_list count="@ + decimal(names@.len() as nat),
{
    let content = if names.len() == 0 {
        String::from_str("(no skills)")
    } else {
        crate::tools::workspace::join_with_newlines(names)
    };
    ToolResult {
        summary: String::from_str("skills_list count=").concat(
            crate::text::decimal_string(names.len() as u64).as_str(),
        ),
        content,
    }
}

/// The answer to a load: the package text under a `[Skill:name]` header.
pub fn skill_load_result(name: &str, content: &str) -> (r: ToolResult)
    ensures
        r.content@ == "[Skill:"@ + name@ + "]\n"@ + content@,
        r.summary@ == "skill_load name="@ + name@,
{
    ToolResult {
        summary: String::from_str("skill_load name=").concat(name),
        content: String::from_str("[Skill:").concat(name).concat("]\n").concat(content),
    }
}

/// The error of a load that could not read the package: not found, or the read error.
pub fn skill_load_error(name: &str, not_found: bool, err: &str) -> (r: ToolError)
    ensures
        not_found ==> (r matches ToolError::Failed(m) && m@ == "skill not found: "@ + name@),
        !not_found ==> (r matches ToolError::Failed(m) && m@ == "skill_load "@ + name@ + ": "@
            + err@),
{
    if not_found {
        ToolError::Failed(String::from_str("skill not found: ").concat(name))
    } else {
        ToolError::Failed(String::from_str("skill_load ").concat(name).concat(": ").concat(err))
    }
}

/// What a `skill_manage` call asks for: the action, the package name and its text.
pub struct ManageRequest {
    pub action: String,
    pub name: String,
    pub content: String,
}

/// Why a `skill_manage` call's arguments are refused, if they are: a missing `action`,
/// `name` or `content` (in that order), an unsafe name, then blank content.
pub open spec fn manage_refusal(args: Json) -> Option<Seq<char>> {
    if get_str(args, "action"@) is None {
        Some(crate::tools::workspace::missing_arg("action"@))
    } else if get_str(args, "name"@) is None {
        Some(crate::tools::workspace::missing_arg("name"@))
    } else if get_str(args, "content"@) is None {
        Some(crate::tools::workspace::missing_arg("content"@))
    } else if skill_name_error(get_str(args, "name"@)->Some_0) is Some {
        skill_name_error(get_str(args, "name"@)->Some_0)
    } else if trim(get_str(args, "content"@)->Some_0).len() == 0 {
        Some("skill_manage: content must not be empty"@)
    } else {
        None
    }
}

/// Read and check a `skill_manage` call's arguments (before the package is looked at).
pub fn manage_request(args: &Json) -> (r: Result<ManageRequest, ToolError>)
    ensures
        match manage_refusal(*args) {
            Some(m) => r matches Err(ToolError::Failed(x)) && x@ == m,
            None => r matches Ok(q) && get_str(*args, "action"@) == Some(q.action@) && get_str(
                *args,
                "name"@,
            ) == Some(q.name@) && get_str(*args, "content"@) == Some(q.content@),
        },
{
    let action = match crate::tools::workspace::arg_string(args, "action") {
        Ok(v) => v,
        Err(e) => {
            return Err(e);
        },
    };
    let name = match crate::tools::workspace::arg_string(args, "name") {
        Ok(v) => v,
        Err(e) => {
            return Err(e);
        },
    };
    let content = match crate::tools::workspace::arg_string(args, "content") {
        Ok(v) => v,
        Err(e) => {
            return Err(e);
        },
    };
    match validate_skill_name(name.as_str()) {
        Ok(()) => {},
        Err(e) => {
            return Err(e);
        },
    }
    if crate::text::trim_str(content.as_str()).as_str().is_empty() {
        return Err(ToolError::Failed(String::from_str("skill_manage: content must not be empty")));
    }
    Ok(ManageRequest { action, name, content })
}

/// Whether the action may go ahead given whether the package's `SKILL.md` exists:
/// `create` needs it absent, `improve` present; other actions are refused.
pub fn manage_decision(action: &str, name: &str, exists: bool) -> (r: Result<(), ToolError>)
    ensures
        action@ == "create"@ ==> (exists ==> (r matches Err(ToolError::Failed(m)) && m@
            == "skill_manage create: skill already exists: "@ + name@)) && (!exists ==> r is Ok),
        action@ == "improve"@ ==> (!exists ==> (r matches Err(ToolError::Failed(m)) && m@
            == "skill_manage improve: skill not found: "@ + name@)) && (exists ==> r is Ok),
        action@ != "create"@ && action@ != "improve"@ ==> (r matches Err(ToolError::Failed(m)) && m@
            == "skill_manage: unknown action '"@ + action@ + "' (use create|improve)"@),
{
    proof {
        reveal_strlit("create");
        reveal_strlit("improve");
        assert("create"@.len() != "improve"@.len());
    }
    if crate::text::str_eq(action, "create") {
        if exists {
            return Err(
                ToolError::Failed(
                    String::from_str("skill_manage create: skill already exists: ").concat(name),
                ),
            );
        }
        Ok(())
    } else if crate::text::str_eq(action, "improve") {
        if !exists {
            return Err(
                ToolError::Failed(String::from_str("skill_manage improve: skill not found: ").concat(name)),
            );
        }
        Ok(())
    } else {
        Err(
            ToolError::Failed(
                String::from_str("skill_manage: unknown action '").concat(action).concat(
                    "' (use create|improve)",
                ),
            ),
        )
    }
}

/// The answer to an applied create or improve.
pub fn manage_result(action: &str, name: &str) -> (r: ToolResult)
    ensures
        r.summary@ == "skill_manage "@ + action@ + " name="@ + name@,
        r.content@ == "skill "@ + action@ + " applied: "@ + name@ + "/SKILL.md"@,
{
    ToolResult {
        summary: String::from_str("skill_manage ").concat(action).concat(" name=").concat(name),
        content: String::from_str("skill ").concat(action).concat(" applied: ").concat(name).concat(
            "/SKILL.md",
        ),
    }
}

/// The skills root's posture for the doctor.
#[derive(Debug, Clone, Copy, PartialEq, Eq, Structural)]
pub enum SkillsRootDoctorKind {
    /// Missing or not a directory: fail closed.
    Missing,
    /// Present but unreadable: fail closed.
    Unreadable,
    /// Readable without packages: a soft warning.
    Empty,
    /// At least one package with a `SKILL.md`.
    Ready,
}

/// The doctor's finding on the skills root.
#[derive(Debug, Clone)]
pub struct SkillsRootDoctorStatus {
    pub kind: SkillsRootDoctorKind,
    pub detail: String,
}

/// Classify the skills root (shown as `shown`) from what the filesystem said: whether
/// it is a directory, and the package count or the read error.
pub fn skills_root_doctor_status(shown: &str, is_dir: bool, listing: Result<u32, String>) -> (r:
    SkillsRootDoctorStatus)
    ensures
        !is_dir ==> r.kind == SkillsRootDoctorKind::Missing && r.detail@ == "skills root missing ("@
            + shown@ + ")"@,
        is_dir ==> match listing {
            Err(e) => r.kind == SkillsRootDoctorKind::Unreadable && r.detail@
                == "skills root unreadable ("@ + shown@ + "): "@ + e@,
            Ok(0) => r.kind == SkillsRootDoctorKind::Empty && r.detail@ == "skills root empty ("@
                + shown@ + ") — OK; learning loop may populate"@,
            Ok(n) => r.kind == SkillsRootDoctorKind::Ready && r.detail@ == "skills root "@ + shown@
                + " ("@ + decimal(n as nat) + " package(s))"@,
        },
{
    if !is_dir {
        return SkillsRootDoctorStatus {
            kind: SkillsRootDoctorKind::Missing,
            detail: String::from_str("skills root missing (").concat(shown).concat(")"),
        };
    }
    match listing {
        Err(e) => SkillsRootDoctorStatus {
            kind: SkillsRootDoctorKind::Unreadable,
            detail: String::from_str("skills root unreadable (").concat(shown).concat("): ").concat(
                e.as_str(),
            ),
        },
        Ok(n) => if n == 0 {
            SkillsRootDoctorStatus {
                kind: SkillsRootDoctorKind::Empty,
                detail: String::from_str("skills root empty (").concat(shown).concat(
                    ") — OK; learning loop may populate",
                ),
            }
        } else {
            SkillsRootDoctorStatus {
                kind: SkillsRootDoctorKind::Ready,
                detail: String::from_str("skills root ").concat(shown).concat(" (").concat(
                    crate::text::decimal_string(n as u64).as_str(),
                ).concat(" package(s))"),
            }
        },
    }
}

/// The schema of `skill_load`: one required string `name`.
pub open spec fn load_schema_ok(j: Json) -> bool {
    &&& crate::json::size(j) == 4
    &&& crate::json::member(j, 0, "type"@) matches Some(t) && crate::json::is_text(t, "object"@)
    &&& crate::json::member(j, 1, "properties"@) is Some
    &&& crate::json::member(j, 2, "required"@) matches Some(Json::Array(a)) && a@.len() == 1
        && crate::json::is_text(a@[0], "name"@)
    &&& crate::json::member(j, 3, "additionalProperties"@) == Some(Json::Bool(false))
}

fn prop(name: &str, ty: &str, description: &str) -> (r: (String, Json))
    ensures
        r.0@ == name@,
        crate::json::size(r.1) == 2,
        crate::json::member(r.1, 0, "type"@) matches Some(t) && crate::json::is_text(t, ty@),
        crate::json::member(r.1, 1, "description"@) matches Some(d) && crate::json::is_text(
            d,
            description@,
        ),
{
    let mut m: Vec<(String, Json)> = Vec::new();
    m.push((String::from_str("type"), text(ty)));
    m.push((String::from_str("description"), text(description)));
    (String::from_str(name), Json::Object(m))
}

fn load_schema() -> (r: Json)
    ensures
        load_schema_ok(r),
{
    let mut props: Vec<(String, Json)> = Vec::new();
    props.push(prop("name", "string", "Skill package directory name"));
    let mut req: Vec<Json> = Vec::new();
    req.push(text("name"));
    let mut m: Vec<(String, Json)> = Vec::new();
    m.push((String::from_str("type"), text("object")));
    m.push((String::from_str("properties"), Json::Object(props)));
    m.push((String::from_str("required"), Json::Array(req)));
    m.push((String::from_str("additionalProperties"), Json::Bool(false)));
    Json::Object(m)
}

fn manage_schema() -> (r: Json)
    ensures
        crate::json::size(r) == 4,
        crate::json::member(r, 3, "additionalProperties"@) == Some(Json::Bool(false)),
{
    let mut action: Vec<(String, Json)> = Vec::new();
    action.push((String::from_str("type"), text("string")));
    let mut choices: Vec<Json> = Vec::new();
    choices.push(text("create"));
    choices.push(text("improve"));
    action.push((String::from_str("enum"), Json::Array(choices)));
    action.push((String::from_str("description"), text("create new package or improve existing")));
    let mut props: Vec<(String, Json)> = Vec::new();
    props.push((String::from_str("action"), Json::Object(action)));
    props.push(prop("name", "string", "Skill package name"));
    props.push(prop("content", "string", "Full SKILL.md markdown body"));
    let mut req: Vec<Json> = Vec::new();
    req.push(text("action"));
    req.push(text("name"));
    req.push(text("content"));
    let mut m: Vec<(String, Json)> = Vec::new();
    m.push((String::from_str("type"), text("object")));
    m.push((String::from_str("properties"), Json::Object(props)));
    m.push((String::from_str("required"), Json::Array(req)));
    m.push((String::from_str("additionalProperties"), Json::Bool(false)));
    Json::Object(m)
}

impl SkillsTools {
    /// The catalog: `skills_list`, `skill_load` and `skill_manage` as allowed, in order.
    pub fn catalog(&self) -> (r: Vec<ToolSpec>)
        ensures
            r@.len() == (if views(self.allowed@).contains("skills_list"@) {
                1int
            } else {
                0
            }) + (if views(self.allowed@).contains("skill_load"@) {
                1int
            } else {
                0
            }) + (if views(self.allowed@).contains("skill_manage"@) {
                1int
            } else {
                0
            }),
            forall|i: int| 0 <= i < r@.len() ==> views(self.allowed@).contains(#[trigger] r@[i].name@),
    {
        let mut out: Vec<ToolSpec> = Vec::new();
        if crate::text::list_contains(self.allowed.as_slice(), "skills_list") {
            out.push(
                ToolSpec::empty_params(
                    "skills_list",
                    "List Skill packages under the skills root (name only)",
                ),
            );
        }
        if crate::text::list_contains(self.allowed.as_slice(), "skill_load") {
            out.push(
                ToolSpec {
                    name: String::from_str("skill_load"),
                    description: String::from_str(
                        "Load a Skill package SKILL.md into the Run context",
                    ),
                    parameters: load_schema(),
                },
            );
        }
        if crate::text::list_contains(self.allowed.as_slice(), "skill_manage") {
            out.push(
                ToolSpec {
                    name: String::from_str("skill_manage"),
                    description: String::from_str(
                        "Create or improve a Skill package (high-blast; Approval when auto-commit OFF)",
                    ),
                    parameters: manage_schema(),
                },
            );
        }
        out
    }

    /// Which skill tool a call runs, or the denial.
    pub fn check_call(&self, call: &ToolCall) -> (r: Result<(), ToolError>)
        ensures
            r is Ok <==> views(self.allowed@).contains(call.name@) && (call.name@ == "skills_list"@
                || call.name@ == "skill_load"@ || call.name@ == "skill_manage"@),
            r matches Err(e) ==> (e matches ToolError::Denied(m) && m@
                == crate::tools::workspace::disallowed(call.name@)),
    {
        let name = call.name.as_str();
        if crate::text::list_contains(self.allowed.as_slice(), name) && (crate::text::str_eq(
            name,
            "skills_list",
        ) || crate::text::str_eq(name, "skill_load") || crate::text::str_eq(name, "skill_manage")) {
            Ok(())
        } else {
            Err(ToolError::Denied(String::from_str("unknown or disallowed tool '").concat(name).concat("'")))
        }
    }
}

} // verus!
