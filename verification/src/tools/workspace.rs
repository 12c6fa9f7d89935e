//! Workspace filesystem tools: which call does what, the path jail's lexical rules,
//! precise in-file edits, search hits, and the texts the tools answer with.

use crate::domain::{is_empty_params, ToolCall, ToolError, ToolResult, ToolSpec};
use crate::json::{get_bool, get_str, get_u64, Json};
use crate::text::{
    chars_of, contains, decimal, lines, replace_all, string_of, trim, truncate_chars, views,
};
use vstd::prelude::*;
use vstd::utf8::encode_utf8;

verus! {

/// Maximum directory depth for `search_files` (relative to the start path).
pub const SEARCH_MAX_DEPTH: usize = 32;

/// Maximum filesystem entries visited per `search_files` call (directories and files).
pub const SEARCH_MAX_ENTRIES: usize = 10000;

/// Maximum file size loaded whole by `apply_patch` and by content search.
pub const MAX_TOOL_FILE_BYTES: u64 = 1000000;

/// Workspace filesystem tools confined to allowlisted roots.
pub struct WorkspaceFsTools {
    /// The workspace roots (paths as text).
    pub roots: Vec<String>,
    /// The tool names this runtime may run.
    pub allowed: Vec<String>,
}

impl WorkspaceFsTools {
    pub fn new(roots: Vec<String>, allowed: Vec<String>) -> (r: Self)
        ensures
            r.roots == roots,
            r.allowed == allowed,
    {
        WorkspaceFsTools { roots, allowed }
    }
}

/// `s` cut to `max` characters for an event, with an ellipsis when longer.
pub fn truncate_for_event(s: &str, max: usize) -> (r: String)
    ensures
        r@ == truncate_chars(s@, max as nat),
{
    crate::text::truncate_str(s, max)
}

/// A path shortened for event payloads (at most 64 characters, then an ellipsis).
pub fn sanitize_path_for_event(path: &str) -> (r: String)
    ensures
        r@ == truncate_chars(path@, 64),
{
    crate::text::truncate_str(path, 64)
}

/// The message for a missing string argument.
pub open spec fn missing_arg(key: Seq<char>) -> Seq<char> {
    "missing string argument '"@ + key + "'"@
}

/// A required string argument of a tool call.
pub fn arg_string(args: &Json, key: &str) -> (r: Result<String, ToolError>)
    ensures
        match r {
            Ok(s) => get_str(*args, key@) == Some(s@),
            Err(e) => get_str(*args, key@) is None && (e matches ToolError::Failed(m) && m@
                == missing_arg(key@)),
        },
{
    match crate::json::get_str_exec(args, key) {
        Some(s) => Ok(s.clone()),
        None => Err(
            ToolError::Failed(
                String::from_str("missing string argument '").concat(key).concat("'"),
            ),
        ),
    }
}

// ---------------------------------------------------------------------------
// The path jail

/// The components of a relative path that move within the tree: pieces between `/`,
/// without empty pieces and `.`.
pub open spec fn path_parts(p: Seq<char>) -> Seq<Seq<char>> {
    crate::text::split(p, '/').filter(|c: Seq<char>| c.len() > 0 && c != "."@)
}

/// Walk `parts` from `base`, `depth` components below the root: a name goes down, `..`
/// goes up, and going up from the root itself escapes (`None`).
pub open spec fn walk_parts(base: Seq<Seq<char>>, depth: nat, parts: Seq<Seq<char>>) -> Option<
    Seq<Seq<char>>,
>
    decreases parts.len(),
{
    if parts.len() == 0 {
        Some(base)
    } else if parts[0] == ".."@ {
        if depth == 0 {
            None
        } else {
            walk_parts(base.drop_last(), (depth - 1) as nat, parts.drop_first())
        }
    } else {
        walk_parts(base.push(parts[0]), depth + 1, parts.drop_first())
    }
}

/// `root` is a leading run of `path`'s components.
pub open spec fn under_root(path: Seq<Seq<char>>, root: Seq<Seq<char>>) -> bool {
    root.len() <= path.len() && path.take(root.len() as int) == root
}

/// Whatever a relative path walks through, the result stays under the root it
/// started from: the jail cannot be left lexically.
pub proof fn lemma_walk_stays_under_root(root: Seq<Seq<char>>, parts: Seq<Seq<char>>)
    ensures
        walk_parts(root, 0, parts) matches Some(r) ==> under_root(r, root),
{
    lemma_walk_general(root, Seq::empty(), parts);
    assert(root + Seq::<Seq<char>>::empty() =~= root);
}

proof fn lemma_walk_general(root: Seq<Seq<char>>, stack: Seq<Seq<char>>, parts: Seq<Seq<char>>)
    ensures
        walk_parts(root + stack, stack.len(), parts) matches Some(r) ==> under_root(r, root),
    decreases parts.len(),
{
    if parts.len() == 0 {
        assert((root + stack).take(root.len() as int) =~= root);
    } else if parts[0] == ".."@ {
        if stack.len() > 0 {
            assert((root + stack).drop_last() =~= root + stack.drop_last());
            lemma_walk_general(root, stack.drop_last(), parts.drop_first());
        }
    } else {
        assert((root + stack).push(parts[0]) =~= root + stack.push(parts[0]));
        lemma_walk_general(root, stack.push(parts[0]), parts.drop_first());
    }
}

/// The moving components of a relative path.
pub fn relative_parts(user_path: &str) -> (r: Vec<String>)
    ensures
        views(r@) == path_parts(user_path@),
{
    proof {
        reveal_strlit(".");
    }
    let cs = chars_of(user_path);
    let pieces = crate::text::split_exec(cs.as_slice(), '/');
    let ghost pv = pieces@.map_values(|v: Vec<char>| v@);
    let dot = chars_of(".");
    let mut out: Vec<String> = Vec::new();
    let mut i: usize = 0;
    assert(pv.take(0) =~= Seq::<Seq<char>>::empty());
    while i < pieces.len()
        invariant
            i <= pieces@.len(),
            pv == pieces@.map_values(|v: Vec<char>| v@),
            dot@ == "."@,
            views(out@) == pv.take(i as int).filter(|c: Seq<char>| c.len() > 0 && c != "."@),
        decreases pieces@.len() - i,
    {
        let ghost before = views(out@);
        assert(pv.take(i + 1).drop_last() =~= pv.take(i as int));
        assert(pv.take(i + 1).last() == pieces@[i as int]@);
        reveal(Seq::filter);
        let p = &pieces[i];
        if p.len() > 0 && !crate::text::seq_eq(p.as_slice(), dot.as_slice()) {
            out.push(string_of(p.as_slice()));
            assert(views(out@) =~= before.push(p@));
        }
        i = i + 1;
    }
    assert(pv.take(i as int) =~= pv);
    out
}

/// Join a relative path under a root by its components; `..` may not leave the root.
pub fn join_under_root(root: &Vec<String>, user_path: &str) -> (r: Result<Vec<String>, ToolError>)
    ensures
        match r {
            Ok(p) => walk_parts(views(root@), 0, path_parts(user_path@)) == Some(views(p@)),
            Err(e) => walk_parts(views(root@), 0, path_parts(user_path@)) is None && (e matches ToolError::PathJail(
                m,
            ) && m@ == "path escapes workspace root"@),
        },
{
    proof {
        reveal_strlit("..");
    }
    let parts = relative_parts(user_path);
    let mut base: Vec<String> = crate::text::clone_strings(root);
    let mut depth: usize = 0;
    let mut i: usize = 0;
    let ghost ps = views(parts@);
    assert(ps.skip(0) =~= ps);
    while i < parts.len()
        invariant
            i <= parts@.len(),
            ps == views(parts@),
            ps == path_parts(user_path@),
            depth <= i,
            base@.len() == root@.len() + depth,
            walk_parts(views(root@), 0, ps) == walk_parts(views(base@), depth as nat, ps.skip(i as int)),
        decreases parts@.len() - i,
    {
        let ghost rest = ps.skip(i as int);
        assert(rest[0] == parts@[i as int]@);
        assert(rest.drop_first() =~= ps.skip(i + 1));
        if crate::text::str_eq(parts[i].as_str(), "..") {
            if depth == 0 {
                return Err(ToolError::PathJail(String::from_str("path escapes workspace root")));
            }
            let ghost vb = views(base@);
            base.pop();
            assert(views(base@) =~= vb.drop_last());
            depth = depth - 1;
        } else {
            let ghost vb = views(base@);
            base.push(parts[i].clone());
            assert(views(base@) =~= vb.push(parts@[i as int]@));
            depth = depth + 1;
        }
        i = i + 1;
    }
    assert(ps.skip(i as int) =~= Seq::<Seq<char>>::empty());
    Ok(base)
}

/// Whether `path` lies under `root`, component by component.
pub fn is_under_root(path: &Vec<String>, root: &Vec<String>) -> (r: bool)
    ensures
        r == under_root(views(path@), views(root@)),
{
    if root.len() > path.len() {
        return false;
    }
    let mut i: usize = 0;
    while i < root.len()
        invariant
            i <= root@.len() <= path@.len(),
            forall|j: int| 0 <= j < i ==> path@[j]@ == root@[j]@,
        decreases root@.len() - i,
    {
        if !crate::text::str_eq(path[i].as_str(), root[i].as_str()) {
            assert(views(path@).take(root@.len() as int)[i as int] != views(root@)[i as int]);
            return false;
        }
        i = i + 1;
    }
    assert(views(path@).take(root@.len() as int) =~= views(root@));
    true
}

/// Why a user path is refused before any root is tried, if it is.
pub open spec fn path_precheck(root_count: nat, user_path: Seq<char>) -> Option<Seq<char>> {
    if root_count == 0 {
        Some("no workspace roots configured"@)
    } else if user_path.len() == 0 {
        Some("empty path"@)
    } else if crate::text::has_char(user_path, '\0') {
        Some("invalid path"@)
    } else {
        None
    }
}

/// Refuse a user path with no roots configured, empty, or holding a NUL.
pub fn check_user_path(root_count: usize, user_path: &str) -> (r: Result<(), ToolError>)
    ensures
        match r {
            Ok(()) => path_precheck(root_count as nat, user_path@) is None,
            Err(e) => path_precheck(root_count as nat, user_path@) matches Some(m) && (e matches ToolError::PathJail(
                x,
            ) && x@ == m),
        },
{
    if root_count == 0 {
        return Err(ToolError::PathJail(String::from_str("no workspace roots configured")));
    }
    let cs = chars_of(user_path);
    if cs.len() == 0 {
        return Err(ToolError::PathJail(String::from_str("empty path")));
    }
    if crate::text::has_char_exec(cs.as_slice(), '\0') {
        return Err(ToolError::PathJail(String::from_str("invalid path")));
    }
    Ok(())
}

/// A user path is absolute when it starts at the filesystem root.
pub open spec fn is_absolute(p: Seq<char>) -> bool {
    p.len() > 0 && p[0] == '/'
}

/// The path tried under `root` before it is canonicalized: an absolute user path by its
/// own components, a relative one joined under the root (`None` when `..` leaves it).
pub open spec fn candidate_of(root: Seq<Seq<char>>, user_path: Seq<char>) -> Option<
    Seq<Seq<char>>,
> {
    if is_absolute(user_path) {
        Some(path_parts(user_path))
    } else {
        walk_parts(root, 0, path_parts(user_path))
    }
}

/// The path tried under `root` for `user_path`, by its components.
pub fn candidate_parts(root: &Vec<String>, user_path: &str) -> (r: Result<Vec<String>, ToolError>)
    ensures
        match r {
            Ok(p) => candidate_of(views(root@), user_path@) == Some(views(p@)),
            Err(e) => candidate_of(views(root@), user_path@) is None && (e matches ToolError::PathJail(
                m,
            ) && m@ == "path escapes workspace root"@),
        },
{
    let cs = chars_of(user_path);
    if cs.len() > 0 && cs[0] == '/' {
        Ok(relative_parts(user_path))
    } else {
        join_under_root(root, user_path)
    }
}

/// Which canonical candidate the jail accepts: the first that lies under its own root.
pub fn jail_outcome(roots: &[Vec<String>], candidates: &[Vec<String>]) -> (r: Result<usize, ToolError>)
    requires
        roots@.len() == candidates@.len(),
    ensures
        match r {
            Ok(i) => i < roots@.len() && under_root(
                views(candidates@[i as int]@),
                views(roots@[i as int]@),
            ) && forall|j: int|
                0 <= j < i ==> !under_root(views(candidates@[j]@), views(roots@[j]@)),
            Err(e) => (forall|j: int|
                0 <= j < roots@.len() ==> !under_root(views(candidates@[j]@), views(roots@[j]@)))
                && (e matches ToolError::PathJail(m) && m@
                == "path is outside allowlisted workspace roots"@),
        },
{
    let mut i: usize = 0;
    while i < roots.len()
        invariant
            i <= roots@.len(),
            roots@.len() == candidates@.len(),
            forall|j: int| 0 <= j < i ==> !under_root(views(candidates@[j]@), views(roots@[j]@)),
        decreases roots@.len() - i,
    {
        if is_under_root(&candidates[i], &roots[i]) {
            return Ok(i);
        }
        i = i + 1;
    }
    Err(ToolError::PathJail(String::from_str("path is outside allowlisted workspace roots")))
}

/// Where a path that does not exist yet will be: under the canonical form of its
/// nearest existing parent, which must lie under the root.
pub fn settle_pending(parent: &Vec<String>, root: &Vec<String>, file_name: &str) -> (r: Result<
    Vec<String>,
    ToolError,
>)
    ensures
        match r {
            Ok(p) => under_root(views(parent@), views(root@)) && views(p@) == views(parent@).push(
                file_name@,
            ),
            Err(e) => !under_root(views(parent@), views(root@)) && (e matches ToolError::PathJail(
                m,
            ) && m@ == "path escapes workspace root"@),
        },
{
    if !is_under_root(parent, root) {
        return Err(ToolError::PathJail(String::from_str("path escapes workspace root")));
    }
    let mut p = crate::text::clone_strings(parent);
    p.push(String::from_str(file_name));
    assert(views(p@) =~= views(parent@).push(file_name@));
    Ok(p)
}

// ---------------------------------------------------------------------------
// The search walk

/// A `search_files` walk in progress: the hits so far, the directories entered (by
/// their canonical components), the entries scanned, and the cap on hits.
pub struct SearchWalk {
    pub hits: Vec<String>,
    pub visited: Vec<Vec<String>>,
    pub scanned: usize,
    pub max: usize,
}

/// The components of each directory entered.
pub open spec fn visited_views(v: Seq<Vec<String>>) -> Seq<Seq<Seq<char>>> {
    v.map_values(|p: Vec<String>| views(p@))
}

/// What a directory entry turned out to be: a directory (by its canonical components),
/// a file too large to read, an unreadable file, or a file with its content.
pub enum EntryKind {
    Dir(Vec<String>),
    TooLarge,
    Unreadable,
    File(String),
}

/// A directory entry of the walk: its path relative to the root, its own name, and what
/// it is.
pub struct WalkEntry {
    pub rel: String,
    pub name: String,
    pub kind: EntryKind,
}

/// A directory may be entered: room for hits and entries, and not too deep.
pub open spec fn may_enter(hits: nat, max: nat, scanned: nat, depth: int) -> bool {
    hits < max && scanned < SEARCH_MAX_ENTRIES && depth <= SEARCH_MAX_DEPTH
}

/// The entry's path or name holds the query.
pub open spec fn name_matches(rel: Seq<char>, name: Seq<char>, query: Seq<char>) -> bool {
    contains(rel, query) || contains(name, query)
}

/// The label of an entry's name hit.
pub open spec fn kind_label(k: EntryKind) -> NameHit {
    match k {
        EntryKind::Dir(_) => NameHit::Dir,
        EntryKind::TooLarge => NameHit::TooLarge,
        EntryKind::Unreadable => NameHit::Unreadable,
        EntryKind::File(_) => NameHit::File,
    }
}

/// The hits after an entry: its name hit if the name matches, then for a readable
/// file its content hits, as many as there is room for under `max`.
pub open spec fn entry_hits(hits: Seq<Seq<char>>, max: nat, e: WalkEntry, query: Seq<char>) -> Seq<
    Seq<char>,
> {
    let named = if name_matches(e.rel@, e.name@, query) {
        hits.push(name_hit_text(e.rel@, kind_label(e.kind)))
    } else {
        hits
    };
    match e.kind {
        EntryKind::File(content) => named + crate::storage::memory::at_most(
            content_hits_from(e.rel@, lines(content@), query, 0),
            (max - named.len()) as nat,
        ),
        _ => named,
    }
}

/// Whether two paths have the same components.
fn same_parts(a: &Vec<String>, b: &Vec<String>) -> (r: bool)
    ensures
        r == (views(a@) == views(b@)),
{
    if a.len() != b.len() {
        assert(views(a@).len() != views(b@).len());
        return false;
    }
    let mut i: usize = 0;
    while i < a.len()
        invariant
            i <= a@.len() == b@.len(),
            forall|j: int| 0 <= j < i ==> a@[j]@ == b@[j]@,
        decreases a@.len() - i,
    {
        if !crate::text::str_eq(a[i].as_str(), b[i].as_str()) {
            assert(views(a@)[i as int] != views(b@)[i as int]);
            return false;
        }
        i = i + 1;
    }
    assert(views(a@) =~= views(b@));
    true
}

impl SearchWalk {
    /// A walk with nothing found, entered or scanned yet.
    pub fn new(max: usize) -> (r: Self)
        ensures
            r.hits@.len() == 0,
            r.visited@.len() == 0,
            r.scanned == 0,
            r.max == max,
    {
        SearchWalk { hits: Vec::new(), visited: Vec::new(), scanned: 0, max }
    }

    /// Whether the directory `dir` was entered already.
    pub fn was_visited(&self, dir: &Vec<String>) -> (r: bool)
        ensures
            r == visited_views(self.visited@).contains(views(dir@)),
    {
        let mut i: usize = 0;
        while i < self.visited.len()
            invariant
                i <= self.visited@.len(),
                forall|j: int| 0 <= j < i ==> views(self.visited@[j]@) != views(dir@),
            decreases self.visited@.len() - i,
        {
            if same_parts(&self.visited[i], dir) {
                assert(visited_views(self.visited@)[i as int] == views(dir@));
                return true;
            }
            i = i + 1;
        }
        proof {
            if visited_views(self.visited@).contains(views(dir@)) {
                let k = choose|k: int|
                    0 <= k < visited_views(self.visited@).len() && visited_views(
                        self.visited@,
                    )[k] == views(dir@);
                assert(views(self.visited@[k]@) == views(dir@));
            }
        }
        false
    }

    /// Enter `dir`, `depth` levels below the start, if there is room, it lies under
    /// `root`, and it was not entered before; an entered directory is recorded.
    pub fn try_enter(&mut self, root: &Vec<String>, dir: &Vec<String>, depth: usize) -> (enter:
        bool)
        ensures
            enter == (may_enter(
                old(self).hits@.len(),
                old(self).max as nat,
                old(self).scanned as nat,
                depth as int,
            ) && under_root(views(dir@), views(root@)) && !visited_views(
                old(self).visited@,
            ).contains(views(dir@))),
            final(self).hits@ == old(self).hits@,
            final(self).scanned == old(self).scanned,
            final(self).max == old(self).max,
            visited_views(final(self).visited@) == if enter {
                visited_views(old(self).visited@).push(views(dir@))
            } else {
                visited_views(old(self).visited@)
            },
    {
        if !may_enter_dir(self.hits.len(), self.max, self.scanned, depth) || !is_under_root(
            dir,
            root,
        ) {
            return false;
        }
        if self.was_visited(dir) {
            return false;
        }
        let ghost before = self.visited@;
        self.visited.push(crate::text::clone_strings(dir));
        assert(visited_views(self.visited@) =~= visited_views(before).push(views(dir@)));
        true
    }

    /// Count one more entry if there is room for hits and entries; otherwise the walk
    /// stops.
    pub fn scan_next(&mut self) -> (go: bool)
        ensures
            go == (old(self).hits@.len() < old(self).max && old(self).scanned
                < SEARCH_MAX_ENTRIES),
            final(self).scanned == old(self).scanned + if go {
                1int
            } else {
                0int
            },
            final(self).hits@ == old(self).hits@,
            final(self).visited@ == old(self).visited@,
            final(self).max == old(self).max,
    {
        if may_scan_entry(self.hits.len(), self.max, self.scanned) {
            self.scanned = self.scanned + 1;
            true
        } else {
            false
        }
    }

    /// Take in one entry of a directory entered `depth` levels below the start, once
    /// `scan_next` let it through: its hits are appended in order, never past `max`, and
    /// the answer says whether to walk into it, which only an unvisited directory
    /// under `root` gets, and which is then recorded as entered.
    pub fn walk_entry(&mut self, root: &Vec<String>, depth: usize, e: WalkEntry, query: &str) -> (descend:
        bool)
        requires
            old(self).hits@.len() < old(self).max,
        ensures
            views(final(self).hits@) == entry_hits(
                views(old(self).hits@),
                old(self).max as nat,
                e,
                query@,
            ),
            final(self).hits@.len() <= final(self).max,
            final(self).scanned == old(self).scanned,
            final(self).max == old(self).max,
            descend ==> (e.kind matches EntryKind::Dir(c) && may_enter(
                (old(self).hits@.len() + if name_matches(e.rel@, e.name@, query@) {
                    1int
                } else {
                    0int
                }) as nat,
                old(self).max as nat,
                old(self).scanned as nat,
                depth + 1,
            ) && under_root(views(c@), views(root@)) && !visited_views(
                old(self).visited@,
            ).contains(views(c@)) && visited_views(final(self).visited@) == visited_views(
                old(self).visited@,
            ).push(views(c@))),
            !descend ==> (visited_views(final(self).visited@) == visited_views(old(self).visited@)
                && (e.kind matches EntryKind::Dir(c) ==> !(may_enter(
                (old(self).hits@.len() + if name_matches(e.rel@, e.name@, query@) {
                    1int
                } else {
                    0int
                }) as nat,
                old(self).max as nat,
                old(self).scanned as nat,
                depth + 1,
            ) && under_root(views(c@), views(root@)) && !visited_views(
                old(self).visited@,
            ).contains(views(c@))))),
    {
        let ghost e_spec = e;
        let ghost h0 = views(self.hits@);
        let WalkEntry { rel, name, kind } = e;
        let q = chars_of(query);
        let matched = crate::text::contains_seq(chars_of(rel.as_str()).as_slice(), q.as_slice())
            || crate::text::contains_seq(chars_of(name.as_str()).as_slice(), q.as_slice());
        match kind {
            EntryKind::Dir(c) => {
                if matched {
                    self.hits.push(name_hit(rel.as_str(), NameHit::Dir));
                    assert(views(self.hits@) =~= h0.push(name_hit_text(rel@, NameHit::Dir)));
                }
                if depth < SEARCH_MAX_DEPTH {
                    self.try_enter(root, &c, depth + 1)
                } else {
                    false
                }
            },
            EntryKind::TooLarge => {
                if matched {
                    self.hits.push(name_hit(rel.as_str(), NameHit::TooLarge));
                    assert(views(self.hits@) =~= h0.push(name_hit_text(rel@, NameHit::TooLarge)));
                }
                false
            },
            EntryKind::Unreadable => {
                if matched {
                    self.hits.push(name_hit(rel.as_str(), NameHit::Unreadable));
                    assert(views(self.hits@) =~= h0.push(
                        name_hit_text(rel@, NameHit::Unreadable),
                    ));
                }
                false
            },
            EntryKind::File(content) => {
                if matched {
                    self.hits.push(name_hit(rel.as_str(), NameHit::File));
                    assert(views(self.hits@) =~= h0.push(name_hit_text(rel@, NameHit::File)));
                }
                let ghost h1 = views(self.hits@);
                let room = self.max - self.hits.len();
                let mut more = content_hits(rel.as_str(), content.as_str(), query, room);
                let ghost m = more@;
                self.hits.append(&mut more);
                assert(views(self.hits@) =~= h1 + views(m));
                false
            },
        }
    }
}

// ---------------------------------------------------------------------------
// Precise edits

/// The number of non-overlapping occurrences of the non-empty `p` in `s`, left to right.
pub open spec fn count_matches(s: Seq<char>, p: Seq<char>) -> nat
    decreases s.len(),
{
    if p.len() == 0 || s.len() < p.len() {
        0
    } else if s.take(p.len() as int) == p {
        1 + count_matches(s.skip(p.len() as int), p)
    } else {
        count_matches(s.drop_first(), p)
    }
}

/// `s` with its first occurrence of `p` replaced by `r`.
pub open spec fn replace_first(s: Seq<char>, p: Seq<char>, r: Seq<char>) -> Seq<char>
    decreases s.len(),
{
    if p.len() == 0 || s.len() < p.len() {
        s
    } else if s.take(p.len() as int) == p {
        r + s.skip(p.len() as int)
    } else {
        seq![s[0]] + replace_first(s.drop_first(), p, r)
    }
}

fn count_matches_exec(s: &[char], p: &[char]) -> (n: usize)
    requires
        p@.len() > 0,
    ensures
        n == count_matches(s@, p@),
{
    let mut n: usize = 0;
    let mut i: usize = 0;
    assert(s@.skip(0) =~= s@);
    while i < s.len()
        invariant
            p@.len() > 0,
            i <= s@.len(),
            n <= i,
            n + count_matches(s@.skip(i as int), p@) == count_matches(s@, p@),
        decreases s@.len() - i,
    {
        let ghost rest = s@.skip(i as int);
        if p.len() <= s.len() - i && crate::text::matches_at(s, p, i) {
            assert(rest.take(p@.len() as int) =~= s@.subrange(i as int, i + p@.len()));
            assert(rest.skip(p@.len() as int) =~= s@.skip(i + p@.len()));
            n = n + 1;
            i = i + p.len();
        } else {
            if p.len() <= s.len() - i {
                assert(rest.take(p@.len() as int) =~= s@.subrange(i as int, i + p@.len()));
            }
            assert(rest.drop_first() =~= s@.skip(i + 1));
            i = i + 1;
        }
    }
    assert(s@.skip(i as int) =~= Seq::<char>::empty());
    n
}

fn replace_first_exec(s: &[char], p: &[char], r: &[char]) -> (out: Vec<char>)
    requires
        p@.len() > 0,
    ensures
        out@ == replace_first(s@, p@, r@),
{
    let mut out: Vec<char> = Vec::new();
    let mut i: usize = 0;
    assert(s@.skip(0) =~= s@);
    while i < s.len()
        invariant
            p@.len() > 0,
            i <= s@.len(),
            out@ + replace_first(s@.skip(i as int), p@, r@) == replace_first(s@, p@, r@),
        decreases s@.len() - i,
    {
        let ghost rest = s@.skip(i as int);
        if p.len() <= s.len() - i && crate::text::matches_at(s, p, i) {
            assert(rest.take(p@.len() as int) =~= s@.subrange(i as int, i + p@.len()));
            let ghost before = out@;
            let mut k: usize = 0;
            while k < r.len()
                invariant
                    k <= r@.len(),
                    out@ == before + r@.take(k as int),
                decreases r@.len() - k,
            {
                out.push(r[k]);
                k = k + 1;
                assert(r@.take(k as int) =~= r@.take(k - 1).push(r@[k - 1]));
            }
            let mut j = i + p.len();
            let ghost mid = out@;
            while j < s.len()
                invariant
                    i + p@.len() <= j <= s@.len(),
                    out@ == mid + s@.subrange(i + p@.len(), j as int),
                decreases s@.len() - j,
            {
                out.push(s[j]);
                j = j + 1;
                assert(out@ =~= mid + s@.subrange(i + p@.len(), j as int));
            }
            assert(r@.take(r@.len() as int) =~= r@);
            assert(rest.skip(p@.len() as int) =~= s@.subrange(i + p@.len(), s@.len() as int));
            assert(out@ =~= before + (r@ + rest.skip(p@.len() as int)));
            return out;
        } else {
            if p.len() <= s.len() - i {
                assert(rest.take(p@.len() as int) =~= s@.subrange(i as int, i + p@.len()));
            }
            assert(rest.drop_first() =~= s@.skip(i + 1));
            let ghost before = out@;
            out.push(s[i]);
            assert(out@ + replace_first(s@.skip(i + 1), p@, r@) =~= before + (seq![rest[0]]
                + replace_first(rest.drop_first(), p@, r@)));
            i = i + 1;
        }
    }
    assert(s@.skip(i as int) =~= Seq::<char>::empty());
    out
}

/// The outcome of an edit of `original`: the new text and the number of replacements,
/// or why the edit is refused.
pub open spec fn patch_outcome(
    original: Seq<char>,
    old_string: Seq<char>,
    new_string: Seq<char>,
    replace_all_flag: bool,
) -> Result<(Seq<char>, nat), Seq<char>> {
    let n = count_matches(original, old_string);
    if n == 0 {
        Err("apply_patch: old_string not found in file"@)
    } else if !replace_all_flag && n > 1 {
        Err("apply_patch: old_string matches "@ + decimal(n)
            + " times; set replace_all=true or use a more specific old_string"@)
    } else if replace_all_flag {
        Ok((replace_all(original, old_string, new_string), n))
    } else {
        Ok((replace_first(original, old_string, new_string), 1))
    }
}

/// Edit a file's text: the one occurrence of `old_string` (or each, with
/// `replace_all`) becomes `new_string`.
pub fn plan_patch(original: &str, old_string: &str, new_string: &str, replace_all_flag: bool) -> (r:
    Result<(String, usize), ToolError>)
    requires
        old_string@.len() > 0,
    ensures
        match r {
            Ok((t, n)) => patch_outcome(original@, old_string@, new_string@, replace_all_flag)
                == Ok::<(Seq<char>, nat), Seq<char>>((t@, n as nat)),
            Err(e) => patch_outcome(original@, old_string@, new_string@, replace_all_flag) matches Err(
                m,
            ) && (e matches ToolError::Failed(x) && x@ == m),
        },
{
    let s = chars_of(original);
    let p = chars_of(old_string);
    let r = chars_of(new_string);
    let n = count_matches_exec(s.as_slice(), p.as_slice());
    if n == 0 {
        return Err(ToolError::Failed(String::from_str("apply_patch: old_string not found in file")));
    }
    if !replace_all_flag && n > 1 {
        return Err(
            ToolError::Failed(
                String::from_str("apply_patch: old_string matches ").concat(
                    crate::text::decimal_string(n as u64).as_str(),
                ).concat(" times; set replace_all=true or use a more specific old_string"),
            ),
        );
    }
    if replace_all_flag {
        let out = crate::text::replace_all_exec(s.as_slice(), p.as_slice(), r.as_slice());
        Ok((string_of(out.as_slice()), n))
    } else {
        let out = replace_first_exec(s.as_slice(), p.as_slice(), r.as_slice());
        Ok((string_of(out.as_slice()), 1))
    }
}

/// Refuse a file too large to edit in memory.
pub fn check_patch_size(len: u64) -> (r: Result<(), ToolError>)
    ensures
        len <= MAX_TOOL_FILE_BYTES ==> r is Ok,
        len > MAX_TOOL_FILE_BYTES ==> (r matches Err(ToolError::Failed(m)) && m@
            == "apply_patch: file exceeds 1000000 byte limit"@),
{
    if len > MAX_TOOL_FILE_BYTES {
        return Err(ToolError::Failed(String::from_str("apply_patch: file exceeds 1000000 byte limit")));
    }
    Ok(())
}

/// The answer to a successful edit.
pub fn patch_result(path: &str, replaced: usize, updated: &str) -> (r: ToolResult)
    requires
        encode_utf8(updated@).len() <= usize::MAX,
    ensures
        r.content@ == "patched "@ + path@ + ": "@ + decimal(replaced as nat) + " replacement(s)"@,
        r.summary@ == "apply_patch path="@ + truncate_chars(path@, 64) + " replaced="@ + decimal(
            replaced as nat,
        ) + " bytes="@ + decimal(encode_utf8(updated@).len()),
{
    let n = crate::text::decimal_string(replaced as u64);
    let content = String::from_str("patched ").concat(path).concat(": ").concat(n.as_str()).concat(
        " replacement(s)",
    );
    let summary = String::from_str("apply_patch path=").concat(
        sanitize_path_for_event(path).as_str(),
    ).concat(" replaced=").concat(n.as_str()).concat(" bytes=").concat(
        crate::text::decimal_string(updated.len() as u64).as_str(),
    );
    ToolResult { content, summary }
}

/// The answer to a read: the file's text, and its path and size for the event.
pub fn read_result(path: &str, content: String) -> (r: ToolResult)
    requires
        encode_utf8(content@).len() <= usize::MAX,
    ensures
        r.content == content,
        r.summary@ == "read_file path="@ + truncate_chars(path@, 64) + " bytes="@ + decimal(
            encode_utf8(content@).len(),
        ),
{
    let summary = String::from_str("read_file path=").concat(sanitize_path_for_event(path).as_str()).concat(
        " bytes=",
    ).concat(crate::text::decimal_string(content.as_str().len() as u64).as_str());
    ToolResult { content, summary }
}

/// The answer to a write of `content`.
pub fn write_result(path: &str, content: &str) -> (r: ToolResult)
    requires
        encode_utf8(content@).len() <= usize::MAX,
    ensures
        r.content@ == "wrote "@ + decimal(encode_utf8(content@).len()) + " bytes"@,
        r.summary@ == "write_file path="@ + truncate_chars(path@, 64) + " bytes="@ + decimal(
            encode_utf8(content@).len(),
        ),
{
    let n = crate::text::decimal_string(content.len() as u64);
    ToolResult {
        content: String::from_str("wrote ").concat(n.as_str()).concat(" bytes"),
        summary: String::from_str("write_file path=").concat(sanitize_path_for_event(path).as_str()).concat(
            " bytes=",
        ).concat(n.as_str()),
    }
}

// ---------------------------------------------------------------------------
// Search hits

/// The result cap of a search: the requested number (20 when absent) clamped to 1..=100.
pub open spec fn max_results(requested: Option<u64>) -> nat {
    let n = match requested {
        Some(v) => v as nat,
        None => 20,
    };
    if n < 1 {
        1
    } else if n > 100 {
        100
    } else {
        n
    }
}

/// The content hit for line `line_no` of the file at `rel`.
pub open spec fn line_hit(rel: Seq<char>, line_no: nat, line: Seq<char>) -> Seq<char> {
    rel + ":"@ + decimal(line_no) + ": "@ + truncate_chars(trim(line), 120)
}

/// The content hits of the lines from `from` on (numbered from `from + 1`).
pub open spec fn content_hits_from(
    rel: Seq<char>,
    ls: Seq<Seq<char>>,
    query: Seq<char>,
    from: int,
) -> Seq<Seq<char>>
    decreases ls.len() - from,
{
    if from < 0 || from >= ls.len() {
        Seq::empty()
    } else {
        let rest = content_hits_from(rel, ls, query, from + 1);
        if contains(ls[from], query) {
            seq![line_hit(rel, (from + 1) as nat, ls[from])] + rest
        } else {
            rest
        }
    }
}

/// The lines of a file holding the query, as hits, at most `room` of them.
pub fn content_hits(rel: &str, content: &str, query: &str, room: usize) -> (r: Vec<String>)
    ensures
        views(r@) == crate::storage::memory::at_most(
            content_hits_from(rel@, lines(content@), query@, 0),
            room as nat,
        ),
{
    let cs = chars_of(content);
    let ls = crate::text::lines_exec(cs.as_slice());
    let ghost lv = ls@.map_values(|v: Vec<char>| v@);
    let q = chars_of(query);
    let mut out: Vec<String> = Vec::new();
    let mut i: usize = 0;
    while i < ls.len() && out.len() < room
        invariant
            i <= ls@.len(),
            lv == ls@.map_values(|v: Vec<char>| v@),
            lv == lines(content@),
            q@ == query@,
            out@.len() <= room,
            views(out@) + content_hits_from(rel@, lv, query@, i as int) == content_hits_from(
                rel@,
                lv,
                query@,
                0,
            ),
        decreases ls@.len() - i,
    {
        let ghost before = views(out@);
        assert(lv[i as int] == ls@[i as int]@);
        if crate::text::contains_seq(ls[i].as_slice(), q.as_slice()) {
            let t = crate::text::trim_exec(ls[i].as_slice());
            let ts = string_of(t.as_slice());
            let snippet = truncate_for_event(ts.as_str(), 120);
            let hit = String::from_str(rel).concat(":").concat(
                crate::text::decimal_string((i + 1) as u64).as_str(),
            ).concat(": ").concat(snippet.as_str());
            out.push(hit);
            assert(views(out@) =~= before.push(line_hit(rel@, (i + 1) as nat, lv[i as int])));
            assert(views(out@) + content_hits_from(rel@, lv, query@, i + 1) =~= before + (seq![
                line_hit(rel@, (i + 1) as nat, lv[i as int]),
            ] + content_hits_from(rel@, lv, query@, i + 1)));
        }
        i = i + 1;
    }
    proof {
        let all = content_hits_from(rel@, lv, query@, 0);
        let done = views(out@);
        let rest = content_hits_from(rel@, lv, query@, i as int);
        assert(all == done + rest);
        if i >= ls@.len() {
            assert(rest =~= Seq::<Seq<char>>::empty());
            assert(done =~= all);
        } else {
            assert(done.len() == room);
            assert(all.take(room as int) =~= done);
        }
    }
    out
}

/// The label of a name hit: a directory, a file too large to read, an unreadable file,
/// or a file whose content follows.
pub enum NameHit {
    Dir,
    TooLarge,
    Unreadable,
    File,
}

/// The hit text for a path whose name holds the query.
pub open spec fn name_hit_text(rel: Seq<char>, kind: NameHit) -> Seq<char> {
    match kind {
        NameHit::Dir => rel + "/ [dir name match]"@,
        NameHit::TooLarge => rel + " [name match; content skipped size]"@,
        NameHit::Unreadable => rel + " [name match; binary/unreadable]"@,
        NameHit::File => rel + " [name match]"@,
    }
}

/// The hit text for a path whose name holds the query.
pub fn name_hit(rel: &str, kind: NameHit) -> (r: String)
    ensures
        r@ == name_hit_text(rel@, kind),
{
    match kind {
        NameHit::Dir => String::from_str(rel).concat("/ [dir name match]"),
        NameHit::TooLarge => String::from_str(rel).concat(" [name match; content skipped size]"),
        NameHit::Unreadable => String::from_str(rel).concat(" [name match; binary/unreadable]"),
        NameHit::File => String::from_str(rel).concat(" [name match]"),
    }
}

/// A directory may be entered: room for hits and entries, and not too deep.
pub fn may_enter_dir(hits: usize, max: usize, entries_scanned: usize, depth: usize) -> (r: bool)
    ensures
        r == (hits < max && entries_scanned < SEARCH_MAX_ENTRIES && depth <= SEARCH_MAX_DEPTH),
{
    hits < max && entries_scanned < SEARCH_MAX_ENTRIES && depth <= SEARCH_MAX_DEPTH
}

/// Another entry may be scanned: room for hits and entries.
pub fn may_scan_entry(hits: usize, max: usize, entries_scanned: usize) -> (r: bool)
    ensures
        r == (hits < max && entries_scanned < SEARCH_MAX_ENTRIES),
{
    hits < max && entries_scanned < SEARCH_MAX_ENTRIES
}

/// The answer to a search: the hits one per line (or a no-match note), and the query,
/// hit count and path for the event.
pub fn search_result(query: &str, subpath: &str, hits: &Vec<String>) -> (r: ToolResult)
    ensures
        hits@.len() == 0 ==> r.content@ == "no matches for "@ + crate::text::debug_str(query@),
        hits@.len() > 0 ==> r.content@ == crate::model::consumer::join_lines(views(hits@)),
        r.summary@ == "search_files query="@ + truncate_chars(query@, 40) + " hits="@ + decimal(
            hits@.len() as nat,
        ) + " path="@ + truncate_chars(
            if subpath@.len() == 0 {
                "."@
            } else {
                subpath@
            },
            64,
        ),
{
    let content = if hits.len() == 0 {
        String::from_str("no matches for ").concat(crate::text::debug_str_exec(query).as_str())
    } else {
        join_with_newlines(hits)
    };
    let shown = if subpath.is_empty() {
        sanitize_path_for_event(".")
    } else {
        sanitize_path_for_event(subpath)
    };
    let summary = String::from_str("search_files query=").concat(
        truncate_for_event(query, 40).as_str(),
    ).concat(" hits=").concat(crate::text::decimal_string(hits.len() as u64).as_str()).concat(
        " path=",
    ).concat(shown.as_str());
    ToolResult { content, summary }
}

/// Lines joined with `\n`.
pub fn join_with_newlines(items: &Vec<String>) -> (r: String)
    ensures
        r@ == crate::model::consumer::join_lines(views(items@)),
{
    proof {
        reveal_strlit("\n");
    }
    let mut out: Vec<char> = Vec::new();
    let mut i: usize = 0;
    assert(views(items@).take(0) =~= Seq::<Seq<char>>::empty());
    while i < items.len()
        invariant
            i <= items@.len(),
            out@ == crate::model::consumer::join_lines(views(items@).take(i as int)),
        decreases items@.len() - i,
    {
        let ghost vs = views(items@);
        proof {
            reveal_strlit("\n");
        }
        if i > 0 {
            out.push('\n');
        }
        let c = chars_of(items[i].as_str());
        let ghost before = out@;
        let mut j: usize = 0;
        while j < c.len()
            invariant
                j <= c@.len(),
                out@ == before + c@.take(j as int),
            decreases c@.len() - j,
        {
            out.push(c[j]);
            j = j + 1;
            assert(out@ =~= before + c@.take(j as int));
        }
        proof {
            assert(c@.take(c@.len() as int) =~= c@);
            assert(vs.take(i + 1).drop_last() =~= vs.take(i as int));
            if i == 0 {
                assert(vs.take(1) =~= seq![vs[0]]);
            }
        }
        i = i + 1;
    }
    assert(views(items@).take(i as int) =~= views(items@));
    string_of(out.as_slice())
}

// ---------------------------------------------------------------------------
// Which call does what

/// What a workspace call asks for once its arguments are read.
pub enum WorkspaceAction {
    Read { path: String },
    Write { path: String, content: String },
    Patch { path: String, old_string: String, new_string: String, replace_all: bool },
    Search { query: String, subpath: String, max_results: usize },
}

/// The tools of this runtime, in catalog order, with their descriptions.
pub open spec fn workspace_tools() -> Seq<(Seq<char>, Seq<char>)> {
    seq![
        ("read_file"@, "Read a file under workspace roots"@),
        ("write_file"@, "Write a file under workspace roots"@),
        ("apply_patch"@, "Apply a unified patch under workspace roots"@),
        ("search_files"@, "Search files under workspace roots"@),
    ]
}

/// The denial for a tool this runtime may not run.
pub open spec fn disallowed(name: Seq<char>) -> Seq<char> {
    "unknown or disallowed tool '"@ + name + "'"@
}

/// `key`, when a call's arguments lack it as text.
pub open spec fn missing(args: Json, key: Seq<char>) -> Option<Seq<char>> {
    if get_str(args, key) is None {
        Some(key)
    } else {
        None
    }
}

/// The first missing of two.
pub open spec fn first_of(a: Option<Seq<char>>, b: Option<Seq<char>>) -> Option<Seq<char>> {
    if a is Some {
        a
    } else {
        b
    }
}

/// The first text argument an edit lacks, if any.
pub open spec fn patch_lacking(args: Json) -> Option<Seq<char>> {
    first_of(
        missing(args, "path"@),
        first_of(missing(args, "old_string"@), missing(args, "new_string"@)),
    )
}

/// A call lacking one of its required text arguments fails naming the first missing
/// one; a call holding them all is planned unless a later check refuses it, and then
/// fails only that way (never with a `Denied` or `PathJail`).
pub open spec fn args_answer(lacking: Option<Seq<char>>, r: Result<WorkspaceAction, ToolError>) -> bool {
    match lacking {
        Some(k) => r matches Err(ToolError::Failed(m)) && m@ == missing_arg(k),
        None => r is Ok || r matches Err(ToolError::Failed(_)),
    }
}

impl WorkspaceFsTools {
    /// The catalog: the tools of this runtime that are allowed, in order.
    pub fn catalog(&self) -> (r: Vec<ToolSpec>)
        ensures
            r@.len() <= 4,
            forall|i: int|
                0 <= i < r@.len() ==> is_empty_params(#[trigger] r@[i].parameters)
                    && views(self.allowed@).contains(r@[i].name@),
            forall|k: int|
                0 <= k < 4 && views(self.allowed@).contains(#[trigger] workspace_tools()[k].0)
                    ==> exists|i: int|
                    0 <= i < r@.len() && r@[i].name@ == workspace_tools()[k].0
                        && r@[i].description@ == workspace_tools()[k].1,
    {
        let names: [&str; 4] = ["read_file", "write_file", "apply_patch", "search_files"];
        let descs: [&str; 4] = [
            "Read a file under workspace roots",
            "Write a file under workspace roots",
            "Apply a unified patch under workspace roots",
            "Search files under workspace roots",
        ];
        let mut out: Vec<ToolSpec> = Vec::new();
        let mut k: usize = 0;
        while k < 4
            invariant
                k <= 4,
                out@.len() <= k,
                forall|j: int| 0 <= j < 4 ==> names@[j]@ == workspace_tools()[j].0,
                forall|j: int| 0 <= j < 4 ==> descs@[j]@ == workspace_tools()[j].1,
                forall|i: int|
                    0 <= i < out@.len() ==> is_empty_params(#[trigger] out@[i].parameters)
                        && views(self.allowed@).contains(out@[i].name@),
                forall|j: int|
                    0 <= j < k && views(self.allowed@).contains(#[trigger] workspace_tools()[j].0)
                        ==> exists|i: int|
                        0 <= i < out@.len() && out@[i].name@ == workspace_tools()[j].0
                            && out@[i].description@ == workspace_tools()[j].1,
            decreases 4 - k,
        {
            let ghost before = out@;
            if crate::text::list_contains(self.allowed.as_slice(), names[k]) {
                out.push(ToolSpec::empty_params(names[k], descs[k]));
                assert(out@[before.len() as int].name@ == workspace_tools()[k as int].0);
            }
            proof {
                assert forall|j: int|
                    0 <= j < k + 1 && views(self.allowed@).contains(
                        #[trigger] workspace_tools()[j].0,
                    ) implies exists|i: int|
                    0 <= i < out@.len() && out@[i].name@ == workspace_tools()[j].0
                        && out@[i].description@ == workspace_tools()[j].1 by {
                    if j < k {
                        let i = choose|i: int|
                            0 <= i < before.len() && before[i].name@ == workspace_tools()[j].0
                                && before[i].description@ == workspace_tools()[j].1;
                        assert(out@[i] == before[i]);
                    } else {
                        assert(out@[before.len() as int].name@ == workspace_tools()[j].0);
                    }
                }
            }
            k = k + 1;
        }
        out
    }

    /// What a call asks for, or why it is refused before any file is touched.
    pub fn plan_call(&self, call: &ToolCall) -> (r: Result<WorkspaceAction, ToolError>)
        ensures
            !views(self.allowed@).contains(call.name@) ==> (r matches Err(ToolError::Denied(m))
                && m@ == disallowed(call.name@)),
            r matches Ok(WorkspaceAction::Read { path }) ==> call.name@ == "read_file"@ && get_str(
                call.arguments,
                "path"@,
            ) == Some(path@),
            r matches Ok(WorkspaceAction::Write { path, content }) ==> call.name@ == "write_file"@
                && get_str(call.arguments, "path"@) == Some(path@) && get_str(
                call.arguments,
                "content"@,
            ) == Some(content@),
            r matches Ok(
                WorkspaceAction::Patch { path, old_string, new_string, replace_all },
            ) ==> call.name@ == "apply_patch"@ && get_str(call.arguments, "path"@) == Some(path@)
                && get_str(call.arguments, "old_string"@) == Some(old_string@) && get_str(
                call.arguments,
                "new_string"@,
            ) == Some(new_string@) && old_string@.len() > 0 && replace_all == (match get_bool(
                call.arguments,
                "replace_all"@,
            ) {
                Some(b) => b,
                None => false,
            }),
            r matches Ok(WorkspaceAction::Search { query, subpath, max_results: m }) ==> call.name@
                == "search_files"@ && get_str(call.arguments, "query"@) == Some(query@)
                && query@.len() > 0 && subpath@ == (match get_str(call.arguments, "path"@) {
                Some(p) => p,
                None => Seq::empty(),
            }) && m as nat == max_results(get_u64(call.arguments, "max_results"@)),
            views(self.allowed@).contains(call.name@) && call.name@ != "read_file"@ && call.name@
                != "write_file"@ && call.name@ != "apply_patch"@ && call.name@ != "search_files"@
                ==> (r matches Err(ToolError::Denied(m)) && m@ == disallowed(call.name@)),
            views(self.allowed@).contains(call.name@) && call.name@ == "read_file"@ ==> args_answer(
                missing(call.arguments, "path"@),
                r,
            ) && (missing(call.arguments, "path"@) is None ==> (r matches Ok(
                WorkspaceAction::Read { path },
            ) && get_str(call.arguments, "path"@) == Some(path@))),
            views(self.allowed@).contains(call.name@) && call.name@ == "write_file"@ ==> args_answer(
                first_of(missing(call.arguments, "path"@), missing(call.arguments, "content"@)),
                r,
            ) && (first_of(missing(call.arguments, "path"@), missing(call.arguments, "content"@))
                is None ==> (r matches Ok(WorkspaceAction::Write { path, content }) && get_str(
                call.arguments,
                "path"@,
            ) == Some(path@) && get_str(call.arguments, "content"@) == Some(content@))),
            views(self.allowed@).contains(call.name@) && call.name@ == "apply_patch"@ ==> args_answer(patch_lacking(call.arguments), r) && (patch_lacking(call.arguments) is None
                ==> if get_str(call.arguments, "old_string"@) == Some(Seq::<char>::empty()) {
                r matches Err(ToolError::Failed(m)) && m@ == "apply_patch: old_string must not be empty"@
            } else {
                r is Ok
            }),
            views(self.allowed@).contains(call.name@) && call.name@ == "search_files"@ ==> args_answer(missing(call.arguments, "query"@), r) && (missing(call.arguments, "query"@) is None ==> if get_str(
                call.arguments,
                "query"@,
            ) == Some(Seq::<char>::empty()) {
                r matches Err(ToolError::Failed(m)) && m@ == "search_files: query must not be empty"@
            } else {
                r is Ok
            }),
    {
        proof {
            reveal_strlit("read_file");
            reveal_strlit("write_file");
            reveal_strlit("apply_patch");
            reveal_strlit("search_files");
            assert("read_file"@.len() == 9 && "write_file"@.len() == 10);
            assert("apply_patch"@.len() == 11 && "search_files"@.len() == 12);
        }
        let name = call.name.as_str();
        if !crate::text::list_contains(self.allowed.as_slice(), name) {
            return Err(
                ToolError::Denied(
                    String::from_str("unknown or disallowed tool '").concat(name).concat("'"),
                ),
            );
        }
        if crate::text::str_eq(name, "read_file") {
            let path = match arg_string(&call.arguments, "path") {
                Ok(v) => v,
                Err(e) => {
                    return Err(e);
                },
            };
            Ok(WorkspaceAction::Read { path })
        } else if crate::text::str_eq(name, "write_file") {
            let path = match arg_string(&call.arguments, "path") {
                Ok(v) => v,
                Err(e) => {
                    return Err(e);
                },
            };
            let content = match arg_string(&call.arguments, "content") {
                Ok(v) => v,
                Err(e) => {
                    return Err(e);
                },
            };
            Ok(WorkspaceAction::Write { path, content })
        } else if crate::text::str_eq(name, "apply_patch") {
            let path = match arg_string(&call.arguments, "path") {
                Ok(v) => v,
                Err(e) => {
                    return Err(e);
                },
            };
            let old_string = match arg_string(&call.arguments, "old_string") {
                Ok(v) => v,
                Err(e) => {
                    return Err(e);
                },
            };
            let new_string = match arg_string(&call.arguments, "new_string") {
                Ok(v) => v,
                Err(e) => {
                    return Err(e);
                },
            };
            let replace_all = match crate::json::get_bool_exec(&call.arguments, "replace_all") {
                Some(b) => b,
                None => false,
            };
            if old_string.as_str().is_empty() {
                assert(old_string@ =~= Seq::<char>::empty());
                return Err(
                    ToolError::Failed(String::from_str("apply_patch: old_string must not be empty")),
                );
            }
            Ok(WorkspaceAction::Patch { path, old_string, new_string, replace_all })
        } else if crate::text::str_eq(name, "search_files") {
            let query = match arg_string(&call.arguments, "query") {
                Ok(v) => v,
                Err(e) => {
                    return Err(e);
                },
            };
            if query.as_str().is_empty() {
                assert(query@ =~= Seq::<char>::empty());
                return Err(ToolError::Failed(String::from_str("search_files: query must not be empty")));
            }
            let subpath = match crate::json::get_str_exec(&call.arguments, "path") {
                Some(p) => p.clone(),
                None => String::new(),
            };
            let requested = crate::json::get_u64_exec(&call.arguments, "max_results");
            let n: u64 = match requested {
                Some(v) => v,
                None => 20,
            };
            let m: usize = if n < 1 {
                1
            } else if n > 100 {
                100
            } else {
                n as usize
            };
            Ok(WorkspaceAction::Search { query, subpath, max_results: m })
        } else {
            Err(
                ToolError::Denied(
                    String::from_str("unknown or disallowed tool '").concat(name).concat("'"),
                ),
            )
        }
    }
}

} // verus!
