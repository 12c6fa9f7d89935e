//! Consumer web session material, its configuration, and secret values read from
//! the environment or from secret files.

use crate::json::{parse_json, serde_parse, str_of, Json};
use crate::text::{
    chars_of, debug_strings, debug_strings_exec, list_contains, starts_with, string_of, trim,
    trim_end_char, trim_end_char_exec, trim_str, views,
};
use vstd::prelude::*;

verus! {

/// A present, non-empty text.
pub open spec fn nonempty(o: Option<String>) -> bool {
    o matches Some(s) && s@.len() > 0
}

/// Operator-supplied consumer web session material (never logged).
#[derive(Debug)]
pub struct ConsumerWebAuth {
    pub cookie_header: Option<String>,
    pub bearer_token: Option<String>,
    /// Extra request headers, name and value.
    pub extra_headers: Vec<(String, String)>,
}

/// The non-empty values among `headers`, in order.
pub open spec fn nonempty_header_values(headers: Seq<(String, String)>) -> Seq<Seq<char>>
    decreases headers.len(),
{
    if headers.len() == 0 {
        Seq::empty()
    } else {
        let prev = nonempty_header_values(headers.drop_last());
        if headers.last().1@.len() > 0 {
            prev.push(headers.last().1@)
        } else {
            prev
        }
    }
}

impl ConsumerWebAuth {
    /// Auth with no cookie, no token and no extra headers.
    pub fn empty() -> (r: Self)
        ensures
            r.cookie_header is None,
            r.bearer_token is None,
            r.extra_headers@.len() == 0,
    {
        ConsumerWebAuth { cookie_header: None, bearer_token: None, extra_headers: Vec::new() }
    }

    /// A non-empty cookie or a non-empty bearer token is present.
    pub open spec fn usable(&self) -> bool {
        nonempty(self.cookie_header) || nonempty(self.bearer_token)
    }

    /// The values that must never appear in errors or logs: the non-empty cookie,
    /// the non-empty token, then the non-empty extra header values.
    pub open spec fn secrets(&self) -> Seq<Seq<char>> {
        let c = if nonempty(self.cookie_header) {
            seq![self.cookie_header->Some_0@]
        } else {
            Seq::empty()
        };
        let t = if nonempty(self.bearer_token) {
            seq![self.bearer_token->Some_0@]
        } else {
            Seq::empty()
        };
        c + t + nonempty_header_values(self.extra_headers@)
    }

    pub fn is_usable(&self) -> (r: bool)
        ensures
            r == self.usable(),
    {
        let c = match &self.cookie_header {
            Some(s) => !s.as_str().is_empty(),
            None => false,
        };
        let t = match &self.bearer_token {
            Some(s) => !s.as_str().is_empty(),
            None => false,
        };
        c || t
    }

    /// Values that must never appear in errors or logs.
    pub fn secret_values(&self) -> (r: Vec<String>)
        ensures
            views(r@) == self.secrets(),
    {
        let mut out: Vec<String> = Vec::new();
        if let Some(c) = &self.cookie_header {
            if !c.as_str().is_empty() {
                out.push(c.clone());
            }
        }
        if let Some(t) = &self.bearer_token {
            if !t.as_str().is_empty() {
                out.push(t.clone());
            }
        }
        let ghost head = views(out@);
        assert(head =~= (if nonempty(self.cookie_header) {
            seq![self.cookie_header->Some_0@]
        } else {
            Seq::empty()
        }) + (if nonempty(self.bearer_token) {
            seq![self.bearer_token->Some_0@]
        } else {
            Seq::empty()
        }));
        let mut i: usize = 0;
        assert(self.extra_headers@.take(0) =~= Seq::<(String, String)>::empty());
        while i < self.extra_headers.len()
            invariant
                i <= self.extra_headers@.len(),
                views(out@) == head + nonempty_header_values(self.extra_headers@.take(i as int)),
            decreases self.extra_headers@.len() - i,
        {
            let v = &self.extra_headers[i].1;
            assert(self.extra_headers@.take(i + 1).drop_last() =~= self.extra_headers@.take(
                i as int,
            ));
            let ghost before = views(out@);
            let ghost pre = self.extra_headers@.take(i as int);
            assert(self.extra_headers@.take(i + 1).last() == self.extra_headers@[i as int]);
            if !v.as_str().is_empty() {
                out.push(v.clone());
                assert(views(out@) =~= before.push(v@));
            } else {
                assert(views(out@) =~= before);
            }
            i = i + 1;
            assert(views(out@) =~= head + nonempty_header_values(
                self.extra_headers@.take(i as int),
            ));
        }
        assert(self.extra_headers@.take(i as int) =~= self.extra_headers@);
        out
    }
}

/// Configuration of a consumer web model provider.
#[derive(Debug)]
pub struct ConsumerWebConfig {
    pub provider_name: String,
    pub base_url: String,
    pub path: String,
    pub model: String,
    pub auth: ConsumerWebAuth,
    pub user_agent: String,
    /// When non-empty, only these model ids are accepted (per-run override included).
    pub allowed_models: Vec<String>,
}

/// The model a request runs on: the trimmed override when it is non-empty, else the default.
pub open spec fn chosen_model(default: Seq<char>, override_model: Option<Seq<char>>) -> Seq<char> {
    match override_model {
        Some(o) => if trim(o).len() > 0 {
            trim(o)
        } else {
            default
        },
        None => default,
    }
}

/// The error for a model outside the allowlist.
pub open spec fn allowlist_error(provider: Seq<char>, model: Seq<char>, allowed: Seq<Seq<char>>) -> Seq<
    char,
> {
    provider + ": model '"@ + model + "' not in allowlist "@ + debug_strings(allowed)
}

/// Model resolution: override (trimmed, when non-empty) or default, then the allowlist.
pub open spec fn resolved_model(
    provider: Seq<char>,
    default: Seq<char>,
    allowed: Seq<Seq<char>>,
    override_model: Option<Seq<char>>,
) -> Result<Seq<char>, Seq<char>> {
    let m = chosen_model(default, override_model);
    if allowed.len() > 0 && !allowed.contains(m) {
        Err(allowlist_error(provider, m, allowed))
    } else {
        Ok(m)
    }
}

/// The model sent is the one asked for (trimmed; a blank request means the default),
/// and with an allowlist it is always one of the allowed models: a model outside a
/// non-empty allowlist is refused, naming it; an empty allowlist refuses nothing.
pub proof fn lemma_resolved_model_allowed(
    provider: Seq<char>,
    default: Seq<char>,
    allowed: Seq<Seq<char>>,
    override_model: Option<Seq<char>>,
)
    ensures
        ({
            let wanted = match override_model {
                Some(o) => if trim(o).len() > 0 {
                    trim(o)
                } else {
                    default
                },
                None => default,
            };
            &&& resolved_model(provider, default, allowed, override_model) matches Ok(m) ==> m
                == wanted && (allowed.len() == 0 || allowed.contains(m))
            &&& (allowed.len() == 0 || allowed.contains(wanted)) ==> resolved_model(
                provider,
                default,
                allowed,
                override_model,
            ) == Ok::<Seq<char>, Seq<char>>(wanted)
            &&& allowed.len() > 0 && !allowed.contains(wanted) ==> resolved_model(
                provider,
                default,
                allowed,
                override_model,
            ) == Err::<Seq<char>, Seq<char>>(
                provider + ": model '"@ + wanted + "' not in allowlist "@ + debug_strings(allowed),
            )
        }),
{
}

/// The text view of a `Result<String, String>`.
pub open spec fn result_view(r: Result<String, String>) -> Result<Seq<char>, Seq<char>> {
    match r {
        Ok(s) => Ok(s@),
        Err(e) => Err(e@),
    }
}

/// An optional string slice's text.
pub open spec fn opt_str_view(o: Option<&str>) -> Option<Seq<char>> {
    match o {
        Some(s) => Some(s@),
        None => None,
    }
}

/// Resolves the model for a request against a default and an allowlist.
pub fn resolve_model_with(
    provider: &str,
    default: &str,
    allowed: &Vec<String>,
    override_model: Option<&str>,
) -> (r: Result<String, String>)
    ensures
        result_view(r) == resolved_model(provider@, default@, views(allowed@), opt_str_view(
            override_model,
        )),
{
    let model = match override_model {
        Some(o) => {
            let t = trim_str(o);
            if t.as_str().is_empty() {
                String::from_str(default)
            } else {
                t
            }
        },
        None => String::from_str(default),
    };
    if allowed.len() > 0 && !list_contains(allowed.as_slice(), model.as_str()) {
        let msg = String::from_str(provider).concat(": model '").concat(model.as_str()).concat(
            "' not in allowlist ",
        ).concat(debug_strings_exec(allowed.as_slice()).as_str());
        return Err(msg);
    }
    Ok(model)
}

/// `base` without trailing slashes, then `path` with one leading slash.
pub open spec fn joined_url(base: Seq<char>, path: Seq<char>) -> Seq<char> {
    let b = trim_end_char(base, '/');
    if starts_with(path, "/"@) {
        b + path
    } else {
        b + "/"@ + path
    }
}

/// Joins a base URL and a path.
pub fn join_url(base: &str, path: &str) -> (r: String)
    ensures
        r@ == joined_url(base@, path@),
{
    let b = chars_of(base);
    let bt = trim_end_char_exec(b.as_slice(), '/');
    let base_s = string_of(bt.as_slice());
    let p = chars_of(path);
    proof {
        reveal_strlit("/");
    }
    if p.len() > 0 && p[0] == '/' {
        assert(path@.take(1) =~= "/"@);
        assert(starts_with(path@, "/"@));
        base_s.concat(path)
    } else {
        assert(!starts_with(path@, "/"@)) by {
            if starts_with(path@, "/"@) {
                assert(path@.take(1)[0] == path@[0]);
            }
        }
        base_s.concat("/").concat(path)
    }
}

impl ConsumerWebConfig {
    /// Resolves the model for a request: override, else the configured default, then the allowlist.
    pub fn resolve_model(&self, override_model: Option<&str>) -> (r: Result<String, String>)
        ensures
            result_view(r) == resolved_model(
                self.provider_name@,
                self.model@,
                views(self.allowed_models@),
                opt_str_view(override_model),
            ),
    {
        resolve_model_with(
            self.provider_name.as_str(),
            self.model.as_str(),
            &self.allowed_models,
            override_model,
        )
    }

    /// The chat endpoint: the base URL joined with the path.
    pub fn chat_url(&self) -> (r: String)
        ensures
            r@ == joined_url(self.base_url@, self.path@),
    {
        join_url(self.base_url.as_str(), self.path.as_str())
    }
}

/// The name of the variable that holds the path to a secret file: `{env_key}_FILE`.
pub open spec fn secret_file_key_spec(env_key: Seq<char>) -> Seq<char> {
    env_key + "_FILE"@
}

/// The variable naming the secret file paired with `env_key`.
pub fn secret_file_key(env_key: &str) -> (r: String)
    ensures
        r@ == secret_file_key_spec(env_key@),
{
    String::from_str(env_key).concat("_FILE")
}

/// A secret taken from a variable's value: trimmed, and absent when empty.
pub open spec fn secret_from_value(value: Seq<char>) -> Option<Seq<char>> {
    if trim(value).len() > 0 {
        Some(trim(value))
    } else {
        None
    }
}

/// The secret held by a variable's value, if the trimmed value is non-empty.
pub fn secret_from_env_value(value: &str) -> (r: Option<String>)
    ensures
        crate::text::opt_view(r) == secret_from_value(value@),
{
    let t = trim_str(value);
    if t.as_str().is_empty() {
        None
    } else {
        Some(t)
    }
}

/// The error for an unreadable secret file.
pub open spec fn read_error(file_key: Seq<char>, path: Seq<char>, err: Seq<char>) -> Seq<char> {
    "failed to read "@ + file_key + "="@ + path + ": "@ + err
}

/// The outcome of a secret file read: the read error, or the trimmed content (absent when empty).
pub open spec fn secret_from_file_spec(
    file_key: Seq<char>,
    path: Seq<char>,
    contents: Result<Seq<char>, Seq<char>>,
) -> Result<Option<Seq<char>>, Seq<char>> {
    match contents {
        Err(e) => Err(read_error(file_key, path, e)),
        Ok(c) => Ok(secret_from_value(c)),
    }
}

/// The text view of a `Result<Option<String>, String>`.
pub open spec fn opt_result_view(r: Result<Option<String>, String>) -> Result<
    Option<Seq<char>>,
    Seq<char>,
> {
    match r {
        Ok(o) => Ok(crate::text::opt_view(o)),
        Err(e) => Err(e@),
    }
}

/// The secret held by a secret file, given what reading `path` produced.
pub fn secret_from_file(file_key: &str, path: &str, contents: Result<String, String>) -> (r: Result<
    Option<String>,
    String,
>)
    ensures
        opt_result_view(r) == secret_from_file_spec(file_key@, path@, result_view(contents)),
{
    match contents {
        Err(e) => Err(String::from_str("failed to read ").concat(file_key).concat("=").concat(
            path,
        ).concat(": ").concat(e.as_str())),
        Ok(c) => Ok(secret_from_env_value(c.as_str())),
    }
}

/// The secret named by a variable, if its value holds one.
pub open spec fn secret_in(env_value: Option<Seq<char>>) -> Option<Seq<char>> {
    match env_value {
        Some(v) => secret_from_value(v),
        None => None,
    }
}

/// A secret from a variable, else from the file its paired `_FILE` variable names:
/// a non-empty trimmed value wins; otherwise the file's trimmed content (absent when
/// empty) or its read error; with neither, no secret.
pub open spec fn loaded_secret(
    file_key: Seq<char>,
    env_value: Option<Seq<char>>,
    file_path: Option<Seq<char>>,
    file_read: Option<Result<Seq<char>, Seq<char>>>,
) -> Result<Option<Seq<char>>, Seq<char>> {
    match secret_in(env_value) {
        Some(s) => Ok(Some(s)),
        None => match (file_path, file_read) {
            (Some(p), Some(c)) => secret_from_file_spec(file_key, p, c),
            _ => Ok(None),
        },
    }
}

/// The paired file must be read: the variable holds no secret.
pub fn needs_secret_file(env_value: Option<&str>) -> (r: bool)
    ensures
        r == (secret_in(opt_str_view(env_value)) is None),
{
    match env_value {
        Some(v) => secret_from_env_value(v).is_none(),
        None => true,
    }
}

/// A secret from `env_key`'s value, else from the file named by `{env_key}_FILE`, given
/// the two variables' values and, when the file was needed, what reading it produced.
pub fn load_secret_pair(
    env_key: &str,
    env_value: Option<&str>,
    file_path: Option<&str>,
    file_read: Option<Result<String, String>>,
) -> (r: Result<Option<String>, String>)
    requires
        secret_in(opt_str_view(env_value)) is None && file_path is Some ==> file_read is Some,
    ensures
        opt_result_view(r) == loaded_secret(
            secret_file_key_spec(env_key@),
            opt_str_view(env_value),
            opt_str_view(file_path),
            match file_read {
                Some(c) => Some(result_view(c)),
                None => None,
            },
        ),
{
    if let Some(v) = env_value {
        if let Some(s) = secret_from_env_value(v) {
            return Ok(Some(s));
        }
    }
    let file_key = secret_file_key(env_key);
    match (file_path, file_read) {
        (Some(path), Some(contents)) => secret_from_file(file_key.as_str(), path, contents),
        _ => Ok(None),
    }
}

/// Extra headers from a JSON object of strings; empty values are skipped.
pub open spec fn headers_from_members(
    env_key: Seq<char>,
    members: Seq<(String, Json)>,
) -> Result<Seq<(Seq<char>, Seq<char>)>, Seq<char>>
    decreases members.len(),
{
    if members.len() == 0 {
        Ok(Seq::empty())
    } else {
        match headers_from_members(env_key, members.drop_last()) {
            Err(e) => Err(e),
            Ok(prev) => {
                let (k, v) = members.last();
                match str_of(v) {
                    None => Err("header "@ + k@ + " in "@ + env_key + " must be a string"@),
                    Some(s) => if s.len() > 0 {
                        Ok(prev.push((k@, s)))
                    } else {
                        Ok(prev)
                    },
                }
            },
        }
    }
}

/// The headers file outcome: read error, JSON error, shape error, or the headers.
pub open spec fn headers_file_spec(
    env_key: Seq<char>,
    path: Seq<char>,
    contents: Result<Seq<char>, Seq<char>>,
) -> Result<Seq<(Seq<char>, Seq<char>)>, Seq<char>> {
    match contents {
        Err(e) => Err(read_error(env_key, path, e)),
        Ok(text) => match serde_parse(text) {
            Err(e) => Err("invalid JSON in "@ + env_key + "="@ + path + ": "@ + e),
            Ok(Json::Object(members)) => headers_from_members(env_key, members@),
            Ok(_) => Err(env_key + " must be a JSON object of string headers"@),
        },
    }
}

/// The text view of header pairs.
pub open spec fn pairs_view(v: Seq<(String, String)>) -> Seq<(Seq<char>, Seq<char>)> {
    v.map_values(|p: (String, String)| (p.0@, p.1@))
}

/// The text view of a headers outcome.
pub open spec fn headers_result_view(r: Result<Vec<(String, String)>, String>) -> Result<
    Seq<(Seq<char>, Seq<char>)>,
    Seq<char>,
> {
    match r {
        Ok(v) => Ok(pairs_view(v@)),
        Err(e) => Err(e@),
    }
}

/// Extra headers from a headers file named by `env_key`, given what reading `path` produced.
pub fn headers_from_file(env_key: &str, path: &str, contents: Result<String, String>) -> (r: Result<
    Vec<(String, String)>,
    String,
>)
    ensures
        headers_result_view(r) == headers_file_spec(env_key@, path@, result_view(contents)),
{
    let text = match &contents {
        Err(e) => {
            return Err(String::from_str("failed to read ").concat(env_key).concat("=").concat(
                path,
            ).concat(": ").concat(e.as_str()));
        },
        Ok(t) => t.clone(),
    };
    let value = match parse_json(text.as_str()) {
        Err(e) => {
            return Err(String::from_str("invalid JSON in ").concat(env_key).concat("=").concat(
                path,
            ).concat(": ").concat(e.as_str()));
        },
        Ok(v) => v,
    };
    let members = match &value {
        Json::Object(m) => m,
        _ => {
            return Err(String::from_str(env_key).concat(" must be a JSON object of string headers"));
        },
    };
    let mut out: Vec<(String, String)> = Vec::new();
    let mut i: usize = 0;
    assert(members@.take(0) =~= Seq::<(String, Json)>::empty());
    assert(pairs_view(out@) =~= Seq::<(Seq<char>, Seq<char>)>::empty());
    while i < members.len()
        invariant
            i <= members@.len(),
            result_view(contents) == Ok::<Seq<char>, Seq<char>>(text@),
            serde_parse(text@) == Ok::<Json, Seq<char>>(value),
            value == Json::Object(*members),
            headers_from_members(env_key@, members@.take(i as int)) == Ok::<
                Seq<(Seq<char>, Seq<char>)>,
                Seq<char>,
            >(pairs_view(out@)),
        decreases members@.len() - i,
    {
        assert(members@.take(i + 1).drop_last() =~= members@.take(i as int));
        let (k, v) = (&members[i].0, &members[i].1);
        assert(members@.take(i + 1).last() == members@[i as int]);
        let ghost before = pairs_view(out@);
        match v {
            Json::Str(s) => {
                if !s.as_str().is_empty() {
                    out.push((k.clone(), s.clone()));
                    assert(pairs_view(out@) =~= before.push((k@, s@)));
                } else {
                    assert(pairs_view(out@) =~= before);
                }
            },
            _ => {
                assert(headers_from_members(env_key@, members@.take(i + 1)) == Err::<
                    Seq<(Seq<char>, Seq<char>)>,
                    Seq<char>,
                >("header "@ + k@ + " in "@ + env_key@ + " must be a string"@));
                let msg = String::from_str("header ").concat(k.as_str()).concat(" in ").concat(
                    env_key,
                ).concat(" must be a string");
                proof {
                    lemma_headers_err_prefix(env_key@, members@, i as int + 1);
                }
                return Err(msg);
            },
        }
        i = i + 1;
    }
    assert(members@.take(i as int) =~= members@);
    Ok(out)
}

/// Once a prefix of the members is rejected, the whole list is rejected with that error.
proof fn lemma_headers_err_prefix(env_key: Seq<char>, members: Seq<(String, Json)>, n: int)
    requires
        0 <= n <= members.len(),
        headers_from_members(env_key, members.take(n)) is Err,
    ensures
        headers_from_members(env_key, members) == headers_from_members(env_key, members.take(n)),
    decreases members.len() - n,
{
    if n < members.len() {
        assert(members.take(n + 1).drop_last() =~= members.take(n));
        lemma_headers_err_prefix(env_key, members, n + 1);
    } else {
        assert(members.take(n) =~= members);
    }
}

} // verus!
