//! Browser tools over an isolated profile (never the daily browser or model cookies).

use crate::domain::{RunOrigin, ToolCall, ToolError, ToolResult};
use crate::json::{get_str, Json};
use crate::text::{decimal, ends_with, truncate_chars, views};
use crate::tools::web::url_parse;
use vstd::prelude::*;
use vstd::utf8::encode_utf8;

verus! {

/// The isolated browser profile: the current URL, the tabs, and the domains it may
/// visit without approval (empty: any).
#[derive(Debug, Default)]
pub struct IsolatedBrowserState {
    pub url: String,
    pub tabs: Vec<String>,
    pub domain_allowlist: Vec<String>,
}

impl IsolatedBrowserState {
    pub fn new(allowlist: Vec<String>) -> (r: Self)
        ensures
            r.url@.len() == 0,
            views(r.tabs@) == seq!["about:blank"@],
            r.domain_allowlist == allowlist,
    {
        let mut tabs: Vec<String> = Vec::new();
        tabs.push(String::from_str("about:blank"));
        assert(views(tabs@) =~= seq!["about:blank"@]);
        IsolatedBrowserState { url: String::new(), tabs, domain_allowlist: allowlist }
    }
}

/// The browser tools: allowed names, the Run origin and the profile.
pub struct BrowserTools {
    pub allowed: Vec<String>,
    pub origin: RunOrigin,
    pub state: IsolatedBrowserState,
}

/// Why navigating to `url` is refused, if it is: a parsed host outside a non-empty
/// allowlist (worded for reduced-trust origins or as needing approval).
pub open spec fn navigation_refusal(
    url: Seq<char>,
    allowlist: Seq<Seq<char>>,
    reduced: bool,
) -> Option<Seq<char>> {
    match url_parse(url) {
        Ok(p) => match p.host_str {
            Some(h) => if allowlist.len() > 0 && !(exists|i: int|
                0 <= i < allowlist.len() && ends_with(h@, #[trigger] allowlist[i])) {
                if reduced {
                    Some("browser_navigate domain '"@ + h@ + "' not allowlisted (reduced origin)"@)
                } else {
                    Some("browser_navigate domain '"@ + h@
                        + "' not allowlisted (high-blast; Approval required)"@)
                }
            } else {
                None
            },
            None => None,
        },
        Err(_) => None,
    }
}

fn host_allowed(host: &str, allowlist: &Vec<String>) -> (r: bool)
    ensures
        r == exists|i: int| 0 <= i < allowlist@.len() && ends_with(host@, #[trigger] views(allowlist@)[i]),
{
    let hc = crate::text::chars_of(host);
    let mut i: usize = 0;
    while i < allowlist.len()
        invariant
            i <= allowlist@.len(),
            hc@ == host@,
            forall|j: int| 0 <= j < i ==> !ends_with(host@, #[trigger] views(allowlist@)[j]),
        decreases allowlist@.len() - i,
    {
        let d = crate::text::chars_of(allowlist[i].as_str());
        if crate::text::ends_with_seq(hc.as_slice(), d.as_slice()) {
            assert(ends_with(host@, views(allowlist@)[i as int]));
            return true;
        }
        i = i + 1;
    }
    false
}

impl BrowserTools {
    pub fn new(allowed: Vec<String>, origin: RunOrigin, state: IsolatedBrowserState) -> (r: Self)
        ensures
            r.allowed == allowed,
            r.origin == origin,
            r.state == state,
    {
        BrowserTools { allowed, origin, state }
    }

    /// Navigate the isolated profile: the URL becomes current and the first tab's,
    /// unless its host is outside the allowlist.
    pub fn navigate(&mut self, args: &Json) -> (r: Result<ToolResult, ToolError>)
        ensures
            match get_str(*args, "url"@) {
                None => (r matches Err(ToolError::Failed(m)) && m@ == "missing url"@) && final(self).state
                    == old(self).state,
                Some(u) => match navigation_refusal(
                    u,
                    views(old(self).state.domain_allowlist@),
                    old(self).origin.reduced(),
                ) {
                    Some(m) => (r matches Err(ToolError::Denied(x)) && x@ == m) && final(self).state
                        == old(self).state,
                    None => (r matches Ok(res) && res.content@ == "navigated isolated profile to "@ + u
                        && res.summary@ == "browser_navigate url="@ + truncate_chars(u, 60))
                        && final(self).state.url@ == u && final(self).state.domain_allowlist
                        == old(self).state.domain_allowlist && (if old(self).state.tabs@.len() > 0 {
                        views(final(self).state.tabs@) == views(old(self).state.tabs@).update(0, u)
                    } else {
                        final(self).state.tabs@ == old(self).state.tabs@
                    }),
                },
            },
            final(self).allowed == old(self).allowed,
            final(self).origin == old(self).origin,
    {
        let url = match crate::json::get_str_exec(args, "url") {
            Some(u) => u.clone(),
            None => return Err(ToolError::Failed(String::from_str("missing url"))),
        };
        match crate::tools::web::parse_url(url.as_str()) {
            Ok(parsed) => match &parsed.host_str {
                Some(host) => {
                    if self.state.domain_allowlist.len() > 0 && !host_allowed(
                        host.as_str(),
                        &self.state.domain_allowlist,
                    ) {
                        if self.origin.is_reduced_trust() {
                            return Err(
                                ToolError::Denied(
                                    String::from_str("browser_navigate domain '").concat(
                                        host.as_str(),
                                    ).concat("' not allowlisted (reduced origin)"),
                                ),
                            );
                        }
                        return Err(
                            ToolError::Denied(
                                String::from_str("browser_navigate domain '").concat(host.as_str()).concat(
                                    "' not allowlisted (high-blast; Approval required)",
                                ),
                            ),
                        );
                    }
                },
                None => {},
            },
            Err(_) => {},
        }
        self.state.url = url.clone();
        if self.state.tabs.len() > 0 {
            let ghost before = self.state.tabs@;
            self.state.tabs.set(0, url.clone());
            assert(views(self.state.tabs@) =~= views(before).update(0, url@));
        }
        Ok(
            ToolResult {
                content: String::from_str("navigated isolated profile to ").concat(url.as_str()),
                summary: String::from_str("browser_navigate url=").concat(
                    crate::text::truncate_str(url.as_str(), 60).as_str(),
                ),
            },
        )
    }

    /// A snapshot of the current page.
    pub fn snapshot(&self) -> (r: ToolResult)
        ensures
            r.content@ == "snapshot url="@ + self.state.url@
                + " (isolated; not consumer-web cookies)"@,
            r.summary@ == "browser_snapshot"@,
    {
        ToolResult {
            content: String::from_str("snapshot url=").concat(self.state.url.as_str()).concat(
                " (isolated; not consumer-web cookies)",
            ),
            summary: String::from_str("browser_snapshot"),
        }
    }

    /// A click on a selector (`body` by default).
    pub fn click(&self, args: &Json) -> (r: ToolResult)
        ensures
            ({
                let sel = match get_str(*args, "selector"@) {
                    Some(s) => s,
                    None => "body"@,
                };
                r.content@ == "clicked "@ + sel && r.summary@ == "browser_click sel="@
                    + truncate_chars(sel, 40)
            }),
    {
        let sel: &str = match crate::json::get_str_exec(args, "selector") {
            Some(s) => s.as_str(),
            None => "body",
        };
        ToolResult {
            content: String::from_str("clicked ").concat(sel),
            summary: String::from_str("browser_click sel=").concat(
                crate::text::truncate_str(sel, 40).as_str(),
            ),
        }
    }

    /// Typing (only the size is reported).
    pub fn type_text(&self, args: &Json) -> (r: ToolResult)
        requires
            get_str(*args, "text"@) matches Some(t) ==> encode_utf8(t).len() <= usize::MAX,
        ensures
            ({
                let t = match get_str(*args, "text"@) {
                    Some(s) => s,
                    None => Seq::empty(),
                };
                r.content@ == "typed "@ + decimal(encode_utf8(t).len()) + " chars"@ && r.summary@
                    == "browser_type chars="@ + decimal(encode_utf8(t).len())
            }),
    {
        proof {
            reveal_strlit("");
            assert(encode_utf8(""@) =~= Seq::<u8>::empty());
        }
        let t: &str = match crate::json::get_str_exec(args, "text") {
            Some(s) => s.as_str(),
            None => "",
        };
        let n = crate::text::decimal_string(t.len() as u64);
        ToolResult {
            content: String::from_str("typed ").concat(n.as_str()).concat(" chars"),
            summary: String::from_str("browser_type chars=").concat(n.as_str()),
        }
    }

    /// The open tabs, one per line.
    pub fn tabs(&self) -> (r: ToolResult)
        ensures
            r.content@ == crate::model::consumer::join_lines(views(self.state.tabs@)),
            r.summary@ == "browser_tabs n="@ + decimal(self.state.tabs@.len() as nat),
    {
        ToolResult {
            content: crate::tools::workspace::join_with_newlines(&self.state.tabs),
            summary: String::from_str("browser_tabs n=").concat(
                crate::text::decimal_string(self.state.tabs.len() as u64).as_str(),
            ),
        }
    }

    /// Which browser tool a call runs, or the denial.
    pub fn check_call(&self, call: &ToolCall) -> (r: Result<(), ToolError>)
        ensures
            r is Ok <==> views(self.allowed@).contains(call.name@) && (call.name@
                == "browser_navigate"@ || call.name@ == "browser_snapshot"@ || call.name@
                == "browser_screenshot"@ || call.name@ == "browser_click"@ || call.name@
                == "browser_type"@ || call.name@ == "browser_wait"@ || call.name@ == "browser_tabs"@),
            r matches Err(e) ==> (e matches ToolError::Denied(m) && m@
                == crate::tools::workspace::disallowed(call.name@)),
    {
        let name = call.name.as_str();
        if crate::text::list_contains(self.allowed.as_slice(), name) && (crate::text::str_eq(
            name,
            "browser_navigate",
        ) || crate::text::str_eq(name, "browser_snapshot") || crate::text::str_eq(
            name,
            "browser_screenshot",
        ) || crate::text::str_eq(name, "browser_click") || crate::text::str_eq(name, "browser_type")
            || crate::text::str_eq(name, "browser_wait") || crate::text::str_eq(name, "browser_tabs")) {
            Ok(())
        } else {
            Err(ToolError::Denied(String::from_str("unknown or disallowed tool '").concat(name).concat("'")))
        }
    }
}

/// The answer to `browser_wait`.
pub fn wait_result() -> (r: ToolResult)
    ensures
        r.content@ == "waited"@,
        r.summary@ == "browser_wait"@,
{
    ToolResult { content: String::from_str("waited"), summary: String::from_str("browser_wait") }
}

} // verus!
