//! Computer use against an isolated agent desktop (never the personal session by
//! default).

use crate::domain::{RunOrigin, ToolCall, ToolError, ToolResult};
use crate::json::get_bool;
use crate::text::views;
use vstd::prelude::*;

verus! {

/// The isolated agent desktop: its current frame, and whether the personal desktop may
/// be attached (never by default).
#[derive(Debug, Default)]
pub struct IsolatedDesktop {
    pub frame: String,
    pub attach_personal: bool,
}

impl IsolatedDesktop {
    pub fn new() -> (r: Self)
        ensures
            r.frame@ == "desktop-frame-0"@,
            !r.attach_personal,
    {
        IsolatedDesktop { frame: String::from_str("desktop-frame-0"), attach_personal: false }
    }

    pub fn personal_attach_enabled(&self) -> (r: bool)
        ensures
            r == self.attach_personal,
    {
        self.attach_personal
    }
}

/// Computer-use tools: allowed names, the Run origin and the desktop.
pub struct ComputerUseTools {
    pub allowed: Vec<String>,
    pub origin: RunOrigin,
    pub desktop: IsolatedDesktop,
}

/// An input action on the desktop.
pub open spec fn is_input_action(name: Seq<char>) -> bool {
    name == "computer_click"@ || name == "computer_type"@ || name == "computer_key"@
}

impl ComputerUseTools {
    pub fn new(allowed: Vec<String>, origin: RunOrigin, desktop: IsolatedDesktop) -> (r: Self)
        ensures
            r.allowed == allowed,
            r.origin == origin,
            r.desktop == desktop,
    {
        ComputerUseTools { allowed, origin, desktop }
    }

    /// Run a computer-use call: web tasks are sent to the browser tools, the personal
    /// desktop is never attached, reduced-trust origins are refused; a screenshot shows
    /// the isolated frame, input actions act on the isolated desktop.
    pub fn invoke(&self, call: &ToolCall) -> (r: Result<ToolResult, ToolError>)
        ensures
            !views(self.allowed@).contains(call.name@) ==> (r matches Err(ToolError::Denied(m))
                && m@ == crate::tools::workspace::disallowed(call.name@)),
            views(self.allowed@).contains(call.name@) ==> {
                let prefer = get_bool(call.arguments, "prefer_browser_hint"@) == Some(true);
                let personal = get_bool(call.arguments, "attach_personal_desktop"@) == Some(true);
                &&& prefer ==> (r matches Err(ToolError::Failed(m)) && m@
                    == "prefer browser tools for web tasks; computer-use is for desktop apps"@)
                &&& !prefer && personal ==> (r matches Err(ToolError::Denied(m)) && m@
                    == "attach to personal desktop is disabled by default"@)
                &&& !prefer && !personal && self.origin.reduced() ==> (r matches Err(
                    ToolError::Denied(m),
                ) && m@ == "computer-use denied for reduced origin by default (fail closed)"@)
                &&& !prefer && !personal && !self.origin.reduced() ==> {
                    &&& call.name@ == "computer_screenshot"@ ==> (r matches Ok(res) && res.content@
                        == "isolated agent desktop frame="@ + self.desktop.frame@ && res.summary@
                        == "computer_screenshot isolated=true personal=false"@)
                    &&& is_input_action(call.name@) ==> (r matches Ok(res) && res.content@
                        == call.name@ + " on isolated agent desktop"@ && res.summary@ == call.name@
                        + " isolated=true"@)
                    &&& call.name@ != "computer_screenshot"@ && !is_input_action(call.name@) ==> (r matches Err(
                        ToolError::Denied(m),
                    ) && m@ == crate::tools::workspace::disallowed(call.name@))
                }
            },
    {
        proof {
            reveal_strlit("computer_screenshot");
            reveal_strlit("computer_click");
            reveal_strlit("computer_type");
            reveal_strlit("computer_key");
            assert("computer_screenshot"@.len() != "computer_click"@.len());
            assert("computer_screenshot"@.len() != "computer_type"@.len());
            assert("computer_screenshot"@.len() != "computer_key"@.len());
        }
        let name = call.name.as_str();
        if !crate::text::list_contains(self.allowed.as_slice(), name) {
            return Err(
                ToolError::Denied(
                    String::from_str("unknown or disallowed tool '").concat(name).concat("'"),
                ),
            );
        }
        if crate::json::get_bool_exec(&call.arguments, "prefer_browser_hint") == Some(true) {
            return Err(
                ToolError::Failed(
                    String::from_str(
                        "prefer browser tools for web tasks; computer-use is for desktop apps",
                    ),
                ),
            );
        }
        if crate::json::get_bool_exec(&call.arguments, "attach_personal_desktop") == Some(true) {
            return Err(
                ToolError::Denied(String::from_str("attach to personal desktop is disabled by default")),
            );
        }
        if self.origin.is_reduced_trust() {
            return Err(
                ToolError::Denied(
                    String::from_str("computer-use denied for reduced origin by default (fail closed)"),
                ),
            );
        }
        if crate::text::str_eq(name, "computer_screenshot") {
            Ok(
                ToolResult {
                    content: String::from_str("isolated agent desktop frame=").concat(
                        self.desktop.frame.as_str(),
                    ),
                    summary: String::from_str("computer_screenshot isolated=true personal=false"),
                },
            )
        } else if crate::text::str_eq(name, "computer_click") || crate::text::str_eq(
            name,
            "computer_type",
        ) || crate::text::str_eq(name, "computer_key") {
            Ok(
                ToolResult {
                    content: String::from_str(name).concat(" on isolated agent desktop"),
                    summary: String::from_str(name).concat(" isolated=true"),
                },
            )
        } else {
            Err(
                ToolError::Denied(
                    String::from_str("unknown or disallowed tool '").concat(name).concat("'"),
                ),
            )
        }
    }
}

} // verus!
