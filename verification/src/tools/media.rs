//! Media tools: vision intake, a text-to-speech stub, and image generation gated on
//! credentials.

use crate::domain::{ToolCall, ToolError, ToolResult};
use crate::json::get_str;
use crate::text::{decimal, views};
use vstd::prelude::*;
use vstd::utf8::encode_utf8;

verus! {

/// Media settings: the image generation key, and whether speech is enabled.
#[derive(Debug, Clone)]
pub struct MediaConfig {
    pub image_gen_api_key: Option<String>,
    pub tts_enabled: bool,
}

/// `s` is `true` in any ASCII case.
pub open spec fn is_true_word(s: Seq<char>) -> bool {
    crate::text::ascii_lower(s) == "true"@
}

impl MediaConfig {
    /// The settings from `KERYX_IMAGE_GEN_API_KEY` (empty means none) and
    /// `KERYX_TTS_ENABLED` (`1` or `true` in any case).
    pub fn from_values(image_gen_api_key: Option<String>, tts_enabled: Option<String>) -> (r: Self)
        ensures
            crate::text::opt_view(r.image_gen_api_key) == (match crate::text::opt_view(
                image_gen_api_key,
            ) {
                Some(k) => if k.len() > 0 {
                    Some(k)
                } else {
                    None
                },
                None => None,
            }),
            r.tts_enabled == (match crate::text::opt_view(tts_enabled) {
                Some(v) => v == "1"@ || is_true_word(v),
                None => false,
            }),
    {
        let key = match image_gen_api_key {
            Some(k) => if k.as_str().is_empty() {
                None
            } else {
                Some(k)
            },
            None => None,
        };
        let tts = match &tts_enabled {
            Some(v) => {
                let c = crate::text::chars_of(v.as_str());
                let l = crate::text::ascii_lower_exec(c.as_slice());
                let t = crate::text::chars_of("true");
                crate::text::str_eq(v.as_str(), "1") || crate::text::seq_eq(l.as_slice(), t.as_slice())
            },
            None => false,
        };
        MediaConfig { image_gen_api_key: key, tts_enabled: tts }
    }
}

/// The media tools: allowed names and settings.
pub struct MediaTools {
    pub allowed: Vec<String>,
    pub config: MediaConfig,
}

impl MediaTools {
    pub fn new(allowed: Vec<String>, config: MediaConfig) -> (r: Self)
        ensures
            r.allowed == allowed,
            r.config == config,
    {
        MediaTools { allowed, config }
    }

    /// The tools that register: vision and speech always, image generation with a key.
    pub fn registerable_tools(config: &MediaConfig) -> (r: Vec<String>)
        ensures
            config.image_gen_api_key is Some ==> views(r@) == seq![
                "vision_describe"@,
                "tts_synthesize"@,
                "image_gen"@,
            ],
            config.image_gen_api_key is None ==> views(r@) == seq![
                "vision_describe"@,
                "tts_synthesize"@,
            ],
    {
        let mut v: Vec<String> = Vec::new();
        v.push(String::from_str("vision_describe"));
        v.push(String::from_str("tts_synthesize"));
        if config.image_gen_api_key.is_some() {
            v.push(String::from_str("image_gen"));
        }
        assert(config.image_gen_api_key is Some ==> views(v@) =~= seq![
            "vision_describe"@,
            "tts_synthesize"@,
            "image_gen"@,
        ]);
        assert(config.image_gen_api_key is None ==> views(v@) =~= seq![
            "vision_describe"@,
            "tts_synthesize"@,
        ]);
        v
    }

    /// Run a media call.
    pub fn invoke(&self, call: &ToolCall) -> (r: Result<ToolResult, ToolError>)
        requires
            get_str(call.arguments, "text"@) matches Some(t) ==> encode_utf8(t).len() <= usize::MAX,
            get_str(call.arguments, "prompt"@) matches Some(t) ==> encode_utf8(t).len() <= usize::MAX,
        ensures
            !views(self.allowed@).contains(call.name@) ==> (r matches Err(ToolError::Denied(m))
                && m@ == crate::tools::workspace::disallowed(call.name@)),
            views(self.allowed@).contains(call.name@) ==> {
                let source = match get_str(call.arguments, "source"@) {
                    Some(s) => s,
                    None => "image"@,
                };
                let text = match get_str(call.arguments, "text"@) {
                    Some(s) => s,
                    None => Seq::empty(),
                };
                let prompt = match get_str(call.arguments, "prompt"@) {
                    Some(s) => s,
                    None => Seq::empty(),
                };
                &&& call.name@ == "vision_describe"@ ==> (r matches Ok(res) && res.content@
                    == "vision stub: accepted "@ + source
                    + " for vision-capable model path (no live vendor)"@ && res.summary@
                    == "vision_describe source="@ + source)
                &&& call.name@ == "tts_synthesize"@ && !self.config.tts_enabled ==> (r matches Err(
                    ToolError::Failed(m),
                ) && m@ == "tts not configured (set KERYX_TTS_ENABLED=1)"@)
                &&& call.name@ == "tts_synthesize"@ && self.config.tts_enabled ==> (r matches Ok(res)
                    && res.content@ == "tts stub voice-note for "@ + decimal(encode_utf8(text).len())
                    + " chars (telegram-first path)"@ && res.summary@ == "tts_synthesize chars="@
                    + decimal(encode_utf8(text).len()))
                &&& call.name@ == "image_gen"@ && self.config.image_gen_api_key is None ==> (r matches Err(
                    ToolError::Denied(m),
                ) && m@ == "image_gen not registered without credentials"@)
                &&& call.name@ == "image_gen"@ && self.config.image_gen_api_key is Some ==> (r matches Ok(
                    res,
                ) && res.content@ == "image_gen stub ok prompt_chars="@ + decimal(
                    encode_utf8(prompt).len(),
                ) && res.summary@ == "image_gen stub"@)
                &&& call.name@ != "vision_describe"@ && call.name@ != "tts_synthesize"@ && call.name@
                    != "image_gen"@ ==> (r matches Err(ToolError::Denied(m)) && m@
                    == crate::tools::workspace::disallowed(call.name@))
            },
    {
        proof {
            reveal_strlit("vision_describe");
            reveal_strlit("tts_synthesize");
            reveal_strlit("image_gen");
            reveal_strlit("");
            assert(encode_utf8(""@) =~= Seq::<u8>::empty());
            assert("vision_describe"@.len() != "tts_synthesize"@.len());
            assert("vision_describe"@.len() != "image_gen"@.len());
            assert("tts_synthesize"@.len() != "image_gen"@.len());
        }
        let name = call.name.as_str();
        if !crate::text::list_contains(self.allowed.as_slice(), name) {
            return Err(
                ToolError::Denied(
                    String::from_str("unknown or disallowed tool '").concat(name).concat("'"),
                ),
            );
        }
        if crate::text::str_eq(name, "vision_describe") {
            let source: &str = match crate::json::get_str_exec(&call.arguments, "source") {
                Some(s) => s.as_str(),
                None => "image",
            };
            Ok(
                ToolResult {
                    content: String::from_str("vision stub: accepted ").concat(source).concat(
                        " for vision-capable model path (no live vendor)",
                    ),
                    summary: String::from_str("vision_describe source=").concat(source),
                },
            )
        } else if crate::text::str_eq(name, "tts_synthesize") {
            if !self.config.tts_enabled {
                return Err(
                    ToolError::Failed(String::from_str("tts not configured (set KERYX_TTS_ENABLED=1)")),
                );
            }
            let text: &str = match crate::json::get_str_exec(&call.arguments, "text") {
                Some(s) => s.as_str(),
                None => "",
            };
            let n = crate::text::decimal_string(text.len() as u64);
            Ok(
                ToolResult {
                    content: String::from_str("tts stub voice-note for ").concat(n.as_str()).concat(
                        " chars (telegram-first path)",
                    ),
                    summary: String::from_str("tts_synthesize chars=").concat(n.as_str()),
                },
            )
        } else if crate::text::str_eq(name, "image_gen") {
            if self.config.image_gen_api_key.is_none() {
                return Err(
                    ToolError::Denied(String::from_str("image_gen not registered without credentials")),
                );
            }
            let prompt: &str = match crate::json::get_str_exec(&call.arguments, "prompt") {
                Some(s) => s.as_str(),
                None => "",
            };
            Ok(
                ToolResult {
                    content: String::from_str("image_gen stub ok prompt_chars=").concat(
                        crate::text::decimal_string(prompt.len() as u64).as_str(),
                    ),
                    summary: String::from_str("image_gen stub"),
                },
            )
        } else {
            Err(
                ToolError::Denied(
                    String::from_str("unknown or disallowed tool '").concat(name).concat("'"),
                ),
            )
        }
    }
}

} // verus!
