//! Web search and extract tools with fail-closed SSRF rules: which destinations are
//! public, which URLs may be fetched, how redirects are followed, and the answers.

use crate::domain::{is_empty_params, ToolCall, ToolError, ToolResult, ToolSpec};
use crate::json::{get_str, get_u64};
use crate::text::{
    ascii_lower, chars_of, decimal, ends_with, string_of, trim, truncate_chars, views,
};
use vstd::prelude::*;
use vstd::utf8::encode_utf8;

verus! {

/// Maximum characters returned from `web_extract` (the body is cut beyond this).
pub const WEB_EXTRACT_MAX_CHARS: usize = 32768;

/// Maximum HTTP body bytes read for an extract.
pub const WEB_EXTRACT_MAX_BYTES: usize = 512000;

/// Default number of search hits.
pub const WEB_SEARCH_DEFAULT_MAX: usize = 5;

/// Maximum redirect hops for an extract (each hop checked again).
pub const WEB_EXTRACT_MAX_REDIRECTS: usize = 3;

/// An IP address: four octets, or eight 16-bit segments.
#[derive(Debug, Clone, Copy, PartialEq, Eq, Structural)]
pub enum IpAddress {
    V4(u8, u8, u8, u8),
    V6(u16, u16, u16, u16, u16, u16, u16, u16),
}

/// A public IPv4 destination: not private (10/8, 172.16/12, 192.168/16), loopback,
/// link-local, broadcast, documentation, unspecified, `0/8`, shared (100.64/10),
/// benchmarking (198.18/15), reserved (240/4) or multicast.
pub open spec fn public_v4(a: u8, b: u8, c: u8, d: u8) -> bool {
    !(a == 10 || (a == 172 && 16 <= b && b <= 31) || (a == 192 && b == 168) || a == 127 || (a
        == 169 && b == 254) || (a == 255 && b == 255 && c == 255 && d == 255) || (a == 192 && b
        == 0 && c == 2) || (a == 198 && b == 51 && c == 100) || (a == 203 && b == 0 && c == 113)
        || (a == 0 && b == 0 && c == 0 && d == 0) || a == 0 || (a == 100 && 64 <= b && b <= 127)
        || (a == 198 && (b == 18 || b == 19)) || a >= 240 || (224 <= a && a <= 239))
}

/// A destination is public: IPv4 by the rules above; IPv6 as the IPv4 it maps or is
/// compatible with, else not documentation (2001:db8::/32), loopback, unspecified,
/// multicast, unique-local (fc00::/7) or link-local (fe80::/10).
pub open spec fn public_ip(ip: IpAddress) -> bool {
    match ip {
        IpAddress::V4(a, b, c, d) => public_v4(a, b, c, d),
        IpAddress::V6(s0, s1, s2, s3, s4, s5, s6, s7) => {
            if s0 == 0 && s1 == 0 && s2 == 0 && s3 == 0 && s4 == 0 && s5 == 0xffff {
                public_v4((s6 / 256) as u8, (s6 % 256) as u8, (s7 / 256) as u8, (s7 % 256) as u8)
            } else if s0 == 0 && s1 == 0 && s2 == 0 && s3 == 0 && s4 == 0 && s5 == 0 && !(s6 == 0
                && s7 == 1) {
                public_v4((s6 / 256) as u8, (s6 % 256) as u8, (s7 / 256) as u8, (s7 % 256) as u8)
            } else if s0 == 0x2001 && s1 == 0x0db8 {
                false
            } else {
                let loopback = s0 == 0 && s1 == 0 && s2 == 0 && s3 == 0 && s4 == 0 && s5 == 0 && s6
                    == 0 && s7 == 1;
                let unspecified = s0 == 0 && s1 == 0 && s2 == 0 && s3 == 0 && s4 == 0 && s5 == 0
                    && s6 == 0 && s7 == 0;
                !(loopback || unspecified || s0 >= 0xff00 || (0xfc00 <= s0 && s0 <= 0xfdff) || (
                0xfe80 <= s0 && s0 <= 0xfebf))
            }
        },
    }
}

fn is_public_v4(a: u8, b: u8, c: u8, d: u8) -> (r: bool)
    ensures
        r == public_v4(a, b, c, d),
{
    !(a == 10 || (a == 172 && 16 <= b && b <= 31) || (a == 192 && b == 168) || a == 127 || (a
        == 169 && b == 254) || (a == 255 && b == 255 && c == 255 && d == 255) || (a == 192 && b
        == 0 && c == 2) || (a == 198 && b == 51 && c == 100) || (a == 203 && b == 0 && c == 113)
        || (a == 0 && b == 0 && c == 0 && d == 0) || a == 0 || (a == 100 && 64 <= b && b <= 127)
        || (a == 198 && (b == 18 || b == 19)) || a >= 240 || (224 <= a && a <= 239))
}

/// No special-purpose IPv4 address is public: private networks (10/8, 172.16/12,
/// 192.168/16), loopback (127/8), link-local (169.254/16), "this network" (0/8),
/// shared address space (100.64/10), benchmarking (198.18/15), the documentation
/// networks, multicast (224/4) and reserved space (240/4) with broadcast; and an
/// IPv4-mapped IPv6 address is public exactly when the IPv4 address it maps is.
pub proof fn lemma_special_v4_not_public(a: u8, b: u8, c: u8, d: u8)
    ensures
        a == 10 ==> !public_ip(IpAddress::V4(a, b, c, d)),
        a == 172 && 16 <= b <= 31 ==> !public_ip(IpAddress::V4(a, b, c, d)),
        a == 192 && b == 168 ==> !public_ip(IpAddress::V4(a, b, c, d)),
        a == 127 ==> !public_ip(IpAddress::V4(a, b, c, d)),
        a == 169 && b == 254 ==> !public_ip(IpAddress::V4(a, b, c, d)),
        a == 0 ==> !public_ip(IpAddress::V4(a, b, c, d)),
        a == 100 && 64 <= b <= 127 ==> !public_ip(IpAddress::V4(a, b, c, d)),
        a == 198 && (b == 18 || b == 19) ==> !public_ip(IpAddress::V4(a, b, c, d)),
        (a == 192 && b == 0 && c == 2) || (a == 198 && b == 51 && c == 100) || (a == 203 && b
            == 0 && c == 113) ==> !public_ip(IpAddress::V4(a, b, c, d)),
        a >= 224 ==> !public_ip(IpAddress::V4(a, b, c, d)),
        public_ip(
            IpAddress::V6(
                0,
                0,
                0,
                0,
                0,
                0xffff,
                (a as int * 256 + b as int) as u16,
                (c as int * 256 + d as int) as u16,
            ),
        ) == public_ip(IpAddress::V4(a, b, c, d)),
{
    let hi = (a as int * 256 + b as int) as u16;
    let lo = (c as int * 256 + d as int) as u16;
    assert(0 <= a as int * 256 + b as int <= 65535) by (nonlinear_arith)
        requires
            a < 256,
            b < 256,
    ;
    assert(0 <= c as int * 256 + d as int <= 65535) by (nonlinear_arith)
        requires
            c < 256,
            d < 256,
    ;
    assert(hi as int == a as int * 256 + b as int);
    assert(lo as int == c as int * 256 + d as int);
    assert(hi / 256 == a && hi % 256 == b) by (nonlinear_arith)
        requires
            hi == a * 256 + b,
            b < 256,
    ;
    assert(lo / 256 == c && lo % 256 == d) by (nonlinear_arith)
        requires
            lo == c * 256 + d,
            d < 256,
    ;
}

/// No special-purpose IPv6 address is public: loopback (`::1`), unspecified (`::`),
/// documentation (2001:db8::/32), unique-local (fc00::/7), link-local (fe80::/10) and
/// multicast (ff00::/8); an IPv4-compatible address (`::a.b.c.d`, other than `::1`) is
/// judged as the IPv4 address it carries; any other address is public.
pub proof fn lemma_special_v6_not_public(
    s0: u16,
    s1: u16,
    s2: u16,
    s3: u16,
    s4: u16,
    s5: u16,
    s6: u16,
    s7: u16,
)
    ensures
        !public_ip(IpAddress::V6(0, 0, 0, 0, 0, 0, 0, 1)),
        !public_ip(IpAddress::V6(0, 0, 0, 0, 0, 0, 0, 0)),
        s0 == 0x2001 && s1 == 0x0db8 ==> !public_ip(IpAddress::V6(s0, s1, s2, s3, s4, s5, s6, s7)),
        0xfc00 <= s0 <= 0xfdff ==> !public_ip(IpAddress::V6(s0, s1, s2, s3, s4, s5, s6, s7)),
        0xfe80 <= s0 <= 0xfebf ==> !public_ip(IpAddress::V6(s0, s1, s2, s3, s4, s5, s6, s7)),
        s0 >= 0xff00 ==> !public_ip(IpAddress::V6(s0, s1, s2, s3, s4, s5, s6, s7)),
        !(s6 == 0 && s7 == 1) ==> public_ip(IpAddress::V6(0, 0, 0, 0, 0, 0, s6, s7)) == public_ip(
            IpAddress::V4((s6 / 256) as u8, (s6 % 256) as u8, (s7 / 256) as u8, (s7 % 256) as u8),
        ),
        s0 != 0 && !(s0 == 0x2001 && s1 == 0x0db8) && !(0xfc00 <= s0 <= 0xfdff) && !(0xfe80 <= s0
            <= 0xfebf) && s0 < 0xff00 ==> public_ip(
            IpAddress::V6(s0, s1, s2, s3, s4, s5, s6, s7),
        ),
{
}

/// Outside those special-purpose ranges every IPv4 address is public.
pub proof fn lemma_ordinary_v4_public(a: u8, b: u8, c: u8, d: u8)
    requires
        1 <= a < 224,
        a != 10,
        a != 127,
        !(a == 172 && 16 <= b <= 31),
        !(a == 192 && b == 168),
        !(a == 169 && b == 254),
        !(a == 100 && 64 <= b <= 127),
        !(a == 198 && (b == 18 || b == 19)),
        !(a == 192 && b == 0 && c == 2),
        !(a == 198 && b == 51 && c == 100),
        !(a == 203 && b == 0 && c == 113),
    ensures
        public_ip(IpAddress::V4(a, b, c, d)),
{
}

/// True when an address may be fetched by `web_extract` (public unicast only).
pub fn is_public_ip(ip: IpAddress) -> (r: bool)
    ensures
        r == public_ip(ip),
{
    match ip {
        IpAddress::V4(a, b, c, d) => is_public_v4(a, b, c, d),
        IpAddress::V6(s0, s1, s2, s3, s4, s5, s6, s7) => {
            let zero5 = s0 == 0 && s1 == 0 && s2 == 0 && s3 == 0 && s4 == 0;
            if zero5 && (s5 == 0xffff || (s5 == 0 && !(s6 == 0 && s7 == 1))) {
                return is_public_v4(
                    (s6 / 256) as u8,
                    (s6 % 256) as u8,
                    (s7 / 256) as u8,
                    (s7 % 256) as u8,
                );
            }
            if s0 == 0x2001 && s1 == 0x0db8 {
                return false;
            }
            let loopback = zero5 && s5 == 0 && s6 == 0 && s7 == 1;
            let unspecified = zero5 && s5 == 0 && s6 == 0 && s7 == 0;
            !(loopback || unspecified || s0 >= 0xff00 || (0xfc00 <= s0 && s0 <= 0xfdff) || (0xfe80
                <= s0 && s0 <= 0xfebf))
        },
    }
}

/// The host of a parsed URL: a domain, or an IP literal (its octets or segments) with
/// its display text.
#[derive(Debug)]
pub enum UrlHost {
    Domain(String),
    V4([u8; 4], String),
    V6([u16; 8], String),
}

/// The address of an IP host, with its display text.
pub open spec fn host_ip(h: Option<UrlHost>) -> Option<(IpAddress, String)> {
    match h {
        Some(UrlHost::V4(o, t)) => Some((IpAddress::V4(o[0], o[1], o[2], o[3]), t)),
        Some(UrlHost::V6(g, t)) => Some(
            (IpAddress::V6(g[0], g[1], g[2], g[3], g[4], g[5], g[6], g[7]), t),
        ),
        _ => None,
    }
}

/// What the URL parser reports of a URL: its scheme, host text and host.
#[derive(Debug)]
pub struct UrlParts {
    pub scheme: String,
    pub host_str: Option<String>,
    pub host: Option<UrlHost>,
}

/// What `url::Url::parse` reports for some text: its parts, or the parse error's text.
pub uninterp spec fn url_parse(s: Seq<char>) -> Result<UrlParts, Seq<char>>;

/// Parses a URL with `url::Url::parse` and reports its scheme, host text and host (an
/// IP host with the address's `Display` text).
#[verifier::external_body]
pub(crate) fn parse_url(s: &str) -> (r: Result<UrlParts, String>)
    ensures
        url_parse(s@) == (match r {
            Ok(p) => Ok::<UrlParts, Seq<char>>(p),
            Err(e) => Err::<UrlParts, Seq<char>>(e@),
        }),
{
    match url::Url::parse(s) {
        Ok(u) => Ok(UrlParts {
            scheme: u.scheme().to_string(),
            host_str: u.host_str().map(|h| h.to_string()),
            host: match u.host() {
                None => None,
                Some(url::Host::Domain(d)) => Some(UrlHost::Domain(d.to_string())),
                Some(url::Host::Ipv4(a)) => Some(UrlHost::V4(a.octets(), a.to_string())),
                Some(url::Host::Ipv6(a)) => Some(UrlHost::V6(a.segments(), a.to_string())),
            },
        }),
        Err(e) => Err(e.to_string()),
    }
}

/// Why a URL may not be fetched, if it may not: the error kind (`true` for a denial)
/// and the message.
pub open spec fn url_refusal(url: Seq<char>) -> Option<(bool, Seq<char>)> {
    let u = trim(url);
    if u.len() == 0 {
        Some((false, "web_extract: empty url"@))
    } else if (encode_utf8(u).len() as usize) > 2048 {
        Some((false, "web_extract: url too long"@))
    } else {
        match url_parse(u) {
            Err(e) => Some((false, "web_extract: invalid url: "@ + e)),
            Ok(p) => if !(p.scheme@ == "http"@ || p.scheme@ == "https"@) {
                Some((true, "web_extract: scheme '"@ + p.scheme@ + "' denied (http/https only)"@))
            } else {
                match p.host_str {
                    None => Some((true, "web_extract: url missing host"@)),
                    Some(h) => {
                        let hl = ascii_lower(h@);
                        if hl == "localhost"@ || ends_with(hl, ".localhost"@) || ends_with(
                            hl,
                            ".local"@,
                        ) || hl == "metadata.google.internal"@ {
                            Some((true, "web_extract: host '"@ + h@ + "' denied (private/local)"@))
                        } else {
                            match host_ip(p.host) {
                                Some((ip, text)) => if !public_ip(ip) {
                                    Some(
                                        (
                                            true,
                                            "web_extract: address "@ + text@
                                                + " denied (private/link-local/metadata)"@,
                                        ),
                                    )
                                } else {
                                    None
                                },
                                _ => None,
                            }
                        }
                    },
                }
            },
        }
    }
}

/// A refusal as a tool error.
pub open spec fn refusal_error(e: ToolError, r: (bool, Seq<char>)) -> bool {
    if r.0 {
        e matches ToolError::Denied(m) && m@ == r.1
    } else {
        e matches ToolError::Failed(m) && m@ == r.1
    }
}

/// Check that a URL is http(s) to a public destination (fail closed): no other scheme,
/// a host, no local names, no private, link-local or metadata addresses.
pub fn validate_public_http_url(url: &str) -> (r: Result<(), ToolError>)
    ensures
        match r {
            Ok(()) => url_refusal(url@) is None,
            Err(e) => url_refusal(url@) matches Some(x) && refusal_error(e, x),
        },
{
    let u = crate::text::trim_str(url);
    if u.as_str().is_empty() {
        return Err(ToolError::Failed(String::from_str("web_extract: empty url")));
    }
    if u.as_str().len() > 2048 {
        return Err(ToolError::Failed(String::from_str("web_extract: url too long")));
    }
    let parsed = match parse_url(u.as_str()) {
        Ok(p) => p,
        Err(e) => {
            return Err(
                ToolError::Failed(String::from_str("web_extract: invalid url: ").concat(e.as_str())),
            )
        },
    };
    let scheme = parsed.scheme.as_str();
    if !(crate::text::str_eq(scheme, "http") || crate::text::str_eq(scheme, "https")) {
        return Err(
            ToolError::Denied(
                String::from_str("web_extract: scheme '").concat(scheme).concat(
                    "' denied (http/https only)",
                ),
            ),
        );
    }
    let host = match &parsed.host_str {
        Some(h) => h,
        None => return Err(ToolError::Denied(String::from_str("web_extract: url missing host"))),
    };
    let hc = chars_of(host.as_str());
    let hl = crate::text::ascii_lower_exec(hc.as_slice());
    let localhost = chars_of("localhost");
    let dot_localhost = chars_of(".localhost");
    let dot_local = chars_of(".local");
    let metadata = chars_of("metadata.google.internal");
    if crate::text::seq_eq(hl.as_slice(), localhost.as_slice()) || crate::text::ends_with_seq(
        hl.as_slice(),
        dot_localhost.as_slice(),
    ) || crate::text::ends_with_seq(hl.as_slice(), dot_local.as_slice())
        || crate::text::seq_eq(hl.as_slice(), metadata.as_slice()) {
        return Err(
            ToolError::Denied(
                String::from_str("web_extract: host '").concat(host.as_str()).concat(
                    "' denied (private/local)",
                ),
            ),
        );
    }
    let address = match &parsed.host {
        Some(UrlHost::V4(o, t)) => Some((IpAddress::V4(o[0], o[1], o[2], o[3]), t)),
        Some(UrlHost::V6(g, t)) => Some(
            (IpAddress::V6(g[0], g[1], g[2], g[3], g[4], g[5], g[6], g[7]), t),
        ),
        _ => None,
    };
    match address {
        Some((ip, text)) => {
            if !is_public_ip(ip) {
                return Err(
                    ToolError::Denied(
                        String::from_str("web_extract: address ").concat(text.as_str()).concat(
                            " denied (private/link-local/metadata)",
                        ),
                    ),
                );
            }
        },
        _ => {},
    }
    Ok(())
}

/// Fail closed unless every resolved address (with its display text) is public.
pub fn assert_resolved_public(addrs: &Vec<(IpAddress, String)>) -> (r: Result<(), ToolError>)
    ensures
        addrs@.len() == 0 ==> (r matches Err(ToolError::Failed(m)) && m@
            == "web_extract: host resolved to no addresses"@),
        addrs@.len() > 0 ==> match r {
            Ok(()) => forall|i: int| 0 <= i < addrs@.len() ==> public_ip(#[trigger] addrs@[i].0),
            Err(e) => exists|i: int|
                0 <= i < addrs@.len() && !public_ip(#[trigger] addrs@[i].0) && (forall|j: int|
                    0 <= j < i ==> public_ip(addrs@[j].0)) && (e matches ToolError::Denied(m) && m@
                    == "web_extract: resolved address "@ + addrs@[i].1@
                    + " denied (private/link-local/metadata)"@),
        },
{
    if addrs.len() == 0 {
        return Err(ToolError::Failed(String::from_str("web_extract: host resolved to no addresses")));
    }
    let mut i: usize = 0;
    while i < addrs.len()
        invariant
            i <= addrs@.len(),
            forall|j: int| 0 <= j < i ==> public_ip(#[trigger] addrs@[j].0),
        decreases addrs@.len() - i,
    {
        if !is_public_ip(addrs[i].0) {
            return Err(
                ToolError::Denied(
                    String::from_str("web_extract: resolved address ").concat(
                        addrs[i].1.as_str(),
                    ).concat(" denied (private/link-local/metadata)"),
                ),
            );
        }
        i = i + 1;
    }
    Ok(())
}

/// The decimal text of an IPv4 address, as its `Display` writes it.
pub open spec fn v4_text(a: u8, b: u8, c: u8, d: u8) -> Seq<char> {
    decimal(a as nat) + "."@ + decimal(b as nat) + "."@ + decimal(c as nat) + "."@ + decimal(
        d as nat,
    )
}

/// The display text of an IPv4 address.
pub fn v4_string(a: u8, b: u8, c: u8, d: u8) -> (r: String)
    ensures
        r@ == v4_text(a, b, c, d),
{
    crate::text::decimal_string(a as u64).concat(".").concat(
        crate::text::decimal_string(b as u64).as_str(),
    ).concat(".").concat(crate::text::decimal_string(c as u64).as_str()).concat(".").concat(
        crate::text::decimal_string(d as u64).as_str(),
    )
}

/// `s` cut to `max` characters with an ellipsis when longer.
pub fn truncate(s: &str, max: usize) -> (r: String)
    ensures
        r@ == truncate_chars(s@, max as nat),
{
    crate::text::truncate_str(s, max)
}

/// What a URL becomes with its user name and password removed (`url`'s `set_username`,
/// `set_password` and `Display`), when it parses.
pub uninterp spec fn url_without_userinfo(s: Seq<char>) -> Option<Seq<char>>;

/// The URL with its credentials removed, when it parses.
#[verifier::external_body]
fn strip_userinfo(s: &str) -> (r: Option<String>)
    ensures
        crate::text::opt_view(r) == url_without_userinfo(s@),
{
    match url::Url::parse(s) {
        Ok(mut parsed) => {
            let _ = parsed.set_username("");
            let _ = parsed.set_password(None);
            Some(parsed.to_string())
        },
        Err(_) => None,
    }
}

/// A URL for events and logs: without credentials when it parses, else cut to 80
/// characters.
pub fn redact_url_for_event(url: &str) -> (r: String)
    ensures
        r@ == match url_without_userinfo(url@) {
            Some(u) => u,
            None => truncate_chars(url@, 80),
        },
{
    match strip_userinfo(url) {
        Some(u) => u,
        None => truncate(url, 80),
    }
}

/// One web search hit.
#[derive(Debug, Clone)]
pub struct SearchHit {
    pub title: String,
    pub url: String,
    pub snippet: String,
}

/// Fixed search results (no live network).
#[derive(Debug, Default)]
pub struct FixedWebSearch {
    pub hits: Vec<SearchHit>,
}

/// The first `n` items (all of them when fewer).
pub open spec fn first_n<T>(s: Seq<T>, n: nat) -> Seq<T> {
    crate::storage::memory::at_most(s, n)
}

impl FixedWebSearch {
    /// The fixed hits, at most `max_results` (at least one); a blank query is an error.
    pub fn search(&self, query: &str, max_results: usize) -> (r: Result<Vec<SearchHit>, ToolError>)
        ensures
            trim(query@).len() == 0 ==> (r matches Err(ToolError::Failed(m)) && m@
                == "web_search: query must not be empty"@),
            trim(query@).len() > 0 ==> (r matches Ok(hits) && hits@.len() == first_n(
                self.hits@,
                if max_results == 0 {
                    1
                } else {
                    max_results as nat
                },
            ).len() && forall|i: int|
                0 <= i < hits@.len() ==> (#[trigger] hits@[i]).title@ == self.hits@[i].title@
                    && hits@[i].url@ == self.hits@[i].url@ && hits@[i].snippet@
                    == self.hits@[i].snippet@),
    {
        let t = crate::text::trim_str(query);
        if t.as_str().is_empty() {
            return Err(ToolError::Failed(String::from_str("web_search: query must not be empty")));
        }
        let lim: usize = if max_results == 0 {
            1
        } else {
            max_results
        };
        let mut out: Vec<SearchHit> = Vec::new();
        let mut i: usize = 0;
        while i < self.hits.len() && i < lim
            invariant
                i <= self.hits@.len(),
                i <= lim,
                out@.len() == i,
                forall|k: int|
                    0 <= k < i ==> (#[trigger] out@[k]).title@ == self.hits@[k].title@
                        && out@[k].url@ == self.hits@[k].url@ && out@[k].snippet@
                        == self.hits@[k].snippet@,
            decreases self.hits@.len() - i,
        {
            let h = &self.hits[i];
            out.push(
                SearchHit { title: h.title.clone(), url: h.url.clone(), snippet: h.snippet.clone() },
            );
            i = i + 1;
        }
        Ok(out)
    }
}

/// A search backend that fails closed when no provider is configured.
#[derive(Debug, Default)]
pub struct UnconfiguredWebSearch;

impl UnconfiguredWebSearch {
    /// Always the no-provider error.
    pub fn search(&self, query: &str, max_results: usize) -> (r: Result<Vec<SearchHit>, ToolError>)
        ensures
            r matches Err(ToolError::Failed(m)) && m@
                == "web_search: no provider configured (set KERYX_WEB_SEARCH_PROVIDER or inject a backend)"@,
    {
        Err(
            ToolError::Failed(
                String::from_str(
                    "web_search: no provider configured (set KERYX_WEB_SEARCH_PROVIDER or inject a backend)",
                ),
            ),
        )
    }
}

/// Fixed pages by URL (no live network); SSRF checks still run when asked.
#[derive(Debug, Default)]
pub struct FixedWebExtract {
    /// URL and body.
    pub pages: Vec<(String, String)>,
    /// When true, URL checks run before the fixtures are consulted.
    pub enforce_ssrf: bool,
}

/// The body stored for `url`, if any (the first match).
pub open spec fn page_for(pages: Seq<(String, String)>, url: Seq<char>) -> Option<Seq<char>>
    decreases pages.len(),
{
    if pages.len() == 0 {
        None
    } else if pages[0].0@ == url {
        Some(pages[0].1@)
    } else {
        page_for(pages.drop_first(), url)
    }
}

impl FixedWebExtract {
    /// The fixture body for `url` (after the URL checks when enforced).
    pub fn extract(&self, url: &str) -> (r: Result<String, ToolError>)
        ensures
            self.enforce_ssrf && url_refusal(url@) is Some ==> (r matches Err(e) && refusal_error(
                e,
                url_refusal(url@)->Some_0,
            )),
            !(self.enforce_ssrf && url_refusal(url@) is Some) ==> match page_for(self.pages@, url@) {
                Some(b) => r matches Ok(body) && body@ == b,
                None => r matches Err(ToolError::Failed(m)) && m@ == "web_extract: no fixture for "@
                    + url@,
            },
    {
        if self.enforce_ssrf {
            validate_public_http_url(url)?;
        }
        let mut i: usize = 0;
        assert(self.pages@.skip(0) =~= self.pages@);
        while i < self.pages.len()
            invariant
                i <= self.pages@.len(),
                self.enforce_ssrf ==> url_refusal(url@) is None,
                page_for(self.pages@, url@) == page_for(self.pages@.skip(i as int), url@),
            decreases self.pages@.len() - i,
        {
            assert(self.pages@.skip(i as int)[0] == self.pages@[i as int]);
            assert(self.pages@.skip(i as int).drop_first() =~= self.pages@.skip(i + 1));
            if crate::text::str_eq(self.pages[i].0.as_str(), url) {
                return Ok(self.pages[i].1.clone());
            }
            i = i + 1;
        }
        Err(ToolError::Failed(String::from_str("web_extract: no fixture for ").concat(url)))
    }
}

/// The HTTP extract backend (checks each hop, pins DNS to checked addresses).
#[derive(Debug, Default)]
pub struct HttpWebExtract;

impl HttpWebExtract {
    pub fn new() -> (r: Result<Self, ToolError>)
        ensures
            r is Ok,
    {
        Ok(HttpWebExtract)
    }
}

/// What `url::Url::join` makes of a base URL and a reference: the base does not parse
/// (with the error's text), the reference does not resolve, or the joined URL.
pub enum JoinOutcome {
    BadBase(String),
    BadLocation(String),
    Joined(String),
}

/// The outcome of joining a reference onto a base URL with the `url` crate.
pub uninterp spec fn url_join(base: Seq<char>, reference: Seq<char>) -> JoinOutcome;

/// Parses `base` and joins `reference` onto it (`url::Url::parse`, `Url::join`).
#[verifier::external_body]
fn join_url(base: &str, reference: &str) -> (r: JoinOutcome)
    ensures
        r == url_join(base@, reference@),
{
    match url::Url::parse(base) {
        Err(e) => JoinOutcome::BadBase(e.to_string()),
        Ok(b) => match b.join(reference) {
            Err(e) => JoinOutcome::BadLocation(e.to_string()),
            Ok(j) => JoinOutcome::Joined(j.to_string()),
        },
    }
}

/// What to do after one hop of an extract.
pub enum HopDecision {
    /// The extract is over: the body, or why it failed.
    Done(Result<String, ToolError>),
    /// Fetch this URL next.
    Follow(String),
}

/// After fetching hop `hop` of `current` with `status`: a redirect is followed (to a
/// checked URL, up to the hop limit), a success gives the body, anything else fails.
pub fn next_hop(current: &str, hop: usize, status: u16, location: Option<String>, body: String) -> (r:
    HopDecision)
    requires
        100 <= status <= 999,
    ensures
        300 <= status <= 399 && hop >= WEB_EXTRACT_MAX_REDIRECTS ==> (r matches HopDecision::Done(
            Err(ToolError::Denied(m)),
        ) && m@ == "web_extract: too many redirects"@),
        300 <= status <= 399 && hop < WEB_EXTRACT_MAX_REDIRECTS ==> match location {
            None => r matches HopDecision::Done(Err(ToolError::Failed(m))) && m@
                == "web_extract: redirect without Location"@,
            Some(l) => match url_join(current@, l@) {
                JoinOutcome::BadBase(e) => r matches HopDecision::Done(Err(ToolError::Failed(m)))
                    && m@ == "web_extract: bad base url: "@ + e@,
                JoinOutcome::BadLocation(e) => r matches HopDecision::Done(
                    Err(ToolError::Failed(m)),
                ) && m@ == "web_extract: bad Location: "@ + e@,
                JoinOutcome::Joined(j) => match url_refusal(j@) {
                    Some(x) => r matches HopDecision::Done(Err(e)) && refusal_error(e, x),
                    None => r matches HopDecision::Follow(n) && n@ == j@,
                },
            },
        },
        !(300 <= status <= 399) && !(200 <= status <= 299) ==> (r matches HopDecision::Done(
            Err(ToolError::Failed(m)),
        ) && m@ == "web_extract: HTTP "@ + crate::model::error::http_status_text(status)),
        200 <= status <= 299 ==> (r matches HopDecision::Done(Ok(b)) && b == body),
{
    if 300 <= status && status <= 399 {
        if hop >= WEB_EXTRACT_MAX_REDIRECTS {
            return HopDecision::Done(
                Err(ToolError::Denied(String::from_str("web_extract: too many redirects"))),
            );
        }
        let next = match location {
            None => {
                return HopDecision::Done(
                    Err(ToolError::Failed(String::from_str("web_extract: redirect without Location"))),
                )
            },
            Some(l) => l,
        };
        match join_url(current, next.as_str()) {
            JoinOutcome::BadBase(e) => HopDecision::Done(
                Err(
                    ToolError::Failed(
                        String::from_str("web_extract: bad base url: ").concat(e.as_str()),
                    ),
                ),
            ),
            JoinOutcome::BadLocation(e) => HopDecision::Done(
                Err(
                    ToolError::Failed(String::from_str("web_extract: bad Location: ").concat(e.as_str())),
                ),
            ),
            JoinOutcome::Joined(j) => match validate_public_http_url(j.as_str()) {
                Err(e) => HopDecision::Done(Err(e)),
                Ok(()) => HopDecision::Follow(j),
            },
        }
    } else if !(200 <= status && status <= 299) {
        HopDecision::Done(
            Err(
                ToolError::Failed(
                    String::from_str("web_extract: HTTP ").concat(
                        crate::model::error::status_text(status).as_str(),
                    ),
                ),
            ),
        )
    } else {
        HopDecision::Done(Ok(body))
    }
}

/// The text of a fetched body: at most the first `WEB_EXTRACT_MAX_BYTES` bytes,
/// decoded with replacement of invalid sequences.
pub fn body_text(bytes: &[u8]) -> (r: String)
    ensures
        r@ == crate::tools::mcp::protocol::utf8_text(
            if bytes@.len() > WEB_EXTRACT_MAX_BYTES {
                bytes@.take(WEB_EXTRACT_MAX_BYTES as int)
            } else {
                bytes@
            },
        ),
{
    let n = if bytes.len() > WEB_EXTRACT_MAX_BYTES {
        WEB_EXTRACT_MAX_BYTES
    } else {
        bytes.len()
    };
    let mut kept: Vec<u8> = Vec::new();
    let mut i: usize = 0;
    while i < n
        invariant
            i <= n <= bytes@.len(),
            kept@ == bytes@.take(i as int),
        decreases n - i,
    {
        kept.push(bytes[i]);
        i = i + 1;
        assert(kept@ =~= bytes@.take(i as int));
    }
    assert(bytes@.len() <= WEB_EXTRACT_MAX_BYTES ==> bytes@.take(n as int) =~= bytes@);
    crate::tools::mcp::protocol::text_of_bytes(kept.as_slice())
}

// ---------------------------------------------------------------------------
// The web tools

/// What a web call asks for once its arguments are read.
#[derive(Debug)]
pub enum WebAction {
    Search { query: String, max_results: usize },
    Extract { url: String },
}

/// The hit cap of a search: the requested number (5 when absent) clamped to 1..=20.
pub open spec fn search_cap(requested: Option<u64>) -> nat {
    let n = match requested {
        Some(v) => v as nat,
        None => 5,
    };
    if n < 1 {
        1
    } else if n > 20 {
        20
    } else {
        n
    }
}

/// Policy-gated web tools: which tools may run.
pub struct WebTools {
    pub allowed: Vec<String>,
}

/// One search hit as a result line.
pub open spec fn hit_line(i: nat, h: SearchHit) -> Seq<char> {
    decimal(i + 1) + ". "@ + truncate_chars(h.title@, 120) + " — "@ + truncate_chars(h.url@, 200)
        + "\n   "@ + truncate_chars(h.snippet@, 240)
}

/// The result lines of some hits.
pub open spec fn hit_lines(hits: Seq<SearchHit>) -> Seq<Seq<char>> {
    Seq::new(hits.len(), |i: int| hit_line(i as nat, hits[i]))
}

/// An extracted body as returned: cut to `WEB_EXTRACT_MAX_CHARS` characters with a
/// truncation note when longer.
pub open spec fn extract_content(body: Seq<char>) -> Seq<char> {
    if body.len() > WEB_EXTRACT_MAX_CHARS {
        body.take(WEB_EXTRACT_MAX_CHARS as int) + "\n…[truncated]"@
    } else {
        body
    }
}

impl WebTools {
    pub fn new(allowed: Vec<String>) -> (r: Self)
        ensures
            r.allowed == allowed,
    {
        WebTools { allowed }
    }

    /// The catalog: `web_search` and `web_extract` when allowed.
    pub fn catalog(&self) -> (r: Vec<ToolSpec>)
        ensures
            r@.len() == (if views(self.allowed@).contains("web_search"@) {
                1int
            } else {
                0
            }) + (if views(self.allowed@).contains("web_extract"@) {
                1int
            } else {
                0
            }),
            forall|i: int| 0 <= i < r@.len() ==> is_empty_params(#[trigger] r@[i].parameters),
            views(self.allowed@).contains("web_search"@) ==> r@[0].name@ == "web_search"@
                && r@[0].description@ == "Search the public web"@,
            !views(self.allowed@).contains("web_search"@) && views(self.allowed@).contains(
                "web_extract"@,
            ) ==> r@[0].name@ == "web_extract"@,
            views(self.allowed@).contains("web_search"@) && views(self.allowed@).contains(
                "web_extract"@,
            ) ==> r@[1].name@ == "web_extract"@ && r@[1].description@
                == "Fetch and extract text from a public HTTP(S) URL"@,
    {
        let mut out: Vec<ToolSpec> = Vec::new();
        if crate::text::list_contains(self.allowed.as_slice(), "web_search") {
            out.push(ToolSpec::empty_params("web_search", "Search the public web"));
        }
        if crate::text::list_contains(self.allowed.as_slice(), "web_extract") {
            out.push(
                ToolSpec::empty_params(
                    "web_extract",
                    "Fetch and extract text from a public HTTP(S) URL",
                ),
            );
        }
        out
    }

    /// What a call asks for, or why it is refused before any backend runs (an extract
    /// URL is checked here, before the backend).
    pub fn plan_call(&self, call: &ToolCall) -> (r: Result<WebAction, ToolError>)
        ensures
            !views(self.allowed@).contains(call.name@) || !(call.name@ == "web_search"@
                || call.name@ == "web_extract"@) ==> (r matches Err(ToolError::Denied(m)) && m@
                == crate::tools::workspace::disallowed(call.name@)),
            views(self.allowed@).contains(call.name@) && call.name@ == "web_search"@ ==> match get_str(
                call.arguments,
                "query"@,
            ) {
                None => r matches Err(ToolError::Failed(m)) && m@
                    == crate::tools::workspace::missing_arg("query"@),
                Some(q) => r matches Ok(WebAction::Search { query, max_results }) && query@ == q
                    && max_results as nat == search_cap(get_u64(call.arguments, "max_results"@)),
            },
            views(self.allowed@).contains(call.name@) && call.name@ == "web_extract"@ ==> match get_str(
                call.arguments,
                "url"@,
            ) {
                None => r matches Err(ToolError::Failed(m)) && m@
                    == crate::tools::workspace::missing_arg("url"@),
                Some(u) => match url_refusal(u) {
                    Some(x) => r matches Err(e) && refusal_error(e, x),
                    None => r matches Ok(WebAction::Extract { url }) && url@ == u,
                },
            },
    {
        proof {
            reveal_strlit("web_search");
            reveal_strlit("web_extract");
            assert("web_search"@.len() != "web_extract"@.len());
        }
        let name = call.name.as_str();
        if !crate::text::list_contains(self.allowed.as_slice(), name) {
            return Err(
                ToolError::Denied(
                    String::from_str("unknown or disallowed tool '").concat(name).concat("'"),
                ),
            );
        }
        if crate::text::str_eq(name, "web_search") {
            let query = crate::tools::workspace::arg_string(&call.arguments, "query")?;
            let n: u64 = match crate::json::get_u64_exec(&call.arguments, "max_results") {
                Some(v) => v,
                None => 5,
            };
            let m: usize = if n < 1 {
                1
            } else if n > 20 {
                20
            } else {
                n as usize
            };
            Ok(WebAction::Search { query, max_results: m })
        } else if crate::text::str_eq(name, "web_extract") {
            let url = match crate::tools::workspace::arg_string(&call.arguments, "url") {
                Ok(u) => u,
                Err(e) => return Err(e),
            };
            match validate_public_http_url(url.as_str()) {
                Ok(()) => Ok(WebAction::Extract { url }),
                Err(e) => Err(e),
            }
        } else {
            Err(
                ToolError::Denied(
                    String::from_str("unknown or disallowed tool '").concat(name).concat("'"),
                ),
            )
        }
    }
}

/// The answer to a search: one numbered entry per hit (or a no-result note), and the
/// query and hit count for the event.
pub fn search_result(query: &str, hits: &Vec<SearchHit>) -> (r: ToolResult)
    ensures
        hits@.len() == 0 ==> r.content@ == "no results for "@ + crate::text::debug_str(query@),
        hits@.len() > 0 ==> r.content@ == crate::model::consumer::join_lines(hit_lines(hits@)),
        r.summary@ == "web_search query="@ + truncate_chars(query@, 40) + " hits="@ + decimal(
            hits@.len() as nat,
        ),
{
    let mut lines: Vec<String> = Vec::new();
    let mut i: usize = 0;
    while i < hits.len()
        invariant
            i <= hits@.len(),
            views(lines@) == hit_lines(hits@).take(i as int),
        decreases hits@.len() - i,
    {
        let h = &hits[i];
        let line = crate::text::decimal_string((i + 1) as u64).concat(". ").concat(
            truncate(h.title.as_str(), 120).as_str(),
        ).concat(" — ").concat(truncate(h.url.as_str(), 200).as_str()).concat("\n   ").concat(
            truncate(h.snippet.as_str(), 240).as_str(),
        );
        let ghost before = views(lines@);
        lines.push(line);
        assert(views(lines@) =~= before.push(hit_line(i as nat, hits@[i as int])));
        assert(hit_lines(hits@).take(i + 1) =~= hit_lines(hits@).take(i as int).push(
            hit_line(i as nat, hits@[i as int]),
        ));
        i = i + 1;
    }
    assert(hit_lines(hits@).take(i as int) =~= hit_lines(hits@));
    let content = if hits.len() == 0 {
        String::from_str("no results for ").concat(crate::text::debug_str_exec(query).as_str())
    } else {
        crate::tools::workspace::join_with_newlines(&lines)
    };
    let summary = String::from_str("web_search query=").concat(truncate(query, 40).as_str()).concat(
        " hits=",
    ).concat(crate::text::decimal_string(hits.len() as u64).as_str());
    ToolResult { content, summary }
}

/// The answer to an extract: the body (cut when too long), and the redacted URL and
/// character count for the event.
pub fn extract_result(url: &str, body: String) -> (r: ToolResult)
    ensures
        r.content@ == extract_content(body@),
        r.summary@ == "web_extract url="@ + truncate_chars(
            match url_without_userinfo(url@) {
                Some(u) => u,
                None => truncate_chars(url@, 80),
            },
            80,
        ) + " chars="@ + decimal(extract_content(body@).len()),
{
    let cs = chars_of(body.as_str());
    let content = if cs.len() > WEB_EXTRACT_MAX_CHARS {
        let mut t: Vec<char> = Vec::new();
        let mut i: usize = 0;
        while i < WEB_EXTRACT_MAX_CHARS
            invariant
                i <= WEB_EXTRACT_MAX_CHARS < cs@.len(),
                t@ == cs@.take(i as int),
            decreases WEB_EXTRACT_MAX_CHARS - i,
        {
            t.push(cs[i]);
            i = i + 1;
            assert(t@ =~= cs@.take(i as int));
        }
        string_of(t.as_slice()).concat("\n…[truncated]")
    } else {
        body
    };
    let n = chars_of(content.as_str()).len();
    let summary = String::from_str("web_extract url=").concat(
        truncate(redact_url_for_event(url).as_str(), 80).as_str(),
    ).concat(" chars=").concat(crate::text::decimal_string(n as u64).as_str());
    ToolResult { content, summary }
}

/// Routes tool names to the first runtime that claims them (by position).
pub struct CompositeTools {
    /// The names each runtime claims, in registration order.
    pub routes: Vec<Vec<String>>,
}

impl CompositeTools {
    pub fn new() -> (r: Self)
        ensures
            r.routes@.len() == 0,
    {
        CompositeTools { routes: Vec::new() }
    }

    /// Add a runtime's names; an empty set adds no route.
    pub fn with(self, names: Vec<String>) -> (r: Self)
        ensures
            names@.len() == 0 ==> r.routes == self.routes,
            names@.len() > 0 ==> r.routes@ == self.routes@.push(names),
    {
        let mut routes = self.routes;
        if names.len() > 0 {
            routes.push(names);
        }
        CompositeTools { routes }
    }

    /// No runtime is registered.
    pub fn is_empty(&self) -> (r: bool)
        ensures
            r == (self.routes@.len() == 0),
    {
        self.routes.len() == 0
    }

    /// The first route claiming `name`, or the denial.
    pub fn route(&self, name: &str) -> (r: Result<usize, ToolError>)
        ensures
            match r {
                Ok(i) => i < self.routes@.len() && views(self.routes@[i as int]@).contains(name@)
                    && forall|j: int| 0 <= j < i ==> !views(self.routes@[j]@).contains(name@),
                Err(e) => (forall|j: int|
                    0 <= j < self.routes@.len() ==> !views(self.routes@[j]@).contains(name@)) && (
                e matches ToolError::Denied(m) && m@ == crate::tools::workspace::disallowed(name@)),
            },
    {
        let mut i: usize = 0;
        while i < self.routes.len()
            invariant
                i <= self.routes@.len(),
                forall|j: int| 0 <= j < i ==> !views(self.routes@[j]@).contains(name@),
            decreases self.routes@.len() - i,
        {
            if crate::text::list_contains(self.routes[i].as_slice(), name) {
                return Ok(i);
            }
            i = i + 1;
        }
        Err(ToolError::Denied(String::from_str("unknown or disallowed tool '").concat(name).concat("'")))
    }
}

} // verus!
