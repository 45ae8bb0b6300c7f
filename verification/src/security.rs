//! Navigation policy for the remote webview: which URLs stay inside the
//! app, which open in the system browser, and which are refused.

use vstd::prelude::*;
use crate::text::{ends_with, has_prefix, has_suffix, lowercase, lowercase_of, starts_with, same_text};

verus! {

/// What to do with a navigation request.
#[derive(Debug, Clone, Copy, PartialEq, Eq, Structural)]
pub enum NavigationDecision {
    Allow,
    OpenExternally,
    Reject,
}

/// The navigation rules of the remote webview.
pub struct NavigationPolicy;

/// The host of a parsed URL: a domain name, or an IP address by its
/// octets (4 for IPv4, 16 for IPv6).
#[derive(Debug, Clone, PartialEq, Eq)]
pub enum UrlHost {
    Domain(String),
    Ip(Vec<u8>),
}

/// A host as the contracts speak of it.
pub enum HostView {
    Domain(Seq<char>),
    Ip(Seq<u8>),
}

/// The view of a host.
pub open spec fn host_view(h: UrlHost) -> HostView {
    match h {
        UrlHost::Domain(d) => HostView::Domain(d@),
        UrlHost::Ip(o) => HostView::Ip(o@),
    }
}

/// What the `url` crate reports for `url`: `None` when `Url::parse` fails,
/// otherwise the URL's scheme and its parsed host (`Url::host`).
pub uninterp spec fn url_scheme_and_host(url: Seq<char>) -> Option<(Seq<char>, Option<HostView>)>;

/// The view of a parsed scheme and host.
pub open spec fn url_parts_view(p: Option<(String, Option<UrlHost>)>) -> Option<(Seq<char>, Option<HostView>)> {
    match p {
        None => None,
        Some((scheme, host)) => Some((scheme@, match host {
            Some(h) => Some(host_view(h)),
            None => None,
        })),
    }
}

/// Parses `url` with `url::Url::parse` and returns its scheme and its host
/// as `Url::host` gives it: a domain, or an IPv4 or IPv6 address (taken by
/// its octets, so an IPv6 literal carries no brackets). Claims that the
/// outcome is a function of `url` and that an address has 4 or 16 octets.
#[verifier::external_body]
fn parse_url(url: &str) -> (r: Option<(String, Option<UrlHost>)>)
    ensures
        url_parts_view(r) == url_scheme_and_host(url@),
        r matches Some((_, Some(UrlHost::Ip(o)))) ==> o@.len() == 4 || o@.len() == 16,
{
    match url::Url::parse(url) {
        Ok(u) => Some((u.scheme().to_string(), match u.host() {
            Some(url::Host::Domain(d)) => Some(UrlHost::Domain(d.to_string())),
            Some(url::Host::Ipv4(a)) => Some(UrlHost::Ip(a.octets().to_vec())),
            Some(url::Host::Ipv6(a)) => Some(UrlHost::Ip(a.octets().to_vec())),
            None => None,
        })),
        Err(_) => None,
    }
}

/// IPv4 addresses the remote webview must never reach: loopback (127/8),
/// unspecified (0.0.0.0), private (10/8, 172.16/12, 192.168/16) and
/// link-local (169.254/16).
pub open spec fn is_local_ipv4(o: Seq<u8>) -> bool {
    ||| o[0] == 127
    ||| (o[0] == 0 && o[1] == 0 && o[2] == 0 && o[3] == 0)
    ||| o[0] == 10
    ||| (o[0] == 172 && 16 <= o[1] <= 31)
    ||| (o[0] == 192 && o[1] == 168)
    ||| (o[0] == 169 && o[1] == 254)
}

/// Whether the IPv6 address `o` is IPv4-mapped (`::ffff:a.b.c.d`).
pub open spec fn is_ipv4_mapped(o: Seq<u8>) -> bool {
    (forall|i: int| 0 <= i < 10 ==> o[i] == 0) && o[10] == 0xff && o[11] == 0xff
}

/// Addresses the remote webview must never reach: the local IPv4 ranges;
/// for IPv6 loopback (::1), unspecified (::), unique-local (fc00::/7),
/// link-local (fe80::/10), and IPv4-mapped addresses of a local IPv4 range.
pub open spec fn is_local_address(o: Seq<u8>) -> bool {
    if o.len() == 4 {
        is_local_ipv4(o)
    } else if o.len() == 16 {
        ||| ((forall|i: int| 0 <= i < 15 ==> o[i] == 0) && (o[15] == 0 || o[15] == 1))
        ||| o[0] == 0xfc || o[0] == 0xfd
        ||| (o[0] == 0xfe && 0x80 <= o[1] <= 0xbf)
        ||| (is_ipv4_mapped(o) && is_local_ipv4(o.subrange(12, 16)))
    } else {
        false
    }
}

/// Hosts that belong to WhatsApp Web: `whatsapp.com`, `whatsapp.net`,
/// `facebook.com`, `fbcdn.net` and their subdomains.
pub open spec fn is_whatsapp_host(h: Seq<char>) -> bool {
    ||| h == "whatsapp.com"@ || has_suffix(h, ".whatsapp.com"@)
    ||| h == "whatsapp.net"@ || has_suffix(h, ".whatsapp.net"@)
    ||| h == "facebook.com"@ || has_suffix(h, ".facebook.com"@)
    ||| h == "fbcdn.net"@ || has_suffix(h, ".fbcdn.net"@)
}

/// The decision for an http(s) URL whose host is `host`: `localhost` and
/// local addresses are rejected, WhatsApp domains are allowed, anything else
/// opens in the system browser. Domains are compared lowercased.
pub open spec fn host_decision(host: HostView) -> NavigationDecision {
    match host {
        HostView::Domain(d) => {
            let lh = lowercase_of(d);
            if lh == "localhost"@ {
                NavigationDecision::Reject
            } else if is_whatsapp_host(lh) {
                NavigationDecision::Allow
            } else {
                NavigationDecision::OpenExternally
            }
        },
        HostView::Ip(o) => if is_local_address(o) {
            NavigationDecision::Reject
        } else {
            NavigationDecision::OpenExternally
        },
    }
}

/// The decision for `url`: internal `blob:` and `about:` URLs are allowed;
/// unparsable URLs, schemes other than http and https, URLs without a host,
/// `localhost` and local IP addresses are rejected; WhatsApp hosts are
/// allowed; anything else opens in the system browser.
pub open spec fn navigation_decision(url: Seq<char>) -> NavigationDecision {
    if has_prefix(url, "blob:"@) || has_prefix(url, "about:"@) {
        NavigationDecision::Allow
    } else {
        match url_scheme_and_host(url) {
            None => NavigationDecision::Reject,
            Some((scheme, host)) => {
                let s = lowercase_of(scheme);
                if s != "http"@ && s != "https"@ {
                    NavigationDecision::Reject
                } else {
                    match host {
                        None => NavigationDecision::Reject,
                        Some(h) => host_decision(h),
                    }
                }
            },
        }
    }
}

proof fn lemma_blocked_schemes_are_not_web()
    ensures
        "file"@ != "http"@ && "file"@ != "https"@,
        "javascript"@ != "http"@ && "javascript"@ != "https"@,
        "data"@ != "http"@ && "data"@ != "https"@,
        "ftp"@ != "http"@ && "ftp"@ != "https"@,
        "ssh"@ != "http"@ && "ssh"@ != "https"@,
        "chrome"@ != "http"@ && "chrome"@ != "https"@,
        "devtools"@ != "http"@ && "devtools"@ != "https"@,
{
    reveal_strlit("http");
    reveal_strlit("https");
    reveal_strlit("file");
    reveal_strlit("javascript");
    reveal_strlit("data");
    reveal_strlit("ftp");
    reveal_strlit("ssh");
    reveal_strlit("chrome");
    reveal_strlit("devtools");
    assert("file"@[0] != "http"@[0]);
    assert("data"@[0] != "http"@[0]);
    assert("http"@.len() == 4 && "https"@.len() == 5);
    assert("javascript"@.len() == 10 && "ftp"@.len() == 3 && "ssh"@.len() == 3);
    assert("chrome"@.len() == 6 && "devtools"@.len() == 8 && "file"@.len() == 4);
    assert("data"@.len() == 4);
}

fn is_local_ipv4_at(o: &Vec<u8>, at: usize) -> (r: bool)
    requires
        at <= 12,
        at + 4 <= o@.len(),
    ensures
        r == is_local_ipv4(o@.subrange(at as int, at + 4)),
{
    let a = o[at];
    let b = o[at + 1];
    let c = o[at + 2];
    let d = o[at + 3];
    a == 127 || (a == 0 && b == 0 && c == 0 && d == 0) || a == 10 || (a == 172 && 16 <= b && b
        <= 31) || (a == 192 && b == 168) || (a == 169 && b == 254)
}

/// Whether the first `n` octets of `o` are all zero.
fn leading_zeros(o: &Vec<u8>, n: usize) -> (r: bool)
    requires
        n <= o@.len(),
    ensures
        r == forall|k: int| 0 <= k < n ==> o@[k] == 0,
{
    let mut all_zero = true;
    let mut i: usize = 0;
    while i < n
        invariant
            n <= o@.len(),
            i <= n,
            all_zero == forall|k: int| 0 <= k < i ==> o@[k] == 0,
        decreases n - i,
    {
        if o[i] != 0 {
            all_zero = false;
        }
        i = i + 1;
    }
    all_zero
}

fn is_local_octets(o: &Vec<u8>) -> (r: bool)
    ensures
        r == is_local_address(o@),
{
    if o.len() == 4 {
        let r = is_local_ipv4_at(o, 0);
        assert(o@.subrange(0, 4) =~= o@);
        r
    } else if o.len() == 16 {
        let loopback_or_unspecified = leading_zeros(o, 15) && (o[15] == 0 || o[15] == 1);
        let mapped = leading_zeros(o, 10) && o[10] == 0xff && o[11] == 0xff;
        loopback_or_unspecified || o[0] == 0xfc || o[0] == 0xfd || (o[0] == 0xfe && 0x80 <= o[1]
            && o[1] <= 0xbf) || (mapped && is_local_ipv4_at(o, 12))
    } else {
        false
    }
}

fn is_whatsapp_host_name(h: &str) -> (r: bool)
    ensures
        r == is_whatsapp_host(h@),
{
    same_text(h, "whatsapp.com") || ends_with(h, ".whatsapp.com") || same_text(h, "whatsapp.net")
        || ends_with(h, ".whatsapp.net") || same_text(h, "facebook.com") || ends_with(
        h,
        ".facebook.com",
    ) || same_text(h, "fbcdn.net") || ends_with(h, ".fbcdn.net")
}

impl NavigationPolicy {
    /// Decides a navigation to `url_str` for the remote webview.
    pub fn evaluate(url_str: &str) -> (r: NavigationDecision)
        ensures
            r == navigation_decision(url_str@),
    {
        if starts_with(url_str, "blob:") || starts_with(url_str, "about:") {
            return NavigationDecision::Allow;
        }
        let parsed = match parse_url(url_str) {
            Some(p) => p,
            None => return NavigationDecision::Reject,
        };
        let scheme = lowercase(parsed.0.as_str());
        if same_text(scheme.as_str(), "file") || same_text(scheme.as_str(), "javascript")
            || same_text(scheme.as_str(), "data") || same_text(scheme.as_str(), "ftp") || same_text(
            scheme.as_str(),
            "ssh",
        ) || same_text(scheme.as_str(), "chrome") || same_text(scheme.as_str(), "devtools") {
            proof {
                lemma_blocked_schemes_are_not_web();
            }
            return NavigationDecision::Reject;
        }
        if !same_text(scheme.as_str(), "http") && !same_text(scheme.as_str(), "https") {
            return NavigationDecision::Reject;
        }
        match &parsed.1 {
            Some(h) => Self::decide_host(h),
            None => NavigationDecision::Reject,
        }
    }

    /// Decides a navigation to an http(s) URL whose parsed host is `host`.
    pub fn decide_host(host: &UrlHost) -> (r: NavigationDecision)
        ensures
            r == host_decision(host_view(*host)),
    {
        match host {
            UrlHost::Domain(d) => {
                let lh = lowercase(d.as_str());
                if same_text(lh.as_str(), "localhost") {
                    NavigationDecision::Reject
                } else if is_whatsapp_host_name(lh.as_str()) {
                    NavigationDecision::Allow
                } else {
                    NavigationDecision::OpenExternally
                }
            },
            UrlHost::Ip(o) => if is_local_octets(o) {
                NavigationDecision::Reject
            } else {
                NavigationDecision::OpenExternally
            },
        }
    }
}

/// Whether `url` is one of the internal `blob:` or `about:` URLs.
pub open spec fn is_internal_url(url: Seq<char>) -> bool {
    has_prefix(url, "blob:"@) || has_prefix(url, "about:"@)
}

/// Whether `host` is the local machine or a local network: the domain
/// `localhost` (in any case), or an IP address in a local range.
pub open spec fn is_local_host(host: HostView) -> bool {
    match host {
        HostView::Domain(d) => lowercase_of(d) == "localhost"@,
        HostView::Ip(o) => is_local_address(o),
    }
}

/// Whether `url` parses as an http or https URL whose host is `host`.
pub open spec fn is_web_url_on(url: Seq<char>, host: HostView) -> bool {
    url_scheme_and_host(url) matches Some((s, Some(h))) && (lowercase_of(s) == "http"@
        || lowercase_of(s) == "https"@) && h == host
}

/// Only WhatsApp surfaces load inside the app: an allowed URL is an internal
/// `blob:` or `about:` URL, or an http(s) URL whose host is a domain that
/// lowercases to a WhatsApp host other than `localhost`; no IP address is
/// ever allowed.
pub proof fn only_whatsapp_surfaces_load_in_app(url: Seq<char>)
    ensures
        navigation_decision(url) == NavigationDecision::Allow ==> is_internal_url(url) || exists|
            d: Seq<char>,
        |
            #![trigger is_whatsapp_host(lowercase_of(d))]
            is_web_url_on(url, HostView::Domain(d)) && is_whatsapp_host(lowercase_of(d))
                && !is_local_host(HostView::Domain(d)),
{
    if navigation_decision(url) == NavigationDecision::Allow && !is_internal_url(url) {
        if let Some((s, Some(h))) = url_scheme_and_host(url) {
            if let HostView::Domain(d) = h {
                assert(is_whatsapp_host(lowercase_of(d)));
            }
        }
    }
}

/// Schemes other than http and https are refused (internal `blob:` and
/// `about:` URLs aside), and so are `localhost` and local IPv4 and IPv6
/// addresses (IPv4-mapped ones included), so the remote surface can reach
/// neither local files nor local services.
pub proof fn non_web_and_local_targets_are_refused(url: Seq<char>, host: HostView)
    ensures
        !is_internal_url(url) && (url_scheme_and_host(url) matches Some((s, _)) && lowercase_of(s)
            != "http"@ && lowercase_of(s) != "https"@) ==> navigation_decision(url)
            == NavigationDecision::Reject,
        !is_internal_url(url) && is_web_url_on(url, host) && is_local_host(host)
            ==> navigation_decision(url) == NavigationDecision::Reject,
        !is_internal_url(url) && url_scheme_and_host(url) is None ==> navigation_decision(url)
            == NavigationDecision::Reject,
{
}

/// Whether `h` is `domain` or a subdomain of it.
pub open spec fn names_domain(h: Seq<char>, domain: Seq<char>) -> bool {
    h == domain || exists|sub: Seq<char>| h == sub + "."@ + domain
}

proof fn lemma_subdomain_suffix(sub: Seq<char>, domain: Seq<char>)
    ensures
        has_suffix(sub + "."@ + domain, "."@ + domain),
{
    let h = sub + "."@ + domain;
    assert(h.subrange(h.len() - ("."@ + domain).len(), h.len() as int) =~= "."@ + domain);
}

/// WhatsApp's own domains load in the app: an http(s) URL whose host
/// lowercases to `whatsapp.com`, `whatsapp.net`, `facebook.com` or
/// `fbcdn.net`, or to a subdomain of one of them (such as
/// `www.facebook.com`), is allowed.
pub proof fn whatsapp_domains_are_allowed(url: Seq<char>, scheme: Seq<char>, d: Seq<char>)
    requires
        url_scheme_and_host(url) == Some((scheme, Some(HostView::Domain(d)))),
        lowercase_of(scheme) == "http"@ || lowercase_of(scheme) == "https"@,
        names_domain(lowercase_of(d), "whatsapp.com"@) || names_domain(lowercase_of(d), "whatsapp.net"@)
            || names_domain(lowercase_of(d), "facebook.com"@) || names_domain(
            lowercase_of(d),
            "fbcdn.net"@,
        ),
    ensures
        host_decision(HostView::Domain(d)) == NavigationDecision::Allow,
        navigation_decision(url) == NavigationDecision::Allow,
{
    reveal_strlit("localhost");
    reveal_strlit(".");
    reveal_strlit("whatsapp.com");
    reveal_strlit("whatsapp.net");
    reveal_strlit("facebook.com");
    reveal_strlit("fbcdn.net");
    reveal_strlit(".whatsapp.com");
    reveal_strlit(".whatsapp.net");
    reveal_strlit(".facebook.com");
    reveal_strlit(".fbcdn.net");
    let h = lowercase_of(d);
    assert("."@ + "whatsapp.com"@ =~= ".whatsapp.com"@);
    assert("."@ + "whatsapp.net"@ =~= ".whatsapp.net"@);
    assert("."@ + "facebook.com"@ =~= ".facebook.com"@);
    assert("."@ + "fbcdn.net"@ =~= ".fbcdn.net"@);
    if h != "whatsapp.com"@ && h != "whatsapp.net"@ && h != "facebook.com"@ && h != "fbcdn.net"@ {
        let dom = if names_domain(h, "whatsapp.com"@) {
            "whatsapp.com"@
        } else if names_domain(h, "whatsapp.net"@) {
            "whatsapp.net"@
        } else if names_domain(h, "facebook.com"@) {
            "facebook.com"@
        } else {
            "fbcdn.net"@
        };
        let sub = choose|sub: Seq<char>| h == sub + "."@ + dom;
        lemma_subdomain_suffix(sub, dom);
        assert(h.len() > 9);
    } else {
        assert(h[0] != 'l');
    }
    assert(h != "localhost"@);
    assert(is_whatsapp_host(h));
}

/// Which IP hosts are refused. An IPv4 host is refused exactly when it is
/// in 127.0.0.0/8, is 0.0.0.0, or is in 10.0.0.0/8, 172.16.0.0/12,
/// 192.168.0.0/16 or 169.254.0.0/16; any other opens in the system
/// browser. An IPv6 host is refused when it is ::1 or ::, in fc00::/7 or
/// fe80::/10, or an IPv4-mapped address (::ffff:a.b.c.d) of a refused IPv4
/// address. No IP host is ever loaded in the app.
pub proof fn local_ip_hosts_are_refused(o: Seq<u8>)
    ensures
        o.len() == 4 ==> (host_decision(HostView::Ip(o)) == NavigationDecision::Reject <==> (o[0]
            == 127 || (o[0] == 0 && o[1] == 0 && o[2] == 0 && o[3] == 0) || o[0] == 10 || (o[0]
            == 172 && 16 <= o[1] && o[1] <= 31) || (o[0] == 192 && o[1] == 168) || (o[0] == 169
            && o[1] == 254))),
        o.len() == 16 && (forall|i: int| 0 <= i < 15 ==> o[i] == 0) && (o[15] == 0 || o[15] == 1)
            ==> host_decision(HostView::Ip(o)) == NavigationDecision::Reject,
        o.len() == 16 && (o[0] == 0xfc || o[0] == 0xfd) ==> host_decision(HostView::Ip(o))
            == NavigationDecision::Reject,
        o.len() == 16 && o[0] == 0xfe && 0x80 <= o[1] && o[1] <= 0xbf ==> host_decision(
            HostView::Ip(o),
        ) == NavigationDecision::Reject,
        o.len() == 16 && (forall|i: int| 0 <= i < 10 ==> o[i] == 0) && o[10] == 0xff && o[11] == 0xff
            && (o[12] == 127 || o[12] == 10 || (o[12] == 192 && o[13] == 168) || (o[12] == 172
            && 16 <= o[13] && o[13] <= 31) || (o[12] == 169 && o[13] == 254) || (o[12] == 0
            && o[13] == 0 && o[14] == 0 && o[15] == 0)) ==> host_decision(HostView::Ip(o))
            == NavigationDecision::Reject,
        host_decision(HostView::Ip(o)) != NavigationDecision::Allow,
{
    if o.len() == 16 {
        let v = o.subrange(12, 16);
        assert(v[0] == o[12] && v[1] == o[13] && v[2] == o[14] && v[3] == o[15]);
    }
}

} // verus!
