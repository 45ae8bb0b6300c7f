use whatnull::security::{NavigationDecision, NavigationPolicy, UrlHost};

#[test]
fn test_whatsapp_domains_allowed() {
    assert_eq!(NavigationPolicy::evaluate("https://web.whatsapp.com"), NavigationDecision::Allow);
    assert_eq!(
        NavigationPolicy::evaluate("https://flows.whatsapp.net/flows/cache_management/"),
        NavigationDecision::Allow
    );
    assert_eq!(
        NavigationPolicy::evaluate("https://webtp.whatsapp.net/pdf-viewer/?locale=en_GB"),
        NavigationDecision::Allow
    );
    assert_eq!(
        NavigationPolicy::evaluate("blob:https://web.whatsapp.com/uuid"),
        NavigationDecision::Allow
    );
}

#[test]
fn test_external_opened_externally() {
    assert_eq!(
        NavigationPolicy::evaluate("https://example.com"),
        NavigationDecision::OpenExternally
    );
    assert_eq!(
        NavigationPolicy::evaluate("https://google.com/search?q=test"),
        NavigationDecision::OpenExternally
    );
}

#[test]
fn test_blocked_schemes_rejected() {
    assert_eq!(NavigationPolicy::evaluate("javascript:alert(1)"), NavigationDecision::Reject);
    assert_eq!(NavigationPolicy::evaluate("file:///etc/passwd"), NavigationDecision::Reject);
}

#[test]
fn local_hosts_are_rejected() {
    assert_eq!(NavigationPolicy::evaluate("http://localhost:8080/"), NavigationDecision::Reject);
    assert_eq!(NavigationPolicy::evaluate("http://127.0.0.1/"), NavigationDecision::Reject);
    assert_eq!(NavigationPolicy::evaluate("http://10.1.2.3/"), NavigationDecision::Reject);
    assert_eq!(NavigationPolicy::evaluate("http://172.20.0.1/"), NavigationDecision::Reject);
    assert_eq!(NavigationPolicy::evaluate("http://192.168.1.1/"), NavigationDecision::Reject);
    assert_eq!(NavigationPolicy::evaluate("http://169.254.9.9/"), NavigationDecision::Reject);
    assert_eq!(NavigationPolicy::evaluate("http://0.0.0.0/"), NavigationDecision::Reject);
    assert_eq!(
        NavigationPolicy::evaluate("http://172.32.0.1/"),
        NavigationDecision::OpenExternally
    );
}

#[test]
fn host_matching_is_case_insensitive_and_suffix_exact() {
    assert_eq!(NavigationPolicy::evaluate("HTTPS://WEB.WhatsApp.COM/"), NavigationDecision::Allow);
    assert_eq!(
        NavigationPolicy::evaluate("https://evilwhatsapp.com/"),
        NavigationDecision::OpenExternally
    );
    assert_eq!(NavigationPolicy::evaluate("https://static.fbcdn.net/x"), NavigationDecision::Allow);
    assert_eq!(NavigationPolicy::evaluate("about:blank"), NavigationDecision::Allow);
}

#[test]
fn unparsable_and_odd_schemes_are_rejected() {
    assert_eq!(NavigationPolicy::evaluate("not a url"), NavigationDecision::Reject);
    assert_eq!(NavigationPolicy::evaluate("mailto:a@b.c"), NavigationDecision::Reject);
    assert_eq!(NavigationPolicy::evaluate("ftp://example.com/"), NavigationDecision::Reject);
    assert_eq!(NavigationPolicy::evaluate("data:text/html,hi"), NavigationDecision::Reject);
}

fn ip(octets: &[u8]) -> UrlHost {
    UrlHost::Ip(octets.to_vec())
}

#[test]
fn decide_host_covers_ip_ranges() {
    let mut fd00 = vec![0u8; 16];
    fd00[0] = 0xfd;
    fd00[15] = 1;
    assert_eq!(NavigationPolicy::decide_host(&ip(&fd00)), NavigationDecision::Reject);
    let mut fe80 = vec![0u8; 16];
    fe80[0] = 0xfe;
    fe80[1] = 0x80;
    fe80[15] = 1;
    assert_eq!(NavigationPolicy::decide_host(&ip(&fe80)), NavigationDecision::Reject);
    let mut loopback = vec![0u8; 16];
    loopback[15] = 1;
    assert_eq!(NavigationPolicy::decide_host(&ip(&loopback)), NavigationDecision::Reject);
    let mut mapped = vec![0u8; 16];
    mapped[10] = 0xff;
    mapped[11] = 0xff;
    mapped[12..].copy_from_slice(&[127, 0, 0, 1]);
    assert_eq!(NavigationPolicy::decide_host(&ip(&mapped)), NavigationDecision::Reject);
    mapped[12..].copy_from_slice(&[8, 8, 8, 8]);
    assert_eq!(NavigationPolicy::decide_host(&ip(&mapped)), NavigationDecision::OpenExternally);
    let doc = [0x20, 0x01, 0x0d, 0xb8, 0, 0, 0, 0, 0, 0, 0, 0, 0, 0, 0, 1];
    assert_eq!(NavigationPolicy::decide_host(&ip(&doc)), NavigationDecision::OpenExternally);
    assert_eq!(NavigationPolicy::decide_host(&ip(&[8, 8, 8, 8])), NavigationDecision::OpenExternally);
    assert_eq!(NavigationPolicy::decide_host(&ip(&[192, 168, 1, 1])), NavigationDecision::Reject);
    assert_eq!(
        NavigationPolicy::decide_host(&UrlHost::Domain("LocalHost".to_string())),
        NavigationDecision::Reject
    );
    assert_eq!(
        NavigationPolicy::decide_host(&UrlHost::Domain("whatsapp.net".to_string())),
        NavigationDecision::Allow
    );
}

#[test]
fn ipv6_local_addresses_are_rejected() {
    for url in [
        "http://[::1]/",
        "http://[::]/",
        "http://[fd00::1]/",
        "http://[fe80::1]/",
        "http://[::ffff:127.0.0.1]/",
        "https://[::ffff:192.168.0.10]:8443/admin",
    ] {
        assert_eq!(NavigationPolicy::evaluate(url), NavigationDecision::Reject, "{}", url);
    }
    assert_eq!(
        NavigationPolicy::evaluate("http://[2001:db8::1]/"),
        NavigationDecision::OpenExternally
    );
    assert_eq!(
        NavigationPolicy::evaluate("http://[::ffff:8.8.8.8]/"),
        NavigationDecision::OpenExternally
    );
}

#[test]
fn ipv4_hosts_are_parsed_as_addresses() {
    assert_eq!(NavigationPolicy::evaluate("http://127.1/"), NavigationDecision::Reject);
    assert_eq!(NavigationPolicy::evaluate("http://0x7f000001/"), NavigationDecision::Reject);
    assert_eq!(NavigationPolicy::evaluate("http://10.0.0.5:8080/"), NavigationDecision::Reject);
    assert_eq!(NavigationPolicy::evaluate("http://LOCALHOST/"), NavigationDecision::Reject);
}
