use serpens::crt_sh::{CrtShItem, Timestamp};
use serpens::events::EventArg;
use serpens::kernel::passive_dns::ModulePassiveDNS as KernelPassiveDNS;
use serpens::logger::Level;
use serpens::modules::passive_dns::ModulePassiveDNS;
use serpens::options::{Options, PassiveDNSOptions};
use serpens::session::Session;
use std::time::{SystemTime, UNIX_EPOCH};

fn options(domain: &str, ignore_expired: bool, recent_only: bool) -> Options {
    Options {
        domain: domain.to_string(),
        passive_dns: PassiveDNSOptions {
            passive_dns_ignore_expired: ignore_expired,
            passive_dns_recent_only: recent_only,
        },
    }
}

fn now_secs() -> i64 {
    SystemTime::now().duration_since(UNIX_EPOCH).unwrap().as_secs() as i64
}

fn item(names: &str, not_before: i64, not_after: i64) -> CrtShItem {
    CrtShItem {
        name_value: names.to_string(),
        not_before: Timestamp { secs: not_before, nanos: 0 },
        not_after: Timestamp { secs: not_after, nanos: 0 },
    }
}

/// A certificate issued long ago that is still valid.
fn old_valid(names: &str) -> CrtShItem {
    let now = now_secs();
    item(names, now - 400 * 86_400, now + 400 * 86_400)
}

#[test]
fn prepare_queries_each_domain_once() {
    let mut m = ModulePassiveDNS::new();
    let agents = vec!["ua".to_string()];
    let opts = options("example.com", false, false);
    let req = m.prepare(&opts, &agents).unwrap();
    assert_eq!(req.url, "https://crt.sh/?q=example.com&output=json");
    assert_eq!(req.user_agent, "ua");
    assert!(m.has_processed("example.com".to_string()));
    assert!(m.prepare(&opts, &agents).is_none());
    assert!(m.prepare(&options("other.org", false, false), &agents).is_some());
}

#[test]
fn process_then_has_processed() {
    let mut m = ModulePassiveDNS::default();
    assert!(!m.has_processed("example.com".to_string()));
    m.process("example.com".to_string());
    assert!(m.has_processed("example.com".to_string()));
    assert!(!m.has_processed("example.org".to_string()));
}

#[test]
fn report_without_filters() {
    let m = ModulePassiveDNS::new();
    let mut s = Session::new(options("example.com", false, false));
    s.discover_subdomain("known.example.com".to_string());
    let items = vec![
        old_valid("example.com\n*.example.com\nwww.example.com"),
        old_valid("known.example.com\nwww.example.com\n*.api.example.com"),
    ];
    let out = m.report(&mut s, &items);
    let messages: Vec<&str> = out.iter().map(|l| l.message.as_str()).collect();
    assert_eq!(
        messages,
        vec![
            "Discovered 'www.example.com' as a new subdomain",
            "Discovered 'api.example.com' as a new subdomain",
        ]
    );
    for l in &out {
        assert_eq!(l.level, Level::Info);
        assert_eq!(l.source, "dns:passive");
    }
    assert!(s.has_discovered_subdomain("www.example.com".to_string()));
    assert!(s.has_discovered_subdomain("api.example.com".to_string()));
    assert!(!s.has_discovered_subdomain("example.com".to_string()));
    assert!(m.report(&mut s, &items).is_empty());
}

#[test]
fn report_marks_expired_and_recent() {
    let m = ModulePassiveDNS::new();
    let now = now_secs();
    let mut s = Session::new(options("example.com", false, false));
    let items = vec![
        item("old.example.com", now - 800 * 86_400, now - 400 * 86_400),
        item("new.example.com", now - 3600, now + 90 * 86_400),
    ];
    let out = m.report(&mut s, &items);
    let messages: Vec<&str> = out.iter().map(|l| l.message.as_str()).collect();
    assert_eq!(
        messages,
        vec![
            "Discovered 'old.example.com' as a new subdomain $[fg:red]$[effect:bold](Certificate expired, likely inactive)",
            "Discovered 'new.example.com' as a new subdomain $[fg:blue]$[effect:bold](Active since less than 24 hours)",
        ]
    );
}

#[test]
fn report_ignoring_expired() {
    let m = ModulePassiveDNS::new();
    let now = now_secs();
    let mut s = Session::new(options("example.com", true, false));
    let items = vec![
        item("old.example.com", now - 800 * 86_400, now - 400 * 86_400),
        old_valid("live.example.com"),
    ];
    let out = m.report(&mut s, &items);
    assert_eq!(out.len(), 1);
    assert_eq!(out[0].message, "Discovered 'live.example.com' as a new subdomain");
    assert!(!s.has_discovered_subdomain("old.example.com".to_string()));
}

#[test]
fn report_recent_only() {
    let m = ModulePassiveDNS::new();
    let now = now_secs();
    let mut s = Session::new(options("example.com", false, true));
    let items = vec![
        old_valid("old.example.com"),
        item("new.example.com", now - 60, now + 86_400),
        item("old.example.com", now - 120, now + 86_400),
    ];
    let out = m.report(&mut s, &items);
    let messages: Vec<&str> = out.iter().map(|l| l.message.as_str()).collect();
    assert_eq!(
        messages,
        vec![
            "Discovered 'new.example.com' as a new subdomain $[fg:blue]$[effect:bold](Active since less than 24 hours)",
            "Discovered 'old.example.com' as a new subdomain $[fg:blue]$[effect:bold](Active since less than 24 hours)",
        ]
    );
}

#[test]
fn failed_request_is_an_error() {
    let m = ModulePassiveDNS::new();
    let mut s = Session::new(options("example.com", false, false));
    let out = m.handle_response(&mut s, None);
    assert_eq!(out.len(), 1);
    assert_eq!(out[0].level, Level::Error);
    assert_eq!(out[0].source, "dns:passive");
    assert_eq!(out[0].message, "Failed performing a request to crt.sh");
    let items = vec![old_valid("a.example.com")];
    assert_eq!(m.handle_response(&mut s, Some(&items)).len(), 1);
}

#[test]
fn kernel_args_and_state() {
    let mut k = KernelPassiveDNS::new();
    assert_eq!(
        KernelPassiveDNS::new_args("example.com".to_string()),
        vec![EventArg::Owned("example.com".to_string())]
    );
    assert!(!k.has_discovered("a.example.com".to_string()));
    k.discover("a.example.com".to_string());
    assert!(k.has_discovered("a.example.com".to_string()));
    assert!(!k.has_processed("a.example.com".to_string()));
    k.process("example.com".to_string());
    assert!(k.has_processed("example.com".to_string()));
}

#[test]
fn kernel_prepare_once() {
    let mut k = KernelPassiveDNS::default();
    let args = vec![EventArg::Static("krypton.ninja")];
    assert_eq!(k.prepare(&args).unwrap(), "https://crt.sh/?q=krypton.ninja&output=json");
    assert!(k.prepare(&args).is_none());
}

#[test]
fn kernel_announces_first_names() {
    let mut k = KernelPassiveDNS::new();
    let domain = "example.com".to_string();
    let items = vec![
        old_valid("*.example.com\nwww.example.com"),
        old_valid("www.example.com\nmail.example.com"),
        old_valid("*.www.example.com"),
        old_valid("mail.example.com"),
    ];
    let out = k.handle_items(&domain, &items);
    assert_eq!(
        out,
        vec![
            vec![
                EventArg::Owned("dns:passive".to_string()),
                EventArg::Owned("Discovered 'www.example.com' as a new subdomain".to_string()),
            ],
            vec![
                EventArg::Owned("dns:passive".to_string()),
                EventArg::Owned("Discovered 'mail.example.com' as a new subdomain".to_string()),
            ],
        ]
    );
    assert!(k.has_discovered("www.example.com".to_string()));
    assert!(!k.has_discovered("example.com".to_string()));
    assert!(k.handle_items(&domain, &items).is_empty());
}

#[test]
fn kernel_failed_request() {
    let mut k = KernelPassiveDNS::new();
    let domain = "example.com".to_string();
    let err = k.handle_response(&domain, None).err().unwrap();
    assert_eq!(err.level, Level::Error);
    assert_eq!(err.message, "Failed performing a request to crt.sh");
    let items = vec![old_valid("a.example.com")];
    assert_eq!(k.handle_response(&domain, Some(&items)).ok().unwrap().len(), 1);
}

#[test]
fn prepare_after_query_needs_no_user_agents() {
    let mut m = ModulePassiveDNS::new();
    let opts = options("example.com", false, false);
    assert!(m.prepare(&opts, &vec!["ua".to_string()]).is_some());
    assert!(m.prepare(&opts, &Vec::new()).is_none());
    assert!(m.has_processed("example.com".to_string()));
}
