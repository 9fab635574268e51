use serpens::events::{EventArg, Type};
use serpens::logger::Level;
use serpens::modules::enumerate_files::ModuleEnumerateFiles;
use serpens::modules::enumerate_subdomains::ModuleEnumerateSubdomains;
use serpens::modules::events_log::ModuleEventsLog;
use serpens::modules::passive_dns::ModulePassiveDNS;
use serpens::modules::ready::ModuleReady;
use serpens::modules::Module;
use serpens::options::{Options, PassiveDNSOptions};
use serpens::session::Session;

fn options(domain: &str) -> Options {
    Options {
        domain: domain.to_string(),
        passive_dns: PassiveDNSOptions { passive_dns_ignore_expired: false, passive_dns_recent_only: false },
    }
}

#[test]
fn new_session() {
    let s = Session::new(options("example.com"));
    assert_eq!(s.options().domain, "example.com");
    assert!(s.dispatch(Type::Ready).is_empty());
    assert!(!s.has_discovered_subdomain("a.example.com".to_string()));
}

#[test]
fn discovered_subdomains_are_remembered() {
    let mut s = Session::new(options("example.com"));
    s.discover_subdomain("a.example.com".to_string());
    assert!(s.has_discovered_subdomain("a.example.com".to_string()));
    assert!(!s.has_discovered_subdomain("b.example.com".to_string()));
}

#[test]
fn default_modules_answer_ready() {
    let mut s = Session::new(options("example.com"));
    let logged = s.register_default_modules();
    assert!(logged.is_empty());
    assert_eq!(s.dispatch(Type::Ready), vec![0]);
    assert!(s.dispatch(Type::Log).is_empty());
    assert!(s.dispatch(Type::DiscoveredDomain).is_empty());
}

#[test]
fn dispatch_follows_subscriptions_in_order() {
    let mut s = Session::new(options("example.com"));
    assert!(s.register_module(&ModuleReady::new()).is_none());
    assert!(s.register_module(&ModuleEnumerateFiles::new()).is_none());
    assert!(s.register_module(&ModuleEventsLog::new()).is_none());
    assert!(s.register_module(&ModulePassiveDNS::new()).is_none());
    assert!(s.register_module(&ModuleEnumerateSubdomains::new()).is_none());
    assert_eq!(s.dispatch(Type::Ready), vec![0]);
    assert_eq!(s.dispatch(Type::DiscoveredDomain), vec![1, 3, 4]);
    assert_eq!(s.dispatch(Type::Log), vec![2]);
}

#[test]
fn module_identities() {
    assert_eq!(ModuleReady::new().name(), "ready");
    assert_eq!(ModuleReady::new().subscribers(), vec![Type::Ready]);
    assert_eq!(
        ModuleReady::new().description(),
        "This module is responsible to know when Project Serpens is ready and will start to do the work"
    );
    assert_eq!(ModuleEnumerateFiles::default().name(), "enumerate:files");
    assert_eq!(ModuleEnumerateFiles::new().subscribers(), vec![Type::DiscoveredDomain]);
    assert_eq!(
        ModuleEnumerateFiles::new().description(),
        "This module will aggressively try to find files based on the given wordlist and extension"
    );
    assert_eq!(ModuleEnumerateSubdomains::default().name(), "enumerate:subdomains");
    assert_eq!(ModuleEnumerateSubdomains::new().subscribers(), vec![Type::DiscoveredDomain]);
    assert_eq!(
        ModuleEnumerateSubdomains::new().description(),
        "This module will aggressively try to find subdomains based on the given wordlist"
    );
    assert_eq!(ModuleEventsLog::default().name(), "events.log");
    assert_eq!(ModuleEventsLog::new().subscribers(), vec![Type::Log]);
    assert_eq!(ModuleEventsLog::new().description(), "This module handles the logs to perform");
    assert_eq!(ModulePassiveDNS::default().name(), "dns:passive");
    assert_eq!(ModulePassiveDNS::new().subscribers(), vec![Type::DiscoveredDomain]);
    assert_eq!(
        ModulePassiveDNS::new().description(),
        "This module will perform a passive discovery of new subdomains by using crt.sh"
    );
}

#[test]
fn ready_announcement() {
    let s = Session::new(options("example.com"));
    let l = ModuleReady::default().execute(&s);
    assert_eq!(l.level, Level::Info);
    assert_eq!(l.source, "ready");
    assert_eq!(l.message, "Project Serpens is now ready and will start doing its magic!");
}

#[test]
fn events_log_args_and_line() {
    let s = Session::new(options("example.com"));
    let args = ModuleEventsLog::new_args("dns:passive".to_string(), "hello".to_string());
    assert_eq!(
        args,
        vec![EventArg::Owned("dns:passive".to_string()), EventArg::Owned("hello".to_string())]
    );
    let l = ModuleEventsLog::new().execute(&s, &args);
    assert_eq!(l.level, Level::Info);
    assert_eq!(l.source, "dns:passive");
    assert_eq!(l.message, "hello");
}

#[test]
fn enumerate_files_targets() {
    let m = ModuleEnumerateFiles::new();
    let d = "example.com".to_string();
    assert_eq!(m.target(&d, &"admin".to_string(), &"php".to_string()), "example.com/admin.php");
    assert_eq!(m.target(&d, &"robots".to_string(), &"".to_string()), "example.com/robots");
}

#[test]
fn enumerate_files_responses() {
    let m = ModuleEnumerateFiles::new();
    let uri = "example.com/admin.php".to_string();
    let l = m.on_response(&uri, Some(200)).unwrap();
    assert_eq!(l.level, Level::Info);
    assert_eq!(l.source, "enumerate:files");
    assert_eq!(l.message, "Discovered 'example.com/admin.php' as an existing file");
    assert!(m.on_response(&uri, Some(404)).is_none());
    assert!(m.on_response(&uri, Some(201)).is_none());
    assert!(m.on_response(&uri, None).is_none());
}

#[test]
fn enumerate_subdomains_targets_and_responses() {
    let m = ModuleEnumerateSubdomains::new();
    let mut s = Session::new(options("example.com"));
    let uri = m.target(&"example.com".to_string(), &"mail".to_string());
    assert_eq!(uri, "mail.example.com");
    assert!(m.on_response(&mut s, &uri, false).is_none());
    assert!(!s.has_discovered_subdomain(uri.clone()));
    let l = m.on_response(&mut s, &uri, true).unwrap();
    assert_eq!(l.source, "enumerate:subdomains");
    assert_eq!(l.message, "Discovered 'mail.example.com' as a new subdomain");
    assert!(s.has_discovered_subdomain(uri.clone()));
    assert!(m.on_response(&mut s, &uri, true).is_none());
}

#[test]
fn wordlist_run_records_each_subdomain_once() {
    let m = ModuleEnumerateSubdomains::new();
    let mut s = Session::new(options("example.com"));
    let d = "example.com".to_string();
    let mut logged = Vec::new();
    for (word, reachable) in [("www", true), ("mail", false), ("www", true), ("mail", true), ("mail", true)] {
        let uri = m.target(&d, &word.to_string());
        if let Some(l) = m.on_response(&mut s, &uri, reachable) {
            logged.push(l.message);
        }
    }
    assert_eq!(
        logged,
        vec![
            "Discovered 'www.example.com' as a new subdomain".to_string(),
            "Discovered 'mail.example.com' as a new subdomain".to_string(),
        ]
    );
}
