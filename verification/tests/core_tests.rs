use serpens::domains::DomainList;
use serpens::events::Type;
use serpens::user_agents::{parse_user_agents, random_user_agent, request_to};

#[test]
fn event_labels() {
    assert_eq!(Type::Log.label(), "log");
    assert_eq!(Type::Ready.label(), "ready");
    assert_eq!(Type::DiscoveredDomain.label(), "discovered:domain");
}

#[test]
fn event_labels_are_distinct() {
    let all = [Type::Log, Type::Ready, Type::DiscoveredDomain];
    for a in all {
        for b in all {
            assert_eq!(a == b, a.label() == b.label());
        }
    }
}

#[test]
fn domain_list_push_then_contains() {
    let mut l = DomainList::new();
    assert!(!l.contains(&"a.example.com".to_string()));
    l.push("a.example.com".to_string());
    assert!(l.contains(&"a.example.com".to_string()));
    assert!(!l.contains(&"b.example.com".to_string()));
    l.push("a.example.com".to_string());
    assert!(l.contains(&"a.example.com".to_string()));
    assert!(!DomainList::default().contains(&"a.example.com".to_string()));
}

#[test]
fn user_agents_parsed_line_by_line() {
    let agents = parse_user_agents("Mozilla/5.0 A\r\nMozilla/5.0 B\n");
    assert_eq!(agents, vec!["Mozilla/5.0 A".to_string(), "Mozilla/5.0 B".to_string()]);
    assert!(parse_user_agents("").is_empty());
}

#[test]
fn random_user_agent_of_one() {
    let agents = vec!["only".to_string()];
    for _ in 0..20 {
        assert_eq!(random_user_agent(&agents), "only");
    }
}

#[test]
fn random_user_agent_is_listed() {
    let agents = vec!["a".to_string(), "b".to_string(), "c".to_string()];
    for _ in 0..50 {
        let ua = random_user_agent(&agents);
        assert!(agents.contains(&ua));
    }
}

#[test]
fn request_to_https() {
    let agents = vec!["ua".to_string()];
    let r = request_to(&"www.example.com/robots.txt".to_string(), &agents);
    assert_eq!(r.url, "https://www.example.com/robots.txt");
    assert_eq!(r.user_agent, "ua");
}
