use notifier::routing::{queue_name, routing_key, topic_matches};
use notifier::topology::{ExchangeKind, Topology, TopologyError};

fn kinds(names: &[&str]) -> Vec<String> {
    names.iter().map(|s| s.to_string()).collect()
}

#[test]
fn routing_key_joins_org_and_kind() {
    assert_eq!(routing_key("org-1", "email"), "org-1.email");
    assert_eq!(queue_name("organization-1", "sms"), "organization-1.sms");
}

#[test]
fn exact_pattern_matches_only_its_key() {
    assert!(topic_matches("org-1.email", "org-1.email"));
    assert!(!topic_matches("org-2.email", "org-1.email"));
    assert!(!topic_matches("org-1.email", "org-1.sms"));
    assert!(!topic_matches("org-1.email", "org-1.email.extra"));
}

#[test]
fn star_matches_exactly_one_word() {
    assert!(topic_matches("org-1.*", "org-1.email"));
    assert!(!topic_matches("org-1.*", "org-1"));
    assert!(!topic_matches("org-1.*", "org-1.email.welcome"));
    assert!(!topic_matches("*", "a.b"));
}

#[test]
fn hash_matches_any_number_of_words() {
    assert!(topic_matches("#", "org-1.email"));
    assert!(topic_matches("org-1.#", "org-1"));
    assert!(topic_matches("org-1.#", "org-1.email.welcome"));
    assert!(!topic_matches("org-1.#", "org-2.email"));
    assert!(topic_matches("#.email", "org-1.email"));
}

#[test]
fn ensure_topology_declares_queues_and_bindings() {
    let mut t = Topology::new();
    assert_eq!(t.ensure_topology("notifications", "org-1", &kinds(&["email", "sms", "push"])), Ok(()));
    assert_eq!(t.exchanges.len(), 1);
    assert_eq!(t.exchanges[0].kind, ExchangeKind::Topic);
    assert!(t.exchanges[0].durable);
    let names: Vec<&str> = t.queues.iter().map(|q| q.name.as_str()).collect();
    assert_eq!(names, vec!["org-1.email", "org-1.sms", "org-1.push"]);
    assert!(t.queues.iter().all(|q| q.durable));
    assert_eq!(t.bindings.len(), 3);
    assert_eq!(t.bindings[0].exchange, "notifications");
    assert_eq!(t.bindings[0].queue, "org-1.email");
    assert_eq!(t.bindings[0].pattern, "org-1.email");
}

#[test]
fn ensure_topology_twice_changes_nothing() {
    let mut t = Topology::new();
    let k = kinds(&["email", "sms"]);
    assert_eq!(t.ensure_topology("notifications", "org-1", &k), Ok(()));
    let queues: Vec<String> = t.queues.iter().map(|q| q.name.clone()).collect();
    let patterns: Vec<String> = t.bindings.iter().map(|b| b.pattern.clone()).collect();
    assert_eq!(t.ensure_topology("notifications", "org-1", &k), Ok(()));
    let queues2: Vec<String> = t.queues.iter().map(|q| q.name.clone()).collect();
    let patterns2: Vec<String> = t.bindings.iter().map(|b| b.pattern.clone()).collect();
    assert_eq!(queues, queues2);
    assert_eq!(patterns, patterns2);
    assert_eq!(t.exchanges.len(), 1);
}

#[test]
fn redeclaring_with_other_parameters_is_refused() {
    let mut t = Topology::new();
    assert_eq!(t.ensure_topology("notifications", "org-1", &kinds(&["email"])), Ok(()));
    assert_eq!(t.declare_exchange("notifications", ExchangeKind::Direct, true), Err(TopologyError::ExchangeMismatch));
    assert_eq!(t.declare_queue("org-1.email", false), Err(TopologyError::QueueMismatch));
    assert_eq!(t.declare_queue("org-1.email", true), Ok(()));
    assert_eq!(t.queues.len(), 1);
}

#[test]
fn ensure_topology_fails_on_a_conflicting_exchange() {
    let mut t = Topology::new();
    assert_eq!(t.declare_exchange("notifications", ExchangeKind::Fanout, true), Ok(()));
    assert_eq!(
        t.ensure_topology("notifications", "org-1", &kinds(&["email"])),
        Err(TopologyError::ExchangeMismatch)
    );
}

#[test]
fn message_reaches_only_its_organizations_queue() {
    let mut t = Topology::new();
    assert_eq!(t.ensure_topology("notifications", "org-1", &kinds(&["email"])), Ok(()));
    assert_eq!(t.ensure_topology("notifications", "org-2", &kinds(&["email"])), Ok(()));
    assert_eq!(t.route("notifications", "org-1.email"), vec!["org-1.email".to_string()]);
    assert_eq!(t.route("notifications", "org-2.email"), vec!["org-2.email".to_string()]);
    assert!(t.route("notifications", "org-3.email").is_empty());
    assert!(t.route("other", "org-1.email").is_empty());
}

#[test]
fn wildcard_binding_receives_sub_routed_messages() {
    let mut t = Topology::new();
    assert_eq!(t.declare_exchange("notifications", ExchangeKind::Topic, true), Ok(()));
    assert_eq!(t.declare_queue("org-1.all", true), Ok(()));
    t.bind_queue("notifications", "org-1.all", "org-1.#");
    t.bind_queue("notifications", "org-1.all", "org-1.#");
    assert_eq!(t.bindings.len(), 1);
    assert_eq!(t.route("notifications", "org-1.email.welcome"), vec!["org-1.all".to_string()]);
}

#[test]
fn queue_bound_twice_is_listed_once() {
    let mut t = Topology::new();
    assert_eq!(t.declare_queue("org-1.all", true), Ok(()));
    t.bind_queue("notifications", "org-1.all", "org-1.#");
    t.bind_queue("notifications", "org-1.all", "org-1.email");
    assert_eq!(t.bindings.len(), 2);
    assert_eq!(t.route("notifications", "org-1.email"), vec!["org-1.all".to_string()]);
}

#[test]
fn failed_ensure_keeps_the_kinds_before_the_refused_one() {
    let mut t = Topology::new();
    assert_eq!(t.declare_queue("org-1.sms", false), Ok(()));
    assert_eq!(
        t.ensure_topology("notifications", "org-1", &kinds(&["email", "sms", "push"])),
        Err(TopologyError::QueueMismatch)
    );
    let names: Vec<&str> = t.queues.iter().map(|q| q.name.as_str()).collect();
    assert_eq!(names, vec!["org-1.sms", "org-1.email"]);
    assert_eq!(t.bindings.len(), 1);
    assert_eq!(t.bindings[0].queue, "org-1.email");
}

#[test]
fn transient_exchange_conflicts_with_the_durable_one() {
    let mut t = Topology::new();
    assert_eq!(t.declare_exchange("notifications", ExchangeKind::Topic, false), Ok(()));
    assert_eq!(
        t.ensure_topology("notifications", "org-1", &kinds(&["email"])),
        Err(TopologyError::ExchangeMismatch)
    );
    assert!(t.queues.is_empty());
    assert_eq!(t.declare_exchange("notifications", ExchangeKind::Topic, false), Ok(()));
    assert_eq!(t.exchanges.len(), 1);
}
