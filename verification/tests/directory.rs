use node_controller::io::network::{NameRequest, NameResolver, ResolverMessage, ResolverReply};
use node_controller::text_map::TextMap;
use std::sync::mpsc::channel;

fn seeded() -> NameResolver {
    let mut seed = TextMap::new();
    seed.insert("node1".to_string(), "203.0.113.10:80".to_string());
    NameResolver::start(seed)
}

#[test]
fn last_upsert_wins() {
    let mut resolver = NameResolver::start(TextMap::new());
    resolver.upsert("n".to_string(), "a1:1".to_string());
    resolver.upsert("n".to_string(), "a2:2".to_string());
    assert_eq!(resolver.lookup("n"), Some("a2:2".to_string()));
    assert_eq!(resolver.lookup("missing"), None);
}

#[test]
fn seed_entries_are_resolved() {
    let resolver = seeded();
    assert_eq!(resolver.lookup("node1"), Some("203.0.113.10:80".to_string()));
    assert_eq!(resolver.lookup("node2"), None);
    assert_eq!(resolver.lookup(""), None);
}

#[test]
fn upsert_leaves_other_names_alone() {
    let mut resolver = seeded();
    resolver.upsert("node2".to_string(), "203.0.113.11:80".to_string());
    assert_eq!(resolver.lookup("node1"), Some("203.0.113.10:80".to_string()));
    assert_eq!(resolver.lookup("node2"), Some("203.0.113.11:80".to_string()));
}

#[test]
fn messages_are_taken_in_arrival_order() {
    let mut resolver = NameResolver::start(TextMap::new());
    let (reply, answers) = channel();
    let ask = |name: &str| {
        ResolverMessage::GetAddress(NameRequest {
            name: name.to_string(),
            reply_channel: reply.clone(),
        })
    };
    assert_eq!(
        resolver.handle(ask("n")),
        ResolverReply::Answered { address: None, delivered: true }
    );
    assert_eq!(
        resolver.handle(ResolverMessage::AddAddress(("n".to_string(), "a1:1".to_string()))),
        ResolverReply::Stored
    );
    assert_eq!(
        resolver.handle(ask("n")),
        ResolverReply::Answered { address: Some("a1:1".to_string()), delivered: true }
    );
    assert_eq!(
        resolver.handle(ResolverMessage::AddAddress(("n".to_string(), "a2:2".to_string()))),
        ResolverReply::Stored
    );
    assert_eq!(
        resolver.handle(ask("n")),
        ResolverReply::Answered { address: Some("a2:2".to_string()), delivered: true }
    );
    let received: Vec<Option<String>> = answers.try_iter().collect();
    assert_eq!(received, vec![None, Some("a1:1".to_string()), Some("a2:2".to_string())]);
}

#[test]
fn abandoned_reply_channel_does_not_stop_the_resolver() {
    let mut resolver = seeded();
    let (reply, answers) = channel();
    drop(answers);
    let gone = ResolverMessage::GetAddress(NameRequest {
        name: "node1".to_string(),
        reply_channel: reply,
    });
    assert_eq!(
        resolver.handle(gone),
        ResolverReply::Answered { address: Some("203.0.113.10:80".to_string()), delivered: false }
    );
    let (reply, answers) = channel();
    let next = ResolverMessage::GetAddress(NameRequest {
        name: "node1".to_string(),
        reply_channel: reply,
    });
    resolver.handle(next);
    assert_eq!(answers.recv().unwrap(), Some("203.0.113.10:80".to_string()));
}

#[test]
fn text_map_keeps_first_arrival_order() {
    let mut map = TextMap::new();
    assert_eq!(map.len(), 0);
    map.insert("b".to_string(), "1".to_string());
    map.insert("a".to_string(), "2".to_string());
    map.insert("b".to_string(), "3".to_string());
    assert_eq!(map.len(), 2);
    assert_eq!(map.key_at(0), "b");
    assert_eq!(map.value_at(0), "3");
    assert_eq!(map.key_at(1), "a");
    assert_eq!(map.get("a"), Some("2".to_string()));
    assert_eq!(map.get("c"), None);
    assert!(map.contains_key("b"));
    assert!(!map.contains_key("B"));
}
