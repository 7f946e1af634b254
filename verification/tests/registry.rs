use easechat::clock::wall_clock_nanos;
use easechat::registry::Env;
use easechat::service::Service;

fn ids(r: &easechat::registry::Relay) -> Vec<(String, u64)> {
    let mut v: Vec<(String, u64)> = r.recipients.iter().map(|x| (x.ep_id.clone(), x.sender)).collect();
    v.sort();
    v
}

#[test]
fn new_env_is_empty() {
    let env = Env::new();
    assert_eq!(env.size_summary(), (0, 0));
}

#[test]
fn unidentified_endpoint_cannot_subscribe() {
    let mut env = Env::new();
    assert_eq!(env.ep_reg_chan("a".to_string(), "c".to_string(), 1, 0), None);
    assert_eq!(env.size_summary(), (0, 0));
}

#[test]
fn expiry_is_the_given_time_since_the_epoch() {
    let mut env = Env::new();
    env.add_ep("a".to_string(), 1);
    assert_eq!(
        env.ep_reg_chan("a".to_string(), "c/lobby".to_string(), 1548507103, 2140083600),
        Some(1_548_507_105_140_083_600)
    );
    assert_eq!(env.size_summary(), (1, 1));
    // The same fields give the same instant, whenever they are sent.
    assert_eq!(
        env.ep_reg_chan("a".to_string(), "c/lobby".to_string(), 1548507103, 2140083600),
        Some(1_548_507_105_140_083_600)
    );
}

#[test]
fn relay_reaches_other_listeners_only() {
    let mut env = Env::new();
    env.add_ep("a".to_string(), 1);
    env.add_ep("b".to_string(), 2);
    env.add_ep("c".to_string(), 3);
    env.ep_reg_chan("a".to_string(), "lobby".to_string(), 10, 0);
    env.ep_reg_chan("b".to_string(), "lobby".to_string(), 10, 0);
    env.ep_reg_chan("c".to_string(), "other".to_string(), 10, 0);
    let r = env.push_text_at("a".to_string(), "lobby".to_string(), "hi".to_string(), 5);
    assert_eq!(r.frame, "1r|1|a|5|lobby|2|hi");
    assert_eq!(ids(&r), vec![("b".to_string(), 2)]);
}

#[test]
fn relay_on_unknown_channel_reaches_nobody() {
    let mut env = Env::new();
    env.add_ep("a".to_string(), 1);
    let r = env.push_text_at("a".to_string(), "none".to_string(), "hi".to_string(), 0);
    assert!(r.recipients.is_empty());
    assert_eq!(env.size_summary(), (1, 0));
}

#[test]
fn expired_subscription_is_dropped() {
    let mut env = Env::new();
    env.add_ep("a".to_string(), 1);
    env.add_ep("b".to_string(), 2);
    env.ep_reg_chan("b".to_string(), "lobby".to_string(), 1, 0);
    // Still valid at its expiry instant.
    let r = env.push_text_at("a".to_string(), "lobby".to_string(), "x".to_string(), 1_000_000_000);
    assert_eq!(ids(&r), vec![("b".to_string(), 2)]);
    // Expired one nanosecond later.
    let r = env.push_text_at("a".to_string(), "lobby".to_string(), "x".to_string(), 1_000_000_001);
    assert!(r.recipients.is_empty());
    // Dropped: even an earlier instant no longer finds it.
    let r = env.push_text_at("a".to_string(), "lobby".to_string(), "x".to_string(), 0);
    assert!(r.recipients.is_empty());
    // The channel itself stays.
    assert_eq!(env.size_summary(), (2, 1));
}

#[test]
fn sender_is_the_one_recorded_at_subscription() {
    let mut env = Env::new();
    env.add_ep("a".to_string(), 1);
    env.add_ep("b".to_string(), 2);
    env.ep_reg_chan("b".to_string(), "lobby".to_string(), 10, 0);
    env.add_ep("b".to_string(), 9);
    let r = env.push_text_at("a".to_string(), "lobby".to_string(), "x".to_string(), 0);
    assert_eq!(ids(&r), vec![("b".to_string(), 2)]);
    env.ep_reg_chan("b".to_string(), "lobby".to_string(), 10, 0);
    let r = env.push_text_at("a".to_string(), "lobby".to_string(), "x".to_string(), 0);
    assert_eq!(ids(&r), vec![("b".to_string(), 9)]);
}

#[test]
fn remove_ep_unsubscribes_everywhere() {
    let mut env = Env::new();
    env.add_ep("a".to_string(), 1);
    env.add_ep("b".to_string(), 2);
    env.ep_reg_chan("b".to_string(), "one".to_string(), 10, 0);
    env.ep_reg_chan("b".to_string(), "two".to_string(), 10, 0);
    env.ep_reg_chan("a".to_string(), "two".to_string(), 10, 0);
    env.remove_ep("b".to_string());
    assert_eq!(env.size_summary(), (1, 2));
    let r = env.push_text_at("x".to_string(), "one".to_string(), "m".to_string(), 0);
    assert!(r.recipients.is_empty());
    let r = env.push_text_at("x".to_string(), "two".to_string(), "m".to_string(), 0);
    assert_eq!(ids(&r), vec![("a".to_string(), 1)]);
    assert_eq!(env.ep_reg_chan("b".to_string(), "one".to_string(), 10, 0), None);
}

#[test]
fn shutdown_lists_every_endpoint_and_empties() {
    let mut env = Env::new();
    env.add_ep("a".to_string(), 1);
    env.add_ep("b".to_string(), 2);
    env.add_ep("a".to_string(), 3);
    env.ep_reg_chan("a".to_string(), "c".to_string(), 10, 0);
    let mut all: Vec<(String, u64)> =
        env.broadcast_and_shutdown().iter().map(|x| (x.ep_id.clone(), x.sender)).collect();
    all.sort();
    assert_eq!(all, vec![("a".to_string(), 3), ("b".to_string(), 2)]);
    // Listing changes nothing; clearing empties.
    assert_eq!(env.size_summary(), (2, 1));
    env.clear();
    assert_eq!(env.size_summary(), (0, 0));
}

#[test]
fn relay_at_the_wall_clock() {
    assert!(wall_clock_nanos() > 1_500_000_000_000_000_000);
    let mut env = Env::new();
    env.add_ep("a".to_string(), 1);
    env.add_ep("b".to_string(), 2);
    env.add_ep("c".to_string(), 3);
    // Valid until 2096, and until one second after the epoch.
    env.ep_reg_chan("b".to_string(), "c".to_string(), 4_000_000_000, 0);
    env.ep_reg_chan("c".to_string(), "c".to_string(), 1, 0);
    let r = env.push_text("a".to_string(), "c".to_string(), "t".to_string());
    assert_eq!(ids(&r), vec![("b".to_string(), 2)]);
}

#[test]
fn service_mirrors_env() {
    let mut s = Service::new();
    assert_eq!(s.listen_channel("a".to_string(), "t".to_string(), 1, 0), None);
    s.register_client("a".to_string(), 1);
    s.register_client("b".to_string(), 2);
    assert_eq!(s.listen_channel("b".to_string(), "t".to_string(), 1, 0), Some(1_000_000_000));
    let r = s.push_message_at("a".to_string(), "t".to_string(), "hey".to_string(), 0);
    assert_eq!(r.frame, "1r|1|a|1|t|3|hey");
    assert_eq!(ids(&r), vec![("b".to_string(), 2)]);
    let r = s.push_message_at("b".to_string(), "t".to_string(), "hey".to_string(), 0);
    assert!(r.recipients.is_empty());
    s.unregister_client("b".to_string());
    let r = s.push_message_at("a".to_string(), "t".to_string(), "hey".to_string(), 0);
    assert!(r.recipients.is_empty());
    assert!(s.listen_channel("a".to_string(), "t".to_string(), 4_000_000_000, 0).is_some());
    let r = s.push_message("b".to_string(), "t".to_string(), "z".to_string());
    assert_eq!(ids(&r), vec![("a".to_string(), 1)]);
}

#[test]
fn legacy_env_add() {
    let mut env = easechat::legacy::Env::new();
    env.add_ep("a".to_string(), 1);
    env.add_ep("a".to_string(), 2);
}
