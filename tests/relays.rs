use ostia_core::config::{
    add_custom_relay, mode_from_saved, needs_initialize, restore_relay_list, saved_media_server,
    saved_media_server_action, saved_relay_list, valid_media_server_url, SavedMediaServer,
};
use ostia_core::discovery::{
    check_relay_health, health_target, localhost_fallback, HealthProbe, is_public_relay_url, merge_relay_entries, parse_relay_list, parse_relay_tag, publish_succeeded,
    publish_targets, relay_list_tags, RelayListEntry,
};
use ostia_core::health::{after_attempt, backoff_delay_secs, first_delay, is_healthy, BackoffAction, HealthMonitor, MonitorAction};
use ostia_core::relay::{mode_name, parse_mode, status_label, RelayManager, RelayMode, RelayStatus};

fn tag(parts: &[&str]) -> Vec<String> {
    parts.iter().map(|s| s.to_string()).collect()
}

fn entry(url: &str, read: bool, write: bool) -> RelayListEntry {
    RelayListEntry { url: url.to_string(), read, write }
}

#[test]
fn relay_tag_flags() {
    let e = parse_relay_tag(&tag(&["r", "wss://relay.example", "read"])).unwrap();
    assert!(e.read && !e.write);
    let e = parse_relay_tag(&tag(&["r", "wss://relay.example"])).unwrap();
    assert!(e.read && e.write);
    let e = parse_relay_tag(&tag(&["r", "wss://relay.example", "write"])).unwrap();
    assert!(!e.read && e.write);
    let e = parse_relay_tag(&tag(&["r", "wss://relay.example", "read", "write"])).unwrap();
    assert!(e.read && e.write);
    assert!(parse_relay_tag(&tag(&["e", "wss://relay.example"])).is_none());
    assert!(parse_relay_tag(&tag(&["r"])).is_none());
}

#[test]
fn private_ranges_dropped_loopback_kept() {
    assert!(parse_relay_tag(&tag(&["r", "ws://172.16.0.5:7000"])).is_none());
    assert!(parse_relay_tag(&tag(&["r", "ws://172.31.9.9"])).is_none());
    assert!(parse_relay_tag(&tag(&["r", "ws://10.0.0.7"])).is_none());
    assert!(parse_relay_tag(&tag(&["r", "ws://127.0.0.1:7777"])).is_some());
    assert!(parse_relay_tag(&tag(&["r", "ws://localhost:7777"])).is_some());
    assert!(is_public_relay_url("ws://10.0.2.2:7000"));
    assert!(is_public_relay_url("ws://192.168.1.2"));
    assert!(is_public_relay_url("ws://172.15.0.1"));
    assert!(!is_public_relay_url("ws://10.0.10.1"));
}

#[test]
fn relay_list_from_tags() {
    let tags = vec![
        tag(&["r", "wss://a.example", "read"]),
        tag(&["p", "someone"]),
        tag(&["r", "ws://172.20.1.1"]),
        tag(&["r", "wss://b.example"]),
    ];
    let list = parse_relay_list(&tags);
    assert_eq!(list.len(), 2);
    assert_eq!(list[0].url, "wss://a.example");
    assert_eq!(list[1].url, "wss://b.example");
}

#[test]
fn merged_lists_take_most_permissive() {
    let all = vec![entry("wss://a", true, false), entry("wss://b", false, true), entry("wss://a", false, true)];
    let merged = merge_relay_entries(&all);
    assert_eq!(merged.len(), 2);
    let a = merged.iter().find(|e| e.url == "wss://a").unwrap();
    assert!(a.read && a.write);
    let b = merged.iter().find(|e| e.url == "wss://b").unwrap();
    assert!(!b.read && b.write);
}

#[test]
fn published_tags() {
    let relays = vec![
        entry("wss://both", true, true),
        entry("wss://r", true, false),
        entry("wss://w", false, true),
        entry("wss://none", false, false),
        entry("ws://172.16.1.1", true, true),
    ];
    let tags = relay_list_tags(&relays);
    assert_eq!(tags, vec![tag(&["r", "wss://both"]), tag(&["r", "wss://r", "read"]), tag(&["r", "wss://w", "write"])]);
}

#[test]
fn publish_targets_with_loopback_shadow() {
    let relays = vec![entry("ws://localhost:7777", true, true), entry("wss://r", true, false), entry("wss://w", false, true)];
    let targets = publish_targets(&relays);
    assert_eq!(targets, vec!["ws://localhost:7777".to_string(), "ws://127.0.0.1:7777".to_string(), "wss://w".to_string()]);
    assert!(publish_succeeded(&vec![false, true]));
    assert!(!publish_succeeded(&vec![false, false]));
    assert!(!publish_succeeded(&Vec::new()));
}

#[test]
fn relay_manager_bookkeeping() {
    let mut m = RelayManager::new();
    assert_eq!(*m.get_mode(), RelayMode::Exclusive);
    assert!(m.get_active_relays().is_empty());
    m.add_relay("wss://a".to_string());
    m.add_relay("wss://b".to_string());
    m.add_relay("wss://a".to_string());
    assert_eq!(m.get_custom_relays(), vec!["wss://a".to_string(), "wss://b".to_string()]);
    m.remove_relay("wss://a");
    assert_eq!(m.get_custom_relays(), vec!["wss://b".to_string()]);
    m.set_mode(RelayMode::Hybrid);
    assert_eq!(m.get_active_relays(), vec!["wss://b".to_string()]);
    assert!(m.get_default_relays().is_empty());
    m.update_status("wss://b", RelayStatus::Connecting);
    m.update_status("wss://b", RelayStatus::Failed("timeout".to_string()));
    match m.get_status("wss://b") {
        Some(RelayStatus::Failed(r)) => assert_eq!(r, "timeout"),
        _ => panic!("expected a failure status"),
    }
    assert!(m.get_status("wss://zzz").is_none());
    let all = m.get_all_status();
    assert_eq!(all.len(), 1);
    assert_eq!(status_label(&all[0].1), "failed: timeout");
    assert_eq!(status_label(&RelayStatus::Connected), "connected");
}

#[test]
fn relay_modes_by_name() {
    assert_eq!(parse_mode("hybrid"), Some(RelayMode::Hybrid));
    assert_eq!(parse_mode("exclusive"), Some(RelayMode::Exclusive));
    assert_eq!(parse_mode("other"), None);
    assert_eq!(mode_name(RelayMode::Hybrid), "hybrid");
    assert_eq!(mode_from_saved("exclusive"), RelayMode::Exclusive);
    assert_eq!(mode_from_saved("garbage"), RelayMode::Hybrid);
}

#[test]
fn relay_settings_round_trip() {
    let mut m = RelayManager::new();
    assert!(add_custom_relay(&mut m, "wss://a.example".to_string()));
    assert!(!add_custom_relay(&mut m, "ws://172.16.0.1".to_string()));
    let json = saved_relay_list(&m);
    assert_eq!(json, "[\"wss://a.example\"]");
    let mut fresh = RelayManager::new();
    restore_relay_list(&mut fresh, "[\"wss://a.example\", \"ws://10.0.3.1\", \"wss://b.example\"]");
    assert_eq!(fresh.get_custom_relays(), vec!["wss://a.example".to_string(), "wss://b.example".to_string()]);
    restore_relay_list(&mut fresh, "not json");
    assert_eq!(fresh.get_custom_relays().len(), 2);
}

#[test]
fn media_server_settings() {
    assert_eq!(saved_media_server("https://media.example"), "https://media.example");
    assert_eq!(saved_media_server("http://172.16.0.9"), "");
    assert_eq!(saved_media_server_action(""), SavedMediaServer::Unset);
    assert_eq!(saved_media_server_action("https://RELAY.DAMUS.IO"), SavedMediaServer::Discard);
    assert_eq!(saved_media_server_action("http://10.0.5.5"), SavedMediaServer::Discard);
    assert_eq!(saved_media_server_action("https://media.example"), SavedMediaServer::Use);
    assert!(valid_media_server_url("https://x"));
    assert!(valid_media_server_url("http://x"));
    assert!(!valid_media_server_url("ftp://x"));
}

#[test]
fn initialize_is_idempotent_on_same_key() {
    assert!(needs_initialize(None, "nsec1a"));
    assert!(!needs_initialize(Some("nsec1a"), "nsec1a"));
    assert!(needs_initialize(Some("nsec1a"), "nsec1b"));
}

#[test]
fn backoff_schedule() {
    let delays: Vec<u64> = (1..=5).map(backoff_delay_secs).collect();
    assert_eq!(delays, vec![2, 4, 8, 16, 32]);
    assert_eq!(first_delay(), 2);
    assert_eq!(after_attempt(1, false), BackoffAction::RetryAfter(4));
    assert_eq!(after_attempt(4, false), BackoffAction::RetryAfter(32));
    assert_eq!(after_attempt(5, false), BackoffAction::GiveUp);
    assert_eq!(after_attempt(3, true), BackoffAction::Recovered);
}

#[test]
fn connectivity_threshold() {
    assert!(is_healthy(1, 2));
    assert!(is_healthy(2, 2));
    assert!(!is_healthy(1, 3));
    assert!(!is_healthy(0, 0));
    assert!(is_healthy(usize::MAX, usize::MAX));
}

#[test]
fn health_monitor_gives_up_after_three() {
    let mut m = HealthMonitor::new();
    assert_eq!(m.on_cycle(3, 1), MonitorAction::Reconnect);
    assert_eq!(m.on_cycle(3, 0), MonitorAction::Continue);
    assert_eq!(m.on_cycle(3, 2), MonitorAction::Reconnect);
    assert_eq!(m.on_cycle(3, 2), MonitorAction::Reconnect);
    assert_eq!(m.on_cycle(3, 1), MonitorAction::ReconnectAndStop);
    let mut empty = HealthMonitor::new();
    assert_eq!(empty.on_cycle(0, 0), MonitorAction::Stop);
}

#[test]
fn relay_health_classification() {
    let r = check_relay_health("   ", HealthProbe::Connected);
    assert_eq!(r.status, "invalid");
    assert!(r.reason.is_some());
    let r = check_relay_health(" wss://a ", HealthProbe::Connected);
    assert_eq!(r.url, "wss://a");
    assert_eq!(r.status, "connected");
    assert!(r.reason.is_none());
    let r = check_relay_health("wss://a", HealthProbe::NoClient);
    assert_eq!(r.status, "disconnected");
    let r = check_relay_health("wss://a", HealthProbe::InvalidAddress("bad scheme".to_string()));
    assert_eq!(r.status, "invalid");
    assert!(r.reason.unwrap().contains("bad scheme"));
    let r = check_relay_health("wss://a", HealthProbe::Unreachable);
    assert_eq!(r.status, "disconnected");
    assert_eq!(health_target("  x  "), Some("x".to_string()));
    assert_eq!(health_target(" \t"), None);
    assert_eq!(localhost_fallback("ws://localhost:7777"), Some("ws://127.0.0.1:7777".to_string()));
    assert_eq!(localhost_fallback("ws://relay.example"), None);
}
