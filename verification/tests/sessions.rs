use apollo::config::Config;
use apollo::config_manager::ConfigManager;
use apollo::directives::{DirectiveConfig, Rule};
use apollo::engine::DirectiveEngine;
use apollo::service::{
    authenticate, handshake, open_session, open_stream, process_first_report, process_status,
    Refusal, ReportOutcome, Verdict, COMMAND_ISSUED, PLACEHOLDER_CHANNEL_CAPACITY,
    STREAM_CHANNEL_CAPACITY,
};
use apollo::session::{ApolloState, AUTHENTICATED, IDLE_TIMEOUT_MS, MONITOR_PERIOD_MS};

fn s(text: &str) -> String {
    text.to_string()
}

fn fleet() -> Config {
    let mut m = ConfigManager::new(Config::new());
    m.add_plugin(s("ARC"), s("arc-key"));
    m.add_subsection("ARC", s("MED"), s("med-key"));
    m.add_entity("ARC_MED", s("DOOR01"), s("k1"));
    m.add_entity("ARC_MED", s("DOOR02"), s("k3"));
    m.add_plugin(s("SEC"), s("sec-key"));
    m.add_subsection("SEC", s("CAM"), s("cam-key"));
    m.add_entity("SEC_CAM", s("CAM03"), s("k2"));
    m.config
}

fn rule(status: &str, target: &str, json: &str) -> Rule {
    Rule {
        if_status_is: s(status),
        then_command_target: s(target),
        then_command_json: s(json),
    }
}

fn command(outcome: ReportOutcome) -> Option<(String, String)> {
    match outcome {
        ReportOutcome::Command(d) => Some((d.target, d.command_json)),
        _ => None,
    }
}

#[test]
fn constants_of_the_protocol() {
    assert_eq!(IDLE_TIMEOUT_MS, 15_000);
    assert_eq!(MONITOR_PERIOD_MS, 5_000);
    assert_eq!(PLACEHOLDER_CHANNEL_CAPACITY, 4);
    assert_eq!(STREAM_CHANNEL_CAPACITY, 32);
    assert_eq!(COMMAND_ISSUED, "CommandIssued");
    assert_eq!(AUTHENTICATED, "Authenticated");
}

#[test]
fn entity_handshake_needs_the_entity_key() {
    let config = fleet();
    assert_eq!(authenticate(&config, "ARC_MED_DOOR01", "k1"), Verdict::Accepted);
    assert_eq!(authenticate(&config, "ARC_MED_DOOR01", "k2"), Verdict::Unauthenticated);
    assert_eq!(authenticate(&config, "ARC_MED_DOOR01", "med-key"), Verdict::Unauthenticated);
    assert_eq!(authenticate(&config, "ARC_MED_DOOR01", "arc-key"), Verdict::Unauthenticated);
    assert_eq!(authenticate(&config, "ARC_MED_DOOR01", ""), Verdict::Unauthenticated);
    assert_eq!(authenticate(&config, "ARC_MED_NOPE", "k1"), Verdict::Unauthenticated);
    assert_eq!(authenticate(&config, "ARC_NOPE_DOOR01", "k1"), Verdict::Unauthenticated);
    assert_eq!(authenticate(&config, "NOPE_MED_DOOR01", "k1"), Verdict::Unauthenticated);
}

#[test]
fn plugin_handshake_needs_the_plugin_key() {
    let config = fleet();
    assert_eq!(authenticate(&config, "ARC", "arc-key"), Verdict::Accepted);
    assert_eq!(authenticate(&config, "ARC", "sec-key"), Verdict::Unauthenticated);
    assert_eq!(authenticate(&config, "NOPE", "arc-key"), Verdict::Unauthenticated);
    assert_eq!(authenticate(&config, "", ""), Verdict::Unauthenticated);
}

#[test]
fn handshake_with_two_components_is_invalid() {
    let config = fleet();
    assert_eq!(authenticate(&config, "ARC_MED", "med-key"), Verdict::InvalidArgument);
    assert_eq!(authenticate(&config, "ARC_MED", "arc-key"), Verdict::InvalidArgument);
    assert_eq!(authenticate(&config, "ARC_MED_DOOR01_X", "k1"), Verdict::InvalidArgument);
    assert_eq!(authenticate(&config, "_", ""), Verdict::InvalidArgument);
    let mut registry: ApolloState<u32> = ApolloState::new();
    assert_eq!(
        handshake(&config, &mut registry, "ARC_MED", "med-key", 0, 10),
        Err(Refusal::InvalidArgument)
    );
    assert_eq!(registry.len(), 0);
}

#[test]
fn handshake_with_two_underscores_succeeds_only_as_an_entity() {
    let config = fleet();
    assert_eq!(authenticate(&config, "ARC_MED_DOOR01", "k1"), Verdict::Accepted);
    assert_eq!(authenticate(&config, "ARC__", "arc-key"), Verdict::Unauthenticated);
    assert_eq!(authenticate(&config, "__ARC", "arc-key"), Verdict::Unauthenticated);
    assert_eq!(authenticate(&config, "ARC_MED_", "med-key"), Verdict::Unauthenticated);
}

#[test]
fn accepted_handshake_opens_a_session() {
    let config = fleet();
    let mut registry: ApolloState<u32> = ApolloState::new();
    let token = handshake(&config, &mut registry, "ARC_MED_DOOR01", "k1", 7, 100).unwrap();
    assert_eq!(token.len(), 36);
    assert_eq!(token.matches('-').count(), 4);
    assert!(registry.is_known(&token));
    assert_eq!(registry.len(), 1);
    let states = registry.snapshot();
    assert_eq!(states.len(), 1);
    assert_eq!(states[0].entity_id, "ARC_MED_DOOR01");
    assert_eq!(states[0].session_token, token);
    assert_eq!(states[0].status, "Authenticated");
    assert_eq!(states[0].last_seen, 100);
    assert_eq!(registry.find_sender("ARC_MED_DOOR01"), Some(&7));
    let other = handshake(&config, &mut registry, "ARC_MED_DOOR01", "k1", 8, 101).unwrap();
    assert_ne!(other, token);
    assert_eq!(registry.len(), 2);
}

#[test]
fn refused_handshake_opens_no_session() {
    let config = fleet();
    let mut registry: ApolloState<u32> = ApolloState::new();
    assert_eq!(
        handshake(&config, &mut registry, "ARC_MED_DOOR01", "wrong", 7, 100),
        Err(Refusal::Unauthenticated)
    );
    assert_eq!(registry.len(), 0);
    assert_eq!(registry.find_sender("ARC_MED_DOOR01"), None);
}

#[test]
fn a_token_taken_again_replaces_the_session() {
    let mut registry: ApolloState<u32> = ApolloState::new();
    open_session(&mut registry, "A_B_C", s("t1"), 1, 10);
    open_session(&mut registry, "X_Y_Z", s("t2"), 2, 11);
    open_session(&mut registry, "D_E_F", s("t1"), 3, 12);
    assert_eq!(registry.len(), 2);
    let states = registry.snapshot();
    assert_eq!(states[0].entity_id, "D_E_F");
    assert_eq!(states[0].session_token, "t1");
    assert_eq!(states[0].last_seen, 12);
    assert_eq!(states[1].entity_id, "X_Y_Z");
    assert_eq!(registry.find_sender("A_B_C"), None);
    assert_eq!(registry.find_sender("D_E_F"), Some(&3));
}

#[test]
fn stream_opens_only_on_a_known_first_token() {
    let mut registry: ApolloState<u32> = ApolloState::new();
    open_session(&mut registry, "A_B_C", s("t1"), 1, 10);
    assert_eq!(open_stream(&mut registry, None, 9), Err(Refusal::InvalidArgument));
    assert_eq!(open_stream(&mut registry, Some("nope"), 9), Err(Refusal::InvalidArgument));
    assert_eq!(registry.find_sender("A_B_C"), Some(&1));
    assert_eq!(open_stream(&mut registry, Some("t1"), 9), Ok(()));
    assert_eq!(registry.find_sender("A_B_C"), Some(&9));
    assert_eq!(registry.snapshot()[0].last_seen, 10);
}

#[test]
fn cross_plugin_dispatch() {
    let config = fleet();
    let mut engine = DirectiveEngine::new(DirectiveConfig::new());
    engine.add_and_save_rule(
        "ARC_MED_DOOR01",
        rule("Tamper", "SEC_CAM_CAM03", "{\"cmd\":\"record\"}"),
    );
    let mut registry: ApolloState<&str> = ApolloState::new();
    let door = handshake(&config, &mut registry, "ARC_MED_DOOR01", "k1", "door-4", 0).unwrap();
    let cam = handshake(&config, &mut registry, "SEC_CAM_CAM03", "k2", "cam-4", 0).unwrap();
    assert_eq!(open_stream(&mut registry, Some(&door), "door-32"), Ok(()));
    assert_eq!(open_stream(&mut registry, Some(&cam), "cam-32"), Ok(()));
    assert!(matches!(process_status(&engine, &mut registry, &door, "", 1), ReportOutcome::Recorded));
    assert!(matches!(process_status(&engine, &mut registry, &cam, "", 1), ReportOutcome::Recorded));
    let outcome = process_status(&engine, &mut registry, &door, "Tamper", 2);
    let (target, json) = command(outcome).unwrap();
    assert_eq!(target, "SEC_CAM_CAM03");
    assert_eq!(json, "{\"cmd\":\"record\"}");
    assert_eq!(registry.find_sender(&target), Some(&"cam-32"));
    let states = registry.snapshot();
    assert_eq!(states[0].status, "Tamper");
    assert_eq!(states[0].last_seen, 2);
    assert_eq!(states[1].status, "Authenticated");
    assert_eq!(states[1].last_seen, 1);
}

#[test]
fn hierarchical_fallback() {
    let config = fleet();
    let mut engine = DirectiveEngine::new(DirectiveConfig::new());
    engine.add_and_save_rule("ARC", rule("Fire", "ARC_MED_DOOR01", "{\"cmd\":\"unlock\"}"));
    let mut registry: ApolloState<&str> = ApolloState::new();
    let one = handshake(&config, &mut registry, "ARC_MED_DOOR01", "k1", "one", 0).unwrap();
    let two = handshake(&config, &mut registry, "ARC_MED_DOOR02", "k3", "two", 0).unwrap();
    assert_eq!(open_stream(&mut registry, Some(&one), "one"), Ok(()));
    assert_eq!(open_stream(&mut registry, Some(&two), "two"), Ok(()));
    let (target, json) = command(process_status(&engine, &mut registry, &two, "Fire", 5)).unwrap();
    assert_eq!(target, "ARC_MED_DOOR01");
    assert_eq!(json, "{\"cmd\":\"unlock\"}");
    assert_eq!(registry.find_sender(&target), Some(&"one"));
    assert_ne!(registry.find_sender(&target), Some(&"two"));
}

#[test]
fn report_with_an_unknown_token_ends_the_stream() {
    let mut engine = DirectiveEngine::new(DirectiveConfig::new());
    engine.add_and_save_rule("A", rule("Fire", "A_B_C", "j"));
    let mut registry: ApolloState<u32> = ApolloState::new();
    open_session(&mut registry, "A_B_C", s("t1"), 1, 10);
    assert!(matches!(
        process_status(&engine, &mut registry, "t2", "Fire", 11),
        ReportOutcome::UnknownSession
    ));
    assert!(matches!(
        process_status(&engine, &mut registry, "", "Fire", 11),
        ReportOutcome::UnknownSession
    ));
    let states = registry.snapshot();
    assert_eq!(states.len(), 1);
    assert_eq!(states[0].status, "Authenticated");
    assert_eq!(states[0].last_seen, 10);
}

#[test]
fn empty_status_keeps_the_status_and_fires_nothing() {
    let mut engine = DirectiveEngine::new(DirectiveConfig::new());
    engine.add_and_save_rule("A_B_C", rule("", "A_B_C", "j"));
    engine.add_and_save_rule("A_B_C", rule("Up", "A_B_C", "k"));
    let mut registry: ApolloState<u32> = ApolloState::new();
    open_session(&mut registry, "A_B_C", s("t1"), 1, 10);
    assert!(command(process_status(&engine, &mut registry, "t1", "Up", 11)).is_some());
    assert!(matches!(process_status(&engine, &mut registry, "t1", "", 12), ReportOutcome::Recorded));
    let states = registry.snapshot();
    assert_eq!(states[0].status, "Up");
    assert_eq!(states[0].last_seen, 12);
}

#[test]
fn plugin_level_session_reports_fire_nothing() {
    let config = fleet();
    let mut engine = DirectiveEngine::new(DirectiveConfig::new());
    engine.add_and_save_rule("ARC", rule("Fire", "SEC_CAM_CAM03", "j"));
    let mut registry: ApolloState<u32> = ApolloState::new();
    let token = handshake(&config, &mut registry, "ARC", "arc-key", 1, 0).unwrap();
    assert!(matches!(
        process_status(&engine, &mut registry, &token, "Fire", 1),
        ReportOutcome::Recorded
    ));
    assert_eq!(registry.snapshot()[0].status, "Fire");
}

#[test]
fn target_without_a_session_has_no_sender() {
    let mut registry: ApolloState<u32> = ApolloState::new();
    open_session(&mut registry, "A_B_C", s("t1"), 1, 10);
    open_session(&mut registry, "A_B_C", s("t2"), 2, 10);
    assert_eq!(registry.find_sender("A_B_C"), Some(&1));
    assert_eq!(registry.find_sender("A_B_D"), None);
    assert_eq!(registry.find_sender(""), None);
}

#[test]
fn disconnect_removes_the_session() {
    let mut registry: ApolloState<u32> = ApolloState::new();
    open_session(&mut registry, "A_B_C", s("t1"), 1, 10);
    open_session(&mut registry, "D_E_F", s("t2"), 2, 10);
    assert_eq!(registry.disconnect("t1"), Some(s("A_B_C")));
    assert_eq!(registry.disconnect("t1"), None);
    assert!(!registry.is_known("t1"));
    assert!(registry.is_known("t2"));
    assert_eq!(registry.len(), 1);
    assert_eq!(registry.find_sender("A_B_C"), None);
}

#[test]
fn idle_eviction() {
    let config = fleet();
    let engine = DirectiveEngine::new(DirectiveConfig::new());
    let mut registry: ApolloState<u32> = ApolloState::new();
    let token = handshake(&config, &mut registry, "ARC_MED_DOOR01", "k1", 1, 1_000).unwrap();
    assert_eq!(open_stream(&mut registry, Some(&token), 2), Ok(()));
    process_status(&engine, &mut registry, &token, "", 1_000);
    let mut now = 1_000;
    let mut logged: Vec<String> = Vec::new();
    while logged.is_empty() {
        now += MONITOR_PERIOD_MS;
        logged = registry.evict_idle(now);
        assert!(now <= 1_000 + 20_000);
    }
    assert_eq!(now, 21_000);
    assert_eq!(logged, vec![s("ARC_MED_DOOR01")]);
    assert_eq!(registry.len(), 0);
    assert!(!registry.is_known(&token));
}

#[test]
fn eviction_keeps_sessions_seen_within_the_timeout() {
    let mut registry: ApolloState<u32> = ApolloState::new();
    open_session(&mut registry, "OLD_A_A", s("t1"), 1, 0);
    open_session(&mut registry, "OLD_B_B", s("t3"), 3, 4_999);
    open_session(&mut registry, "EDGE_A_A", s("t2"), 2, 5_000);
    open_session(&mut registry, "NEW_A_A", s("t4"), 4, 19_000);
    let gone = registry.evict_idle(20_000);
    assert_eq!(gone, vec![s("OLD_A_A"), s("OLD_B_B")]);
    let states = registry.snapshot();
    assert_eq!(states.len(), 2);
    assert_eq!(states[0].entity_id, "EDGE_A_A");
    assert_eq!(states[1].entity_id, "NEW_A_A");
    for state in &states {
        assert!(state.last_seen <= 20_000);
        assert!(20_000 - state.last_seen <= IDLE_TIMEOUT_MS);
    }
    assert!(registry.evict_idle(20_000).is_empty());
}

#[test]
fn the_clock_never_runs_backwards() {
    let engine = DirectiveEngine::new(DirectiveConfig::new());
    let mut registry: ApolloState<u32> = ApolloState::new();
    open_session(&mut registry, "A_B_C", s("t1"), 1, 1_000);
    process_status(&engine, &mut registry, "t1", "Up", 500);
    assert_eq!(registry.snapshot()[0].last_seen, 1_000);
    process_status(&engine, &mut registry, "t1", "Up", 2_000);
    assert_eq!(registry.snapshot()[0].last_seen, 2_000);
    open_session(&mut registry, "D_E_F", s("t2"), 2, 0);
    assert_eq!(registry.snapshot()[1].last_seen, 2_000);
    assert!(registry.evict_idle(10).is_empty());
}

#[test]
fn first_report_opens_the_stream_and_records_no_status() {
    let mut engine = DirectiveEngine::new(DirectiveConfig::new());
    engine.add_and_save_rule("A_B_C", rule("Fire", "A_B_C", "j"));
    let mut registry: ApolloState<&str> = ApolloState::new();
    open_session(&mut registry, "A_B_C", s("t1"), "placeholder", 10);
    assert_eq!(open_stream(&mut registry, Some("t1"), "stream"), Ok(()));
    assert!(process_first_report(&mut registry, "t1", 20));
    let states = registry.snapshot();
    assert_eq!(states[0].status, "Authenticated");
    assert_eq!(states[0].last_seen, 20);
    assert_eq!(registry.find_sender("A_B_C"), Some(&"stream"));
    assert!(!process_first_report(&mut registry, "t2", 30));
    assert_eq!(registry.len(), 1);
    assert_eq!(registry.snapshot()[0].last_seen, 20);
    let (target, _) = command(process_status(&engine, &mut registry, "t1", "Fire", 40)).unwrap();
    assert_eq!(registry.find_sender(&target), Some(&"stream"));
}

#[test]
fn sessions_keep_their_sending_ends() {
    let engine = DirectiveEngine::new(DirectiveConfig::new());
    let mut registry: ApolloState<u32> = ApolloState::new();
    open_session(&mut registry, "A_B_C", s("t1"), 1, 0);
    open_session(&mut registry, "D_E_F", s("t2"), 2, 0);
    open_session(&mut registry, "G_H_I", s("t3"), 3, 0);
    assert_eq!(open_stream(&mut registry, Some("t2"), 20), Ok(()));
    assert_eq!(registry.find_sender("A_B_C"), Some(&1));
    assert_eq!(registry.find_sender("D_E_F"), Some(&20));
    assert_eq!(registry.find_sender("G_H_I"), Some(&3));
    process_status(&engine, &mut registry, "t1", "Up", 5);
    process_status(&engine, &mut registry, "t2", "", 6);
    assert_eq!(registry.find_sender("A_B_C"), Some(&1));
    assert_eq!(registry.find_sender("D_E_F"), Some(&20));
    assert_eq!(registry.disconnect("t1"), Some(s("A_B_C")));
    assert_eq!(registry.find_sender("D_E_F"), Some(&20));
    assert_eq!(registry.find_sender("G_H_I"), Some(&3));
    process_status(&engine, &mut registry, "t3", "Up", 20_000);
    assert_eq!(registry.evict_idle(20_000), vec![s("D_E_F")]);
    assert_eq!(registry.find_sender("D_E_F"), None);
    assert_eq!(registry.find_sender("G_H_I"), Some(&3));
}
