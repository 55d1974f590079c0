use apollo::config::Change;
use apollo::directives::{find_rule_in_vec, DirectiveConfig, Rule};
use apollo::engine::DirectiveEngine;

fn rule(status: &str, target: &str, json: &str) -> Rule {
    Rule {
        if_status_is: status.to_string(),
        then_command_target: target.to_string(),
        then_command_json: json.to_string(),
    }
}

fn some(target: &str, json: &str) -> Option<(String, String)> {
    Some((target.to_string(), json.to_string()))
}

#[test]
fn entity_rule_dispatches_to_its_target() {
    let mut engine = DirectiveEngine::new(DirectiveConfig::new());
    assert_eq!(
        engine.add_and_save_rule(
            "ARC_MED_DOOR01",
            rule("Tamper", "SEC_CAM_CAM03", "{\"cmd\":\"record\"}")
        ),
        Change::Added
    );
    assert_eq!(
        engine.process_report("ARC_MED_DOOR01", "Tamper"),
        some("SEC_CAM_CAM03", "{\"cmd\":\"record\"}")
    );
    assert_eq!(engine.process_report("ARC_MED_DOOR02", "Tamper"), None);
    assert_eq!(engine.process_report("ARC_MED_DOOR01", "Fire"), None);
}

#[test]
fn plugin_rule_answers_any_entity_of_the_group() {
    let mut engine = DirectiveEngine::new(DirectiveConfig::new());
    engine.add_and_save_rule("ARC", rule("Fire", "ARC_MED_DOOR01", "{\"cmd\":\"unlock\"}"));
    assert_eq!(
        engine.process_report("ARC_MED_DOOR02", "Fire"),
        some("ARC_MED_DOOR01", "{\"cmd\":\"unlock\"}")
    );
    assert_eq!(
        engine.process_report("ARC_LAB_X", "Fire"),
        some("ARC_MED_DOOR01", "{\"cmd\":\"unlock\"}")
    );
    assert_eq!(engine.process_report("SEC_MED_DOOR02", "Fire"), None);
}

#[test]
fn entity_bucket_wins_over_subsection_and_plugin() {
    let mut engine = DirectiveEngine::new(DirectiveConfig::new());
    engine.add_and_save_rule("ARC", rule("Fire", "P", "p"));
    engine.add_and_save_rule("ARC_MED", rule("Fire", "S", "s"));
    engine.add_and_save_rule("ARC_MED_DOOR01", rule("Fire", "E", "e"));
    assert_eq!(engine.process_report("ARC_MED_DOOR01", "Fire"), some("E", "e"));
    assert_eq!(engine.process_report("ARC_MED_DOOR02", "Fire"), some("S", "s"));
    assert_eq!(engine.process_report("ARC_LAB_DOOR01", "Fire"), some("P", "p"));
}

#[test]
fn first_rule_of_a_bucket_wins() {
    let mut engine = DirectiveEngine::new(DirectiveConfig::new());
    engine.add_and_save_rule("A_B_C", rule("Other", "zero", "0"));
    engine.add_and_save_rule("A_B_C", rule("Fire", "first", "1"));
    engine.add_and_save_rule("A_B_C", rule("Fire", "second", "2"));
    assert_eq!(engine.process_report("A_B_C", "Fire"), some("first", "1"));
}

#[test]
fn reporter_must_have_three_components() {
    let mut engine = DirectiveEngine::new(DirectiveConfig::new());
    engine.add_and_save_rule("ARC", rule("Fire", "T", "j"));
    assert_eq!(engine.process_report("ARC", "Fire"), None);
    assert_eq!(engine.process_report("ARC_MED", "Fire"), None);
    assert_eq!(engine.process_report("ARC_MED_D_X", "Fire"), None);
    assert_eq!(engine.process_report("", "Fire"), None);
    assert_eq!(engine.process_report("ARC__", "Fire"), some("T", "j"));
}

#[test]
fn add_creates_missing_buckets_in_order() {
    let mut engine = DirectiveEngine::new(DirectiveConfig::new());
    engine.add_and_save_rule("B_S_E", rule("x", "t", "j"));
    engine.add_and_save_rule("A_S", rule("y", "t", "j"));
    engine.add_and_save_rule("B", rule("z", "t", "j"));
    let config = engine.get_config();
    assert_eq!(config.plugins.len(), 2);
    assert_eq!(config.plugins.key_at(0), "B");
    assert_eq!(config.plugins.key_at(1), "A");
    let b = config.plugins.get("B").unwrap();
    assert_eq!(b.directives.len(), 1);
    assert_eq!(b.directives[0], rule("z", "t", "j"));
    let s = b.subsections.get("S").unwrap();
    assert!(s.directives.is_empty());
    assert_eq!(s.entities.get("E").unwrap().directives, vec![rule("x", "t", "j")]);
    let a = config.plugins.get("A").unwrap();
    assert!(a.directives.is_empty());
    assert_eq!(a.subsections.get("S").unwrap().directives, vec![rule("y", "t", "j")]);
}

#[test]
fn add_refuses_a_target_of_more_than_three_components() {
    let mut engine = DirectiveEngine::new(DirectiveConfig::new());
    assert_eq!(engine.add_and_save_rule("A_B_C_D", rule("x", "t", "j")), Change::InvalidId);
    assert_eq!(engine.add_and_save_rule("A_B_C_", rule("x", "t", "j")), Change::InvalidId);
    assert_eq!(engine.add_and_save_rule("___", rule("x", "t", "j")), Change::InvalidId);
    assert!(!Change::InvalidId.persists());
    assert!(engine.get_config().plugins.is_empty());
    assert_eq!(engine.process_report("A_B_C", "x"), None);
    assert_eq!(engine.add_and_save_rule("A_B_C", rule("x", "t", "j")), Change::Added);
    assert_eq!(engine.add_and_save_rule("A_B_C_D", rule("x", "other", "j")), Change::InvalidId);
    assert_eq!(engine.process_report("A_B_C", "x"), some("t", "j"));
    let bucket = &engine
        .get_config()
        .plugins
        .get("A")
        .unwrap()
        .subsections
        .get("B")
        .unwrap()
        .entities
        .get("C")
        .unwrap()
        .directives;
    assert_eq!(bucket.len(), 1);
}

#[test]
fn add_refuses_an_empty_target() {
    let mut engine = DirectiveEngine::new(DirectiveConfig::new());
    assert_eq!(engine.add_and_save_rule("", rule("x", "t", "j")), Change::InvalidId);
    assert!(engine.get_config().plugins.is_empty());
    assert_eq!(engine.add_and_save_rule("A", rule("x", "t", "j")), Change::Added);
    assert_eq!(engine.add_and_save_rule("", rule("x", "t", "j")), Change::InvalidId);
    assert_eq!(engine.get_config().plugins.len(), 1);
    assert_eq!(engine.get_config().plugins.key_at(0), "A");
    assert!(Change::Added.persists());
}

#[test]
fn remove_refuses_a_malformed_target() {
    let mut engine = DirectiveEngine::new(DirectiveConfig::new());
    engine.add_and_save_rule("A_B_C", rule("Fire", "t", "j"));
    assert_eq!(
        engine.remove_and_save_rule("A_B_C_D", &rule("Fire", "t", "j")),
        Change::InvalidId
    );
    assert_eq!(engine.remove_and_save_rule("", &rule("Fire", "t", "j")), Change::InvalidId);
    assert_eq!(engine.process_report("A_B_C", "Fire"), some("t", "j"));
    assert_eq!(engine.remove_and_save_rule("A_B_C", &rule("Fire", "t", "j")), Change::Removed);
    assert_eq!(engine.process_report("A_B_C", "Fire"), None);
}

#[test]
fn remove_drops_every_exact_match_and_nothing_else() {
    let mut engine = DirectiveEngine::new(DirectiveConfig::new());
    engine.add_and_save_rule("A_B_C", rule("Fire", "t", "j"));
    engine.add_and_save_rule("A_B_C", rule("Fire", "t", "other"));
    engine.add_and_save_rule("A_B_C", rule("Fire", "t", "j"));
    assert_eq!(engine.remove_and_save_rule("A_B_C", &rule("Fire", "t", "j")), Change::Removed);
    let left = &engine
        .get_config()
        .plugins
        .get("A")
        .unwrap()
        .subsections
        .get("B")
        .unwrap()
        .entities
        .get("C")
        .unwrap()
        .directives;
    assert_eq!(left, &vec![rule("Fire", "t", "other")]);
}

#[test]
fn remove_without_a_match_changes_nothing() {
    let mut engine = DirectiveEngine::new(DirectiveConfig::new());
    engine.add_and_save_rule("A_B_C", rule("Fire", "t", "j"));
    engine.add_and_save_rule("A_B", rule("Fire", "t", "j"));
    engine.add_and_save_rule("A", rule("Fire", "t", "j"));
    assert_eq!(engine.remove_and_save_rule("A_B_C", &rule("Fire", "t", "J")), Change::NotFound);
    assert_eq!(engine.remove_and_save_rule("A_B_X", &rule("Fire", "t", "j")), Change::NotFound);
    assert_eq!(engine.remove_and_save_rule("A_X", &rule("Fire", "t", "j")), Change::NotFound);
    assert_eq!(engine.remove_and_save_rule("X", &rule("Fire", "t", "j")), Change::NotFound);
    assert_eq!(engine.remove_and_save_rule("", &rule("Fire", "t", "j")), Change::InvalidId);
    assert_eq!(engine.process_report("A_B_C", "Fire"), some("t", "j"));
    let a = engine.get_config().plugins.get("A").unwrap();
    assert_eq!(a.directives.len(), 1);
    assert_eq!(a.subsections.get("B").unwrap().directives.len(), 1);
    assert_eq!(engine.get_config().plugins.len(), 1);
}

#[test]
fn remove_works_at_each_level() {
    let mut engine = DirectiveEngine::new(DirectiveConfig::new());
    engine.add_and_save_rule("A_B_C", rule("Fire", "e", "j"));
    engine.add_and_save_rule("A_B", rule("Fire", "s", "j"));
    engine.add_and_save_rule("A", rule("Fire", "p", "j"));
    assert_eq!(engine.remove_and_save_rule("A_B_C", &rule("Fire", "e", "j")), Change::Removed);
    assert_eq!(engine.process_report("A_B_C", "Fire"), some("s", "j"));
    assert_eq!(engine.remove_and_save_rule("A_B", &rule("Fire", "s", "j")), Change::Removed);
    assert_eq!(engine.process_report("A_B_C", "Fire"), some("p", "j"));
    assert_eq!(engine.remove_and_save_rule("A", &rule("Fire", "p", "j")), Change::Removed);
    assert_eq!(engine.process_report("A_B_C", "Fire"), None);
}

#[test]
fn dispatched_command_comes_from_a_rule_of_the_ancestry() {
    let mut engine = DirectiveEngine::new(DirectiveConfig::new());
    engine.add_and_save_rule("A_B_C", rule("One", "e", "1"));
    engine.add_and_save_rule("A_B", rule("Two", "s", "2"));
    engine.add_and_save_rule("A", rule("Three", "p", "3"));
    engine.add_and_save_rule("Z", rule("Four", "z", "4"));
    for status in ["One", "Two", "Three", "Four", "Five"] {
        match engine.process_report("A_B_C", status) {
            Some((target, json)) => {
                let config = engine.get_config();
                let p = config.plugins.get("A").unwrap();
                let s = p.subsections.get("B").unwrap();
                let e = s.entities.get("C").unwrap();
                let wanted = rule(status, &target, &json);
                assert!(
                    e.directives.contains(&wanted)
                        || s.directives.contains(&wanted)
                        || p.directives.contains(&wanted)
                );
            }
            None => assert!(status == "Four" || status == "Five"),
        }
    }
}

#[test]
fn find_rule_takes_the_first_with_that_status() {
    let rules = vec![rule("a", "1", ""), rule("b", "2", ""), rule("a", "3", "")];
    assert_eq!(find_rule_in_vec(&rules, "a"), Some(&rules[0]));
    assert_eq!(find_rule_in_vec(&rules, "b"), Some(&rules[1]));
    assert_eq!(find_rule_in_vec(&rules, "c"), None);
    assert_eq!(find_rule_in_vec(&[], "a"), None);
}

#[test]
fn rules_are_equal_when_all_three_fields_are() {
    assert_eq!(rule("a", "b", "c"), rule("a", "b", "c"));
    assert_ne!(rule("a", "b", "c"), rule("x", "b", "c"));
    assert_ne!(rule("a", "b", "c"), rule("a", "x", "c"));
    assert_ne!(rule("a", "b", "c"), rule("a", "b", "x"));
    assert!(rule("a", "b", "c").same_as(&rule("a", "b", "c")));
    assert!(!rule("a", "b", "c").same_as(&rule("a", "b", "")));
}
