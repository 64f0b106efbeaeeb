use hc_web_leptos::json::{compact_json, make_array, Json};
use hc_web_leptos::rule_kinds::{
    action_category, action_category_list, action_variant_key, category_click, category_default,
    condition_variant_key, default_action_kind, default_condition_kind, default_trigger_kind, trigger_variant_key,
    ActionKind, ConditionKind,
};
use hc_web_leptos::rules::{
    add_cloned_rule, add_tag_filter, after_group_deleted, can_create_group, enabled_body, filtered_rules,
    group_count_text, insert_sorted, load_prefs, remove_rule, rule_name, rules_heading, save_prefs, select_group,
    set_rule_enabled, sort_key_from_str, sort_key_to_str, sort_options, sort_rules_default, stale_heading, tag_options,
    toggle_selected, trigger_category, trigger_label, trigger_tone, trigger_type, RuleFilter, RuleRow, RuleSortKey,
    RulesPrefs, TriggerKind,
};

fn rule(id: &str, name: &str, enabled: bool, priority: i32, tags: &[&str], trigger: TriggerKind) -> RuleRow {
    RuleRow {
        id: id.to_string(),
        name: name.to_string(),
        enabled,
        priority,
        error: None,
        tags: tags.iter().map(|t| t.to_string()).collect(),
        trigger,
    }
}

fn ids(v: &Vec<RuleRow>) -> Vec<String> {
    v.iter().map(|r| r.id.clone()).collect()
}

fn no_filter() -> RuleFilter {
    RuleFilter { search: String::new(), status: vec![], trigger: vec![], tags: vec![], group: None }
}

fn sample() -> Vec<RuleRow> {
    vec![
        rule("r1", "Porch light", true, 0, &["outdoor", "lights"], TriggerKind::SunEvent),
        rule("r2", "alarm", false, 5, &["security"], TriggerKind::DeviceStateChanged),
        rule("r3", "Battery check", true, 5, &[], TriggerKind::DeviceBatteryLow),
        rule("r4", "Manual scene", true, -1, &["lights"], TriggerKind::ManualTrigger),
    ]
}

#[test]
fn trigger_presentation() {
    assert_eq!(trigger_type(TriggerKind::Cron), "cron");
    assert_eq!(trigger_label("device_state_changed"), "Device State");
    assert_eq!(trigger_tone("device_state_changed"), "tone-good");
    assert_eq!(trigger_category("device_battery_low"), "device");
    assert_eq!(trigger_category("sun_event"), "time");
    assert_eq!(trigger_category("manual_trigger"), "manual");
    assert_eq!(trigger_category("bogus"), "other");
}

#[test]
fn rules_arrive_by_priority_then_name() {
    let sorted = sort_rules_default(sample());
    assert_eq!(ids(&sorted), vec!["r2", "r3", "r1", "r4"]);
    assert_eq!(rule_name(&rule("x", "", true, 0, &[], TriggerKind::Cron)), "(unnamed)");
    assert_eq!(rule_name(&rule("x", "Named", true, 0, &[], TriggerKind::Cron)), "Named");
}

#[test]
fn filters_combine() {
    let rules = sample();
    let mut f = no_filter();
    f.search = "LIGHT".to_string();
    assert_eq!(ids(&filtered_rules(&rules, &f, RuleSortKey::Name, false)), vec!["r4", "r1"]);
    let mut f = no_filter();
    f.status = vec!["disabled".to_string()];
    assert_eq!(ids(&filtered_rules(&rules, &f, RuleSortKey::Name, false)), vec!["r2"]);
    let mut f = no_filter();
    f.trigger = vec!["device".to_string()];
    assert_eq!(ids(&filtered_rules(&rules, &f, RuleSortKey::Priority, false)), vec!["r2", "r3"]);
    let mut f = no_filter();
    f.tags = vec!["lights".to_string()];
    assert_eq!(ids(&filtered_rules(&rules, &f, RuleSortKey::Priority, true)), vec!["r4", "r1"]);
    let mut f = no_filter();
    f.group = Some(vec!["r3".to_string(), "r1".to_string()]);
    assert_eq!(ids(&filtered_rules(&rules, &f, RuleSortKey::Name, false)), vec!["r3", "r1"]);
    assert_eq!(ids(&filtered_rules(&rules, &no_filter(), RuleSortKey::Name, false)), vec!["r2", "r3", "r4", "r1"]);
    assert_eq!(rules_heading(2, 4), "2 / 4 rules");
    assert_eq!(rules_heading(4, 4), "4 rules");
}

#[test]
fn tag_options_are_sorted_and_distinct() {
    assert_eq!(tag_options(&sample()), vec!["lights", "outdoor", "security"]);
    let mut list = vec!["b".to_string(), "d".to_string()];
    insert_sorted(&mut list, &"c".to_string());
    insert_sorted(&mut list, &"b".to_string());
    insert_sorted(&mut list, &"a".to_string());
    assert_eq!(list, vec!["a", "b", "c", "d"]);
}

#[test]
fn list_edits() {
    let mut rules = sample();
    set_rule_enabled(&mut rules, "r2", true);
    assert!(rules[1].enabled);
    set_rule_enabled(&mut rules, "nope", false);
    assert_eq!(rules.len(), 4);
    remove_rule(&mut rules, "r1");
    assert_eq!(ids(&rules), vec!["r2", "r3", "r4"]);
    add_cloned_rule(&mut rules, rule("r9", "copy", false, 0, &[], TriggerKind::Cron));
    assert_eq!(ids(&rules)[0], "r9");
    assert_eq!(compact_json(&enabled_body(false)), "{\"enabled\":false}");
    let mut sel = vec![];
    add_tag_filter(&mut sel, "x");
    add_tag_filter(&mut sel, "x");
    assert_eq!(sel, vec!["x".to_string()]);
    let mut chosen = vec!["a".to_string()];
    toggle_selected(&mut chosen, "b", true);
    toggle_selected(&mut chosen, "a", false);
    assert_eq!(chosen, vec!["b".to_string()]);
    assert_eq!(stale_heading(3), " 3 rule(s) reference deleted devices:");
}

#[test]
fn groups() {
    assert_eq!(group_count_text(0), "");
    assert_eq!(group_count_text(4), "(4)");
    assert_eq!(select_group(&Some("g1".to_string()), "g1"), None);
    assert_eq!(select_group(&Some("g1".to_string()), "g2"), Some("g2".to_string()));
    assert_eq!(select_group(&None, "g2"), Some("g2".to_string()));
    assert_eq!(after_group_deleted(&Some("g1".to_string()), "g1"), None);
    assert_eq!(after_group_deleted(&Some("g1".to_string()), "g2"), Some("g1".to_string()));
    assert!(can_create_group(false, " x "));
    assert!(!can_create_group(false, "  "));
    assert!(!can_create_group(true, "x"));
}

#[test]
fn preferences_roundtrip() {
    let p = RulesPrefs {
        search: "porch".to_string(),
        status: vec!["active".to_string()],
        trigger: vec!["time".to_string(), "device".to_string()],
        tags: vec![],
        sort: RuleSortKey::Priority,
        desc: true,
    };
    let saved = save_prefs(&p);
    assert_eq!(
        compact_json(&saved),
        "{\"search\":\"porch\",\"sort\":\"priority\",\"sort_dir\":\"desc\",\"status\":[\"active\"],\"tags\":[],\"trigger\":[\"time\",\"device\"]}"
    );
    let back = load_prefs(&saved);
    assert_eq!(back.search, p.search);
    assert_eq!(back.status, p.status);
    assert_eq!(back.trigger, p.trigger);
    assert_eq!(back.tags, p.tags);
    assert_eq!(back.sort, RuleSortKey::Priority);
    assert!(back.desc);
    let empty = load_prefs(&Json::Object(vec![("tags".to_string(), make_array(vec![]))]));
    assert_eq!(empty.sort, RuleSortKey::Name);
    assert!(!empty.desc);
    assert_eq!(sort_key_from_str(Some(sort_key_to_str(RuleSortKey::Priority))), RuleSortKey::Priority);
    assert_eq!(sort_key_from_str(Some("zzz")), RuleSortKey::Name);
    assert_eq!(sort_options()[1], ("priority".to_string(), "Priority".to_string()));
}

#[test]
fn picker_keys_roundtrip() {
    for k in [TriggerKind::Cron, TriggerKind::ManualTrigger, TriggerKind::DeviceBatteryRecovered, TriggerKind::SunEvent] {
        assert_eq!(default_trigger_kind(trigger_variant_key(k)), k);
    }
    assert_eq!(default_trigger_kind("no_such_trigger"), TriggerKind::ManualTrigger);
    for k in [ConditionKind::Xor, ConditionKind::DeviceState, ConditionKind::CalendarActive] {
        assert_eq!(default_condition_kind(condition_variant_key(k)), k);
    }
    assert_eq!(default_condition_kind("nope"), ConditionKind::DeviceState);
    for k in [ActionKind::PingHost, ActionKind::SetMode, ActionKind::Comment, ActionKind::RepeatWhile] {
        assert_eq!(default_action_kind(action_variant_key(k)), k);
    }
    assert_eq!(default_action_kind(action_variant_key(ActionKind::DelayPerMode)), ActionKind::LogMessage);
    assert_eq!(default_action_kind("nope"), ActionKind::LogMessage);
}

#[test]
fn action_categories_start_their_own_kind() {
    let cats = action_category_list();
    assert_eq!(cats.len(), 8);
    assert_eq!(cats[0], ("device", "Control device", "devices"));
    for (cat, _, _) in &cats {
        assert_eq!(action_category(default_action_kind(category_default(cat))), *cat);
    }
    assert_eq!(category_click(ActionKind::Delay, "timing"), None);
    assert_eq!(category_click(ActionKind::Delay, "device"), Some(ActionKind::SetDeviceState));
    assert_eq!(category_click(ActionKind::Delay, "more"), Some(ActionKind::LogMessage));
}
