use std::collections::BTreeMap;
use fro::runtime_settings::{
    after_clear, after_save, can_save, category_name, checkbox_value, control_for, env_display,
    format_category, group_by_category, initial_value, is_dirty, matches_truthy, runtime_page_step,
    source_badge_class, source_label, unregistered, ControlKind, RowUpdate, RuntimePageAction,
    RuntimePageEvent, RuntimePageState, RuntimeSettingEntry, SettingKind, SettingSource,
};

fn entry(key: &str, category: Option<&str>, registered: bool) -> RuntimeSettingEntry {
    RuntimeSettingEntry {
        key: key.to_string(),
        category: category.map(|c| c.to_string()),
        description: None,
        kind: None,
        source: SettingSource::Default,
        override_value: None,
        effective: None,
        env_value: None,
        restart_required: false,
        registered,
    }
}

#[test]
fn grouping_sorts_categories_and_keeps_row_order() {
    let entries = vec![
        entry("B_KEY", Some("search"), true),
        entry("A_KEY", Some("chunker"), true),
        entry("NO_CAT", None, true),
        entry("GONE", Some("chunker"), false),
        entry("C_KEY", Some("chunker"), true),
        entry("Z_KEY", Some("Upper"), true),
    ];
    let groups = group_by_category(&entries);
    let cats: Vec<&str> = groups.iter().map(|g| g.category.as_str()).collect();
    assert_eq!(cats, vec!["Upper", "chunker", "other", "search"]);
    let chunker: Vec<&str> = groups[1].entries.iter().map(|e| e.key.as_str()).collect();
    assert_eq!(chunker, vec!["A_KEY", "C_KEY"]);
    assert_eq!(groups[2].entries[0].key, "NO_CAT");
    assert!(groups.iter().all(|g| g.entries.iter().all(|e| e.registered)));
    let total: usize = groups.iter().map(|g| g.entries.len()).sum();
    assert_eq!(total, 5);
}

#[test]
fn grouping_matches_a_btree_map() {

    let entries = vec![
        entry("k1", Some("é-accent"), true),
        entry("k2", Some("e"), true),
        entry("k3", Some("ab"), true),
        entry("k4", Some("a"), true),
        entry("k5", Some("ab"), true),
        entry("k6", Some(""), true),
    ];
    let mut expected: BTreeMap<String, Vec<String>> = BTreeMap::new();
    for e in &entries {
        let cat = e.category.clone().unwrap_or_else(|| "other".to_string());
        expected.entry(cat).or_default().push(e.key.clone());
    }
    let groups = group_by_category(&entries);
    let got: Vec<(String, Vec<String>)> = groups
        .iter()
        .map(|g| (g.category.clone(), g.entries.iter().map(|e| e.key.clone()).collect()))
        .collect();
    let want: Vec<(String, Vec<String>)> = expected.into_iter().collect();
    assert_eq!(got, want);
}

#[test]
fn grouping_of_nothing_is_empty() {
    assert!(group_by_category(&vec![]).is_empty());
    assert!(group_by_category(&vec![entry("x", None, false)]).is_empty());
}

#[test]
fn unregistered_rows_keep_their_order() {
    let entries = vec![entry("a", None, false), entry("b", None, true), entry("c", None, false)];
    let keys: Vec<String> = unregistered(&entries).into_iter().map(|e| e.key).collect();
    assert_eq!(keys, vec!["a", "c"]);
}

#[test]
fn category_defaults_to_other() {
    assert_eq!(category_name(&entry("k", None, true)), "other");
    assert_eq!(category_name(&entry("k", Some("llm"), true)), "llm");
}

#[test]
fn truthy_values() {
    for v in ["true", "TRUE", " yes ", "On", "1", "\tTrue\n"] {
        assert!(matches_truthy(v), "{v}");
    }
    for v in ["false", "0", "no", "off", "", "truth", "y"] {
        assert!(!matches_truthy(v), "{v}");
    }
}

#[test]
fn category_titles() {
    assert_eq!(format_category("chunker"), "Chunker");
    assert_eq!(format_category("llm"), "Llm");
    assert_eq!(format_category(""), "");
    assert_eq!(format_category("9lives"), "9lives");
    assert_eq!(format_category("ßeta"), "SSeta");
}

#[test]
fn initial_value_prefers_override_then_effective() {
    let mut e = entry("k", None, true);
    assert_eq!(initial_value(&e), "");
    e.effective = Some("eff".into());
    assert_eq!(initial_value(&e), "eff");
    e.override_value = Some("ovr".into());
    assert_eq!(initial_value(&e), "ovr");
    assert!(!is_dirty("ovr", &e));
    assert!(is_dirty("eff", &e));
    assert!(can_save(false, "new", &e));
    assert!(!can_save(true, "new", &e));
    assert!(!can_save(false, "ovr", &e));
}

#[test]
fn source_badges() {
    assert_eq!(source_label(SettingSource::Override), "override");
    assert_eq!(source_label(SettingSource::Env), "env");
    assert_eq!(source_label(SettingSource::Default), "default");
    assert_eq!(source_label(SettingSource::Unset), "unset");
    assert_eq!(source_badge_class(SettingSource::Env), "bg-blue-900/40 text-blue-300");
    assert_eq!(source_badge_class(SettingSource::Unset), "bg-gray-800 text-gray-400");
}

#[test]
fn env_value_or_dash() {
    let mut e = entry("k", None, true);
    assert_eq!(env_display(&e), "\u{2014}");
    e.env_value = Some("42".into());
    assert_eq!(env_display(&e), "42");
}

#[test]
fn controls_by_kind() {
    assert_eq!(control_for(&Some(SettingKind::Bool)), ControlKind::Checkbox);
    assert_eq!(control_for(&Some(SettingKind::U64)), ControlKind::Number);
    assert_eq!(control_for(&Some(SettingKind::F64)), ControlKind::Number);
    assert_eq!(control_for(&Some(SettingKind::Str)), ControlKind::Text);
    assert_eq!(control_for(&None), ControlKind::Text);
    assert_eq!(
        control_for(&Some(SettingKind::Enum(vec!["a".into(), "b".into()]))),
        ControlKind::Select(vec!["a".into(), "b".into()])
    );
}

#[test]
fn checkbox_events() {
    assert_eq!(checkbox_value("true"), "true");
    assert_eq!(checkbox_value("on"), "true");
    assert_eq!(checkbox_value("false"), "false");
    assert_eq!(checkbox_value(""), "false");
    assert_eq!(checkbox_value("ON"), "false");
}

#[test]
fn save_and_clear_outcomes() {
    let u = after_save("CHUNK_SIZE", &Ok(true));
    assert_eq!(u, RowUpdate { feedback: "Saved CHUNK_SIZE".into(), row_error: None, needs_restart: true, reload: true });
    let u = after_save("K", &Ok(false));
    assert!(!u.needs_restart && u.reload);
    let u = after_save("K", &Err("bad value".into()));
    assert_eq!(u.feedback, "Failed to save K: bad value");
    assert_eq!(u.row_error.as_deref(), Some("bad value"));
    assert!(!u.reload && !u.needs_restart);
    let u = after_clear("K", true, &Ok(()));
    assert_eq!(u.feedback, "Cleared override for K");
    assert!(u.needs_restart && u.reload);
    let u = after_clear("K", true, &Err("nope".into()));
    assert_eq!(u.feedback, "Failed to clear K: nope");
    assert!(!u.needs_restart);
}

#[test]
fn page_restart_cycle() {
    let s = RuntimePageState { reload_tick: 3, restart_pending: false, restarting: false };
    let (s, a) = runtime_page_step(s, &RuntimePageEvent::RowFinished(after_save("K", &Ok(true))));
    assert_eq!(a, RuntimePageAction::Nothing);
    assert_eq!(s, RuntimePageState { reload_tick: 4, restart_pending: true, restarting: false });
    let (s, _) = runtime_page_step(s, &RuntimePageEvent::RowFinished(after_save("K", &Err("x".into()))));
    assert_eq!(s, RuntimePageState { reload_tick: 4, restart_pending: true, restarting: false });
    let (s, a) = runtime_page_step(s, &RuntimePageEvent::RestartClicked);
    assert_eq!(a, RuntimePageAction::RequestRestart);
    assert!(s.restarting && s.restart_pending);
    let (s, _) = runtime_page_step(s, &RuntimePageEvent::RestartSettled);
    assert_eq!(s, RuntimePageState { reload_tick: 5, restart_pending: false, restarting: false });
}

#[test]
fn truthy_ignores_spacing_and_ascii_case() {
    for v in ["true", "yes", "On", "1", "no", "off", "0", "maybe", ""] {
        let base = matches_truthy(v);
        assert_eq!(matches_truthy(v.trim()), base);
        assert_eq!(matches_truthy(&v.to_ascii_uppercase()), base);
        assert_eq!(matches_truthy(&format!("  {v}\t")), base);
    }
}

#[test]
fn category_title_is_idempotent() {
    for c in ["chunker", "Llm", "", "9lives", "a"] {
        let once = format_category(c);
        assert_eq!(format_category(&once), once);
    }
}

#[test]
fn grouping_of_joined_lists_merges_groupings() {
    let xs = vec![entry("x1", Some("b"), true), entry("x2", Some("a"), true), entry("x3", None, false)];
    let ys = vec![entry("y1", Some("a"), true), entry("y2", Some("c"), true)];
    let joined: Vec<RuntimeSettingEntry> = xs.iter().chain(ys.iter()).cloned().collect();
    let keys = |g: &fro::runtime_settings::CategoryGroup| -> Vec<String> {
        g.entries.iter().map(|e| e.key.clone()).collect()
    };
    let all = group_by_category(&joined);
    let cats: Vec<&str> = all.iter().map(|g| g.category.as_str()).collect();
    assert_eq!(cats, vec!["a", "b", "c"]);
    assert_eq!(keys(&all[0]), vec!["x2", "y1"]);
    assert_eq!(keys(&all[1]), vec!["x1"]);
    assert_eq!(keys(&all[2]), vec!["y2"]);
}
