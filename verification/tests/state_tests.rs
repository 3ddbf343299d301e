use serde_json::Value;

use swink_agent::state::{SessionState, StateDelta};
use swink_agent::turn::flush_state_delta;

fn num(n: i64) -> Value {
    Value::from(n)
}

fn text(s: &str) -> Value {
    Value::from(s)
}

#[test]
fn delta_default_is_empty() {
    let d = StateDelta::default();
    assert!(d.is_empty());
    assert_eq!(d.len(), 0);
}

#[test]
fn delta_new_is_empty() {
    assert!(StateDelta::new().is_empty());
}

#[test]
fn delta_with_change_chains() {
    let d = StateDelta::new().with_change("a", Some(num(1))).with_change("b", None);
    assert_eq!(d.len(), 2);
    assert_eq!(d.get("a"), Some(&Some(num(1))));
    assert_eq!(d.get("b"), Some(&None));
}

#[test]
fn delta_from_changes_takes_map() {
    let d = StateDelta::from_changes(vec![("a".to_string(), Some(num(1))), ("b".to_string(), None)]);
    assert_eq!(d.len(), 2);
    assert_eq!(d.get("a"), Some(&Some(num(1))));
    assert_eq!(d.get("b"), Some(&None));
}

#[test]
fn get_raw_returns_value_ref() {
    let mut s = SessionState::new();
    s.set_raw("key", text("hello"));
    assert_eq!(s.get_raw("key"), Some(&text("hello")));
}

#[test]
fn get_missing_returns_none() {
    let s = SessionState::new();
    assert_eq!(s.get_raw("nope"), None);
}

#[test]
fn remove_existing_key() {
    let mut s = SessionState::new();
    s.set_raw("x", num(1));
    s.remove("x");
    assert!(!s.contains("x"));
    assert!(s.is_empty());
}

#[test]
fn remove_absent_key_is_noop() {
    let mut s = SessionState::new();
    s.remove("nope");
    assert!(s.delta().is_empty());
}

#[test]
fn contains_keys_len_is_empty() {
    let mut s = SessionState::new();
    assert!(s.is_empty());
    s.set_raw("a", num(1));
    s.set_raw("b", num(2));
    assert!(s.contains("a"));
    assert!(!s.contains("c"));
    assert_eq!(s.len(), 2);
    assert!(!s.is_empty());
    let keys: Vec<&str> = s.keys();
    assert!(keys.contains(&"a"));
    assert!(keys.contains(&"b"));
}

#[test]
fn clear_records_all_removals() {
    let mut s = SessionState::new();
    s.set_raw("a", num(1));
    s.set_raw("b", num(2));
    s.flush_delta();
    s.clear();
    assert!(s.is_empty());
    assert_eq!(s.delta().len(), 2);
    assert_eq!(s.delta().get("a"), Some(&None));
    assert_eq!(s.delta().get("b"), Some(&None));
}

#[test]
fn delta_set_set_last_wins() {
    let mut s = SessionState::new();
    s.set_raw("k", num(1));
    s.set_raw("k", num(2));
    assert_eq!(s.delta().get("k"), Some(&Some(num(2))));
    assert_eq!(s.delta().len(), 1);
}

#[test]
fn delta_set_remove_is_none() {
    let mut s = SessionState::new();
    s.set_raw("k", num(1));
    s.remove("k");
    assert_eq!(s.delta().get("k"), Some(&None));
}

#[test]
fn delta_remove_set_is_some() {
    let mut s = SessionState::with_data(vec![("k".to_string(), num(1))]);
    s.remove("k");
    s.set_raw("k", num(99));
    assert_eq!(s.delta().get("k"), Some(&Some(num(99))));
}

#[test]
fn flush_delta_returns_and_resets() {
    let mut s = SessionState::new();
    s.set_raw("a", num(1));
    let d = s.flush_delta();
    assert_eq!(d.len(), 1);
    assert!(s.delta().is_empty());
}

#[test]
fn flush_empty_delta_returns_empty() {
    let mut s = SessionState::new();
    let d = s.flush_delta();
    assert!(d.is_empty());
}

#[test]
fn with_data_pre_seeds_without_delta() {
    let s = SessionState::with_data(vec![("x".to_string(), num(42))]);
    assert_eq!(s.get_raw("x"), Some(&num(42)));
    assert!(s.delta().is_empty());
}

#[test]
fn apply_baseline_inserts_missing_keys_without_delta() {
    let mut s = SessionState::new();
    s.set_raw("mine", text("kept"));
    s.flush_delta();
    let baseline = SessionState::with_data(vec![
        ("mine".to_string(), text("overridden?")),
        ("extra".to_string(), text("from baseline")),
    ]);
    s.apply_baseline(&baseline);
    assert_eq!(s.get_raw("extra"), Some(&text("from baseline")));
    assert_eq!(s.get_raw("mine"), Some(&text("kept")));
    assert!(s.delta().is_empty());
}

#[test]
fn apply_baseline_into_empty_state_copies_all_keys() {
    let baseline = SessionState::with_data(vec![("a".to_string(), num(1)), ("b".to_string(), text("two"))]);
    let mut s = SessionState::new();
    s.apply_baseline(&baseline);
    assert_eq!(s.get_raw("a"), Some(&num(1)));
    assert_eq!(s.get_raw("b"), Some(&text("two")));
    assert!(s.delta().is_empty());
}

#[test]
fn with_data_later_pair_wins() {
    let s = SessionState::with_data(vec![("k".to_string(), num(1)), ("k".to_string(), num(2))]);
    assert_eq!(s.len(), 1);
    assert_eq!(s.get_raw("k"), Some(&num(2)));
}

#[test]
fn turn_flush_reports_changes_only_when_there_are_some() {
    let mut s = SessionState::new();
    assert!(flush_state_delta(&mut s).is_none());
    s.set_raw("a", num(1));
    let d = flush_state_delta(&mut s).expect("a change was recorded");
    assert_eq!(d.get("a"), Some(&Some(num(1))));
    assert!(s.delta().is_empty());
    assert_eq!(s.get_raw("a"), Some(&num(1)));
}

#[test]
fn delta_replayed_on_flushed_values_gives_current_values() {
    let mut state = SessionState::new();
    state.set_raw("keep", num(1));
    state.set_raw("drop", num(2));
    state.set_raw("change", num(3));
    let _ = state.flush_delta();
    let mut baseline = state.clone();

    state.set_raw("change", num(30));
    state.remove("drop");
    state.set_raw("new", text("n"));
    state.set_raw("new", text("m"));
    state.remove("absent");
    let delta = state.flush_delta();

    for key in delta.keys() {
        match delta.get(key) {
            Some(Some(v)) => baseline.set_raw(key, v.clone()),
            Some(None) => baseline.remove(key),
            None => unreachable!(),
        }
    }
    let mut keys: Vec<&str> = baseline.keys();
    keys.sort_unstable();
    assert_eq!(keys, vec!["change", "keep", "new"]);
    for key in ["keep", "change", "new", "drop", "absent"] {
        assert_eq!(baseline.get_raw(key), state.get_raw(key));
    }
    assert_eq!(delta.len(), 3);
}
