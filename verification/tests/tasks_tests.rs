use task_stack::tasks::{
    create_task, new_task, now_millis, sort_positions, state_change, timestamp_from_millis,
};

#[test]
fn new_task_fields() {
    let t = new_task("id-1".into(), "Write", Some("proj".into()), Some("workspace".into()), Some("3".into()), 1000);
    assert_eq!(t.id, "id-1");
    assert_eq!(t.title, "Write");
    assert_eq!(t.state, "active");
    assert_eq!(t.waiting_kind, None);
    assert_eq!(t.project, Some("proj".to_string()));
    assert_eq!(t.jump_type, Some("workspace".to_string()));
    assert_eq!(t.jump_value, Some("3".to_string()));
    assert_eq!(t.notes, None);
    assert_eq!(t.sort, -1000);
    assert_eq!(t.created_at, 1000);
    assert_eq!(t.updated_at, 1000);
    assert_eq!(t.completed_at, None);
}

#[test]
fn sort_key_wraps_at_min() {
    let t = new_task("x".into(), "t", None, None, None, i64::MIN);
    assert_eq!(t.sort, i64::MIN);
}

#[test]
fn newer_tasks_sort_first() {
    let old = new_task("a".into(), "old", None, None, None, 10);
    let new = new_task("b".into(), "new", None, None, None, 20);
    assert!(new.sort < old.sort);
}

#[test]
fn created_task_has_a_v4_uuid() {
    let t = create_task("Hello", None, None, None);
    let id: Vec<char> = t.id.chars().collect();
    assert_eq!(id.len(), 36);
    for (i, c) in id.iter().enumerate() {
        if [8, 13, 18, 23].contains(&i) {
            assert_eq!(*c, '-');
        } else {
            assert!(c.is_ascii_hexdigit() && !c.is_ascii_uppercase());
        }
    }
    assert_eq!(id[14], '4');
    assert!(['8', '9', 'a', 'b'].contains(&id[19]));
    assert_eq!(t.title, "Hello");
    assert_eq!(t.state, "active");
    assert_eq!(t.created_at, t.updated_at);
    assert_eq!(t.sort, -t.created_at);
    let other = create_task("Hello", None, None, None);
    assert_ne!(t.id, other.id);
}

#[test]
fn now_is_after_2020() {
    assert!(now_millis() > 1_577_836_800_000);
}

#[test]
fn timestamps_from_clock_readings() {
    assert_eq!(timestamp_from_millis(Some(5)), 5);
    assert_eq!(timestamp_from_millis(None), 0);
    assert_eq!(timestamp_from_millis(Some(1u128 << 64)), 0);
    assert_eq!(timestamp_from_millis(Some(u64::MAX as u128)), -1);
}

#[test]
fn done_sets_completion_time() {
    let c = state_change("done", Some("me".into()), 77);
    assert_eq!(c.state, "done");
    assert_eq!(c.completed_at, Some(77));
    assert_eq!(c.waiting_kind, None);
    assert_eq!(c.updated_at, 77);
}

#[test]
fn waiting_keeps_its_kind() {
    let c = state_change("waiting", Some("machine".into()), 5);
    assert_eq!(c.waiting_kind, Some("machine".to_string()));
    assert_eq!(c.completed_at, None);
}

#[test]
fn active_clears_kind_and_completion() {
    let c = state_change("active", Some("me".into()), 5);
    assert_eq!(c.waiting_kind, None);
    assert_eq!(c.completed_at, None);
}

#[test]
fn reorder_assigns_positions() {
    let ids = vec!["c".to_string(), "a".to_string(), "b".to_string()];
    assert_eq!(
        sort_positions(&ids),
        vec![("c".to_string(), 0), ("a".to_string(), 1), ("b".to_string(), 2)]
    );
    assert_eq!(sort_positions(&vec![]), vec![]);
}
