use aoiplate::storage::{
    count_stage, is_valid_todo_id, make_todo, mark_completed, mark_completed_at,
    mark_todo_completed, mark_todo_completed_at, new_todo_id, normalize_text,
    remove_todos_with_id, seeded_todos, seeded_todos_from, timestamp_from_millis, TodoItem,
};

fn item(id: &str, completed: bool) -> TodoItem {
    TodoItem {
        id: id.to_string(),
        text: format!("todo {id}"),
        completed,
        created_at_ms: 1,
        updated_at_ms: 1,
        completed_at_ms: None,
    }
}

const ID_A: &str = "550e8400-e29b-41d4-a716-446655440000";
const ID_B: &str = "936da01f-9abd-4d9d-80c7-02af85c822a8";

#[test]
fn normalize_collapses_whitespace() {
    assert_eq!(normalize_text("  buy \n milk\t now  "), "buy milk now");
    assert_eq!(normalize_text("a\r\nb"), "a b");
    assert_eq!(normalize_text("single"), "single");
}

#[test]
fn normalize_blank_is_empty() {
    assert_eq!(normalize_text(""), "");
    assert_eq!(normalize_text(" \n\t\r "), "");
    assert_eq!(normalize_text("\u{3000}\u{a0}"), "");
}

#[test]
fn normalize_handles_unicode_whitespace_and_text() {
    assert_eq!(normalize_text("整理\u{3000}今天"), "整理 今天");
    assert_eq!(normalize_text("x\u{2028}y\u{85}z"), "x y z");
}

#[test]
fn normalize_is_idempotent() {
    let once = normalize_text("  a   b \t c ");
    assert_eq!(normalize_text(&once), once);
}

#[test]
fn todo_ids_accept_uuid_forms() {
    assert!(is_valid_todo_id(ID_A));
    assert!(is_valid_todo_id("550E8400-E29B-41D4-A716-446655440000"));
    assert!(is_valid_todo_id("550e8400e29b41d4a716446655440000"));
    assert!(is_valid_todo_id("{550e8400-e29b-41d4-a716-446655440000}"));
    assert!(is_valid_todo_id("URN:uuid:550e8400-e29b-41d4-a716-446655440000"));
}

#[test]
fn todo_ids_reject_other_text() {
    assert!(!is_valid_todo_id(""));
    assert!(!is_valid_todo_id("not-a-uuid"));
    assert!(!is_valid_todo_id("550e8400-e29b-41d4-a716-44665544000g"));
    assert!(!is_valid_todo_id("550e8400_e29b_41d4_a716_446655440000"));
    assert!(!is_valid_todo_id(&"a".repeat(65)));
}

#[test]
fn new_ids_are_lower_case_hyphenated_and_valid() {
    let id = new_todo_id();
    assert_eq!(id.len(), 36);
    for (i, c) in id.chars().enumerate() {
        if [8, 13, 18, 23].contains(&i) {
            assert_eq!(c, '-');
        } else {
            assert!(c.is_ascii_hexdigit() && !c.is_ascii_uppercase());
        }
    }
    assert!(is_valid_todo_id(&id));
    assert_ne!(new_todo_id(), id);
}

#[test]
fn make_todo_starts_open() {
    let t = make_todo("write tests".to_string());
    assert_eq!(t.text, "write tests");
    assert!(!t.completed);
    assert_eq!(t.created_at_ms, t.updated_at_ms);
    assert_eq!(t.completed_at_ms, None);
    assert!(is_valid_todo_id(&t.id));
}

#[test]
fn mark_completed_sets_times() {
    let mut t = item(ID_A, false);
    mark_completed_at(&mut t, 42);
    assert!(t.completed);
    assert_eq!(t.completed_at_ms, Some(42));
    assert_eq!(t.updated_at_ms, 42);
    assert_eq!(t.created_at_ms, 1);
    let mut u = item(ID_B, false);
    mark_completed(&mut u);
    assert!(u.completed);
    assert_eq!(u.completed_at_ms, Some(u.updated_at_ms));
}

#[test]
fn mark_todo_completed_only_open_items() {
    let mut todos = vec![item(ID_A, false), item(ID_B, true)];
    assert!(mark_todo_completed_at(&mut todos, ID_A, 7));
    assert!(todos[0].completed);
    assert_eq!(todos[0].completed_at_ms, Some(7));
    assert!(!mark_todo_completed_at(&mut todos, ID_A, 8));
    assert_eq!(todos[0].completed_at_ms, Some(7));
    assert!(!mark_todo_completed_at(&mut todos, ID_B, 9));
    assert_eq!(todos[1].completed_at_ms, None);
    assert!(!mark_todo_completed(&mut todos, "00000000-0000-0000-0000-000000000000"));
}

#[test]
fn remove_keeps_other_items_in_order() {
    let todos = vec![item(ID_A, false), item(ID_B, false), item(ID_A, true)];
    let rest = remove_todos_with_id(todos, ID_A);
    assert_eq!(rest.len(), 1);
    assert_eq!(rest[0].id, ID_B);
}

#[test]
fn stage_counts_split_open_and_completed() {
    let todos = vec![item(ID_A, false), item(ID_B, false), item(ID_A, true), item(ID_B, false)];
    let c = count_stage(&todos, 2);
    assert_eq!(c.visible_count, 2);
    assert_eq!(c.hidden_count, 1);
    assert_eq!(c.completed_count, 1);
    let d = count_stage(&todos, 40);
    assert_eq!(d.visible_count, 3);
    assert_eq!(d.hidden_count, 0);
    assert_eq!(d.completed_count, 1);
}

#[test]
fn seeded_todos_are_a_minute_apart() {
    let seeds = seeded_todos_from(1_000_000);
    assert_eq!(seeds.len(), 10);
    assert_eq!(seeds[0].text, "整理今天最重要的三件事");
    assert_eq!(seeds[9].text, "收尾并同步当前版本说明");
    for (i, t) in seeds.iter().enumerate() {
        assert_eq!(t.created_at_ms, 1_000_000 + i as i64 * 60_000);
        assert_eq!(t.updated_at_ms, t.created_at_ms);
        assert!(!t.completed);
        assert!(is_valid_todo_id(&t.id));
    }
    let now_seeds = seeded_todos();
    assert_eq!(now_seeds.len(), 10);
    assert!(now_seeds[9].created_at_ms - now_seeds[0].created_at_ms == 9 * 60_000);
}

#[test]
fn timestamps_from_millis() {
    assert_eq!(timestamp_from_millis(None), 0);
    assert_eq!(timestamp_from_millis(Some(1_700_000_000_000)), 1_700_000_000_000);
    assert_eq!(timestamp_from_millis(Some(u128::from(u64::MAX))), -1);
}

#[test]
fn seeded_todos_at_follow_the_clock() {
    let t: i64 = 1_700_000_000_000;
    let seeds = aoiplate::storage::seeded_todos_at(t);
    assert_eq!(seeds.len(), 10);
    assert_eq!(seeds[0].text, "整理今天最重要的三件事");
    assert_eq!(seeds[9].text, "收尾并同步当前版本说明");
    for (i, s) in seeds.iter().enumerate() {
        assert_eq!(s.created_at_ms, t - 600_000 + 60_000 * i as i64);
        assert_eq!(s.updated_at_ms, s.created_at_ms);
        assert!(!s.completed);
        assert_eq!(s.completed_at_ms, None);
    }
}
