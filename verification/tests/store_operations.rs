use ideanode::{
    archive_category, collapse_category, get_memo_category_and_position, insert_category,
    insert_memo, list_all, load_scope, migrate, next_position, rank_categories, rank_memos,
    read_settings, relocate_memo, remove_category, remove_memo, rewrite_category, rewrite_memo,
    touch_updated_at, touch_updated_at_with, write_background_color, CreateCategoryInput,
    CreateMemoInput, MoveMemoInput, ReorderCategoriesInput, ReorderMemosInput,
    SetBackgroundColorInput, SetCategoryArchivedInput, SetCategoryCollapsedInput, StoreError,
    UpdateCategoryInput, UpdateMemoInput,
};
use rusqlite::Connection;

fn store() -> Connection {
    let conn = Connection::open_in_memory().unwrap();
    conn.execute_batch("PRAGMA foreign_keys = ON;").unwrap();
    migrate(&conn).unwrap();
    conn
}

fn category(conn: &mut Connection, id: &str) {
    let input = CreateCategoryInput {
        emoji: Some("E".to_string()),
        title: format!("title of {id}"),
        color: "#123456".to_string(),
        is_todo: true,
    };
    insert_category(conn, &input, id, 10).unwrap();
}

fn memo(conn: &mut Connection, category_id: &str, id: &str) {
    let input = CreateMemoInput {
        category_id: category_id.to_string(),
        emoji: None,
        title: format!("title of {id}"),
        color: "#000000".to_string(),
        date_ymd: Some("2024-05-06".to_string()),
        content_md: "body".to_string(),
    };
    insert_memo(conn, &input, id, 20).unwrap();
}

fn positions(conn: &Connection, category_id: &str) -> Vec<(String, i64)> {
    let mut members =
        load_scope(conn, "memos", Some(("category_id", category_id))).unwrap().members;
    members.sort_by_key(|m| m.position);
    members.into_iter().map(|m| (m.id, m.position)).collect()
}

fn category_positions(conn: &Connection) -> Vec<(String, i64)> {
    let mut members = load_scope(conn, "categories", None).unwrap().members;
    members.sort_by_key(|m| m.position);
    members.into_iter().map(|m| (m.id, m.position)).collect()
}

fn expected(members: &[(&str, i64)]) -> Vec<(String, i64)> {
    members.iter().map(|(id, position)| (id.to_string(), *position)).collect()
}

fn updated_at(conn: &Connection, table: &str, id: &str) -> i64 {
    conn.query_row(&format!("SELECT updated_at FROM {table} WHERE id = ?1"), [id], |r| r.get(0))
        .unwrap()
}

#[test]
fn a_created_category_comes_back_as_it_was_given() {
    let mut conn = store();
    let input = CreateCategoryInput {
        emoji: Some("E".to_string()),
        title: "Work".to_string(),
        color: "#123456".to_string(),
        is_todo: true,
    };
    let created = insert_category(&mut conn, &input, "c1", 1234).unwrap();
    assert_eq!(created.id, "c1");
    assert_eq!(created.emoji, "E");
    assert_eq!(created.title, "Work");
    assert_eq!(created.color, "#123456");
    assert_eq!(created.position, 0);
    assert_eq!(created.archived, false);
    assert_eq!(created.is_todo, true);
    assert_eq!(created.is_collapsed, false);
    assert_eq!(created.created_at, 1234);
    assert_eq!(created.updated_at, 1234);
}

#[test]
fn created_categories_take_positions_in_creation_order() {
    let mut conn = store();
    for (i, id) in ["a", "b", "c", "d"].iter().enumerate() {
        let input = CreateCategoryInput {
            emoji: None,
            title: id.to_string(),
            color: String::new(),
            is_todo: false,
        };
        let created = insert_category(&mut conn, &input, id, 1).unwrap();
        assert_eq!(created.position, i as i64);
        assert_eq!(created.emoji, "");
    }
    assert!(load_scope(&conn, "categories", None).unwrap().is_dense());
}

#[test]
fn a_category_id_that_is_taken_is_a_constraint_violation() {
    let mut conn = store();
    category(&mut conn, "c1");
    let input = CreateCategoryInput {
        emoji: None,
        title: "again".to_string(),
        color: String::new(),
        is_todo: false,
    };
    let err = insert_category(&mut conn, &input, "c1", 2).unwrap_err();
    match &err {
        StoreError::Constraint { operation, .. } => assert_eq!(operation, "insert category"),
        other => panic!("unexpected error: {other:?}"),
    }
    assert!(err.message().starts_with("insert category error: "));
    assert_eq!(category_positions(&conn), expected(&[("c1", 0)]));
}

#[test]
fn a_created_memo_comes_back_as_it_was_given() {
    let mut conn = store();
    category(&mut conn, "c1");
    let input = CreateMemoInput {
        category_id: "c1".to_string(),
        emoji: Some("M".to_string()),
        title: "Note".to_string(),
        color: "#abcdef".to_string(),
        date_ymd: Some("2023-12-31".to_string()),
        content_md: "# heading".to_string(),
    };
    let created = insert_memo(&mut conn, &input, "m1", 777).unwrap();
    assert_eq!(created.id, "m1");
    assert_eq!(created.category_id, "c1");
    assert_eq!(created.emoji, "M");
    assert_eq!(created.title, "Note");
    assert_eq!(created.color, "#abcdef");
    assert_eq!(created.date_ymd, "2023-12-31");
    assert_eq!(created.content_md, "# heading");
    assert_eq!(created.todo_done, false);
    assert_eq!(created.position, 0);
    assert_eq!(created.created_at, 777);
    assert_eq!(created.updated_at, 777);
}

#[test]
fn a_memo_without_a_date_gets_the_local_date_of_its_creation() {
    let mut conn = store();
    category(&mut conn, "c1");
    let ts: i64 = 1_700_000_000_000;
    let local_date: String = conn
        .query_row("SELECT strftime('%Y-%m-%d', ?1/1000, 'unixepoch', 'localtime')", [ts], |r| {
            r.get(0)
        })
        .unwrap();
    let mut input = CreateMemoInput {
        category_id: "c1".to_string(),
        emoji: None,
        title: "Note".to_string(),
        color: String::new(),
        date_ymd: None,
        content_md: String::new(),
    };
    assert_eq!(insert_memo(&mut conn, &input, "m1", ts).unwrap().date_ymd, local_date);
    input.date_ymd = Some(String::new());
    assert_eq!(insert_memo(&mut conn, &input, "m2", ts).unwrap().date_ymd, local_date);
    assert!(local_date.starts_with("2023-11-1"));
}

#[test]
fn a_memo_of_a_category_that_does_not_exist_is_a_constraint_violation() {
    let mut conn = store();
    category(&mut conn, "c1");
    let input = CreateMemoInput {
        category_id: "c2".to_string(),
        emoji: None,
        title: "Note".to_string(),
        color: String::new(),
        date_ymd: None,
        content_md: String::new(),
    };
    let err = insert_memo(&mut conn, &input, "m1", 1).unwrap_err();
    match &err {
        StoreError::Constraint { operation, .. } => assert_eq!(operation, "insert memo"),
        other => panic!("unexpected error: {other:?}"),
    }
    assert_eq!(get_memo_category_and_position(&conn, "m1"), Ok(None));
}

#[test]
fn positions_of_memos_are_counted_by_category() {
    let mut conn = store();
    category(&mut conn, "c1");
    category(&mut conn, "c2");
    memo(&mut conn, "c1", "a");
    memo(&mut conn, "c2", "b");
    memo(&mut conn, "c1", "c");
    assert_eq!(positions(&conn, "c1"), expected(&[("a", 0), ("c", 1)]));
    assert_eq!(positions(&conn, "c2"), expected(&[("b", 0)]));
    assert_eq!(next_position(&conn, "memos", Some(("category_id", "c1"))), Ok(2));
    assert_eq!(next_position(&conn, "memos", Some(("category_id", "c2"))), Ok(1));
    assert_eq!(next_position(&conn, "memos", Some(("category_id", "c3"))), Ok(0));
    assert_eq!(next_position(&conn, "memos", None), Ok(2));
    assert_eq!(next_position(&conn, "categories", None), Ok(2));
}

#[test]
fn next_position_on_a_table_that_does_not_exist_fails() {
    let conn = store();
    let err = next_position(&conn, "nothing", None).unwrap_err();
    match &err {
        StoreError::Transaction { operation, .. } => assert_eq!(operation, "read positions"),
        other => panic!("unexpected error: {other:?}"),
    }
}

#[test]
fn get_memo_category_and_position_of_a_memo() {
    let mut conn = store();
    category(&mut conn, "c1");
    memo(&mut conn, "c1", "a");
    memo(&mut conn, "c1", "b");
    assert_eq!(get_memo_category_and_position(&conn, "b"), Ok(Some(("c1".to_string(), 1))));
    assert_eq!(get_memo_category_and_position(&conn, "zz"), Ok(None));
}

#[test]
fn rewrite_category_writes_the_three_fields_and_the_time() {
    let mut conn = store();
    category(&mut conn, "c1");
    category(&mut conn, "c2");
    let input = UpdateCategoryInput {
        id: "c2".to_string(),
        emoji: "N".to_string(),
        title: "New".to_string(),
        color: "#fff".to_string(),
    };
    let updated = rewrite_category(&conn, &input, 99).unwrap();
    assert_eq!(updated.id, "c2");
    assert_eq!(updated.emoji, "N");
    assert_eq!(updated.title, "New");
    assert_eq!(updated.color, "#fff");
    assert_eq!(updated.position, 1);
    assert_eq!(updated.is_todo, true);
    assert_eq!(updated.created_at, 10);
    assert_eq!(updated.updated_at, 99);
    assert_eq!(updated_at(&conn, "categories", "c1"), 10);
}

#[test]
fn rewrite_category_of_a_missing_category_is_not_found() {
    let conn = store();
    let input = UpdateCategoryInput {
        id: "nope".to_string(),
        emoji: String::new(),
        title: String::new(),
        color: String::new(),
    };
    let err = rewrite_category(&conn, &input, 99).unwrap_err();
    assert_eq!(err, StoreError::NotFound { what: "category".to_string() });
    assert_eq!(err.message(), "category not found");
}

#[test]
fn archive_and_collapse_set_and_clear_their_flag() {
    let mut conn = store();
    category(&mut conn, "c1");
    let archived = archive_category(
        &conn,
        &SetCategoryArchivedInput { id: "c1".to_string(), archived: true },
        30,
    )
    .unwrap();
    assert_eq!((archived.archived, archived.is_collapsed, archived.updated_at), (true, false, 30));
    let collapsed = collapse_category(
        &conn,
        &SetCategoryCollapsedInput { id: "c1".to_string(), is_collapsed: true },
        31,
    )
    .unwrap();
    assert_eq!((collapsed.archived, collapsed.is_collapsed, collapsed.updated_at), (true, true, 31));
    let restored = archive_category(
        &conn,
        &SetCategoryArchivedInput { id: "c1".to_string(), archived: false },
        32,
    )
    .unwrap();
    assert_eq!((restored.archived, restored.is_collapsed, restored.position), (false, true, 0));
    let missing = collapse_category(
        &conn,
        &SetCategoryCollapsedInput { id: "c9".to_string(), is_collapsed: true },
        33,
    );
    assert_eq!(missing, Err(StoreError::NotFound { what: "category".to_string() }));
}

#[test]
fn removing_a_category_removes_its_memos_and_closes_the_gap() {
    let mut conn = store();
    category(&mut conn, "c1");
    category(&mut conn, "c2");
    category(&mut conn, "c3");
    memo(&mut conn, "c2", "a");
    memo(&mut conn, "c2", "b");
    memo(&mut conn, "c3", "c");
    assert_eq!(remove_category(&mut conn, "c2"), Ok(()));
    assert_eq!(category_positions(&conn), expected(&[("c1", 0), ("c3", 1)]));
    assert_eq!(positions(&conn, "c2"), expected(&[]));
    assert_eq!(positions(&conn, "c3"), expected(&[("c", 0)]));
    assert_eq!(get_memo_category_and_position(&conn, "a"), Ok(None));
    assert_eq!(next_position(&conn, "categories", None), Ok(2));
    assert_eq!(updated_at(&conn, "categories", "c3"), 10);
}

#[test]
fn removing_each_category_in_turn_keeps_the_categories_dense() {
    for gone in ["a", "b", "c", "d"] {
        let mut conn = store();
        for id in ["a", "b", "c", "d"] {
            category(&mut conn, id);
        }
        assert_eq!(remove_category(&mut conn, gone), Ok(()));
        let left = category_positions(&conn);
        let survivors: Vec<&str> =
            ["a", "b", "c", "d"].into_iter().filter(|id| *id != gone).collect();
        let order: Vec<&str> = left.iter().map(|(id, _)| id.as_str()).collect();
        assert_eq!(order, survivors);
        let ranks: Vec<i64> = left.iter().map(|(_, position)| *position).collect();
        assert_eq!(ranks, vec![0, 1, 2]);
    }
}

#[test]
fn removing_a_category_that_does_not_exist_is_not_found() {
    let mut conn = store();
    category(&mut conn, "c1");
    let err = remove_category(&mut conn, "never there").unwrap_err();
    assert_eq!(err, StoreError::NotFound { what: "category".to_string() });
    assert_eq!(err.message(), "category not found");
    assert_eq!(category_positions(&conn), expected(&[("c1", 0)]));
}

#[test]
fn removing_the_last_category_leaves_the_categories_dense() {
    let mut conn = store();
    category(&mut conn, "c1");
    category(&mut conn, "c2");
    assert_eq!(remove_category(&mut conn, "c2"), Ok(()));
    assert!(load_scope(&conn, "categories", None).unwrap().is_dense());
}

#[test]
fn rank_categories_by_the_full_list() {
    let mut conn = store();
    for id in ["a", "b", "c"] {
        category(&mut conn, id);
    }
    let input = ReorderCategoriesInput {
        ordered_ids: vec!["c".to_string(), "a".to_string(), "b".to_string()],
    };
    assert_eq!(rank_categories(&mut conn, &input, 50), Ok(()));
    assert_eq!(category_positions(&conn), expected(&[("c", 0), ("a", 1), ("b", 2)]));
    for id in ["a", "b", "c"] {
        assert_eq!(updated_at(&conn, "categories", id), 50);
    }
    let listed = list_all(&conn).unwrap();
    let order: Vec<&str> = listed.iter().map(|c| c.category.id.as_str()).collect();
    assert_eq!(order, vec!["c", "a", "b"]);
}

#[test]
fn rank_memos_by_the_full_list() {
    let mut conn = store();
    category(&mut conn, "c1");
    for id in ["a", "b", "c"] {
        memo(&mut conn, "c1", id);
    }
    let input = ReorderMemosInput {
        category_id: "c1".to_string(),
        ordered_ids: vec!["c".to_string(), "a".to_string(), "b".to_string()],
    };
    assert_eq!(rank_memos(&mut conn, &input, 60), Ok(()));
    assert_eq!(positions(&conn, "c1"), expected(&[("c", 0), ("a", 1), ("b", 2)]));
    assert!(load_scope(&conn, "memos", Some(("category_id", "c1"))).unwrap().is_dense());
    assert_eq!(updated_at(&conn, "memos", "a"), 60);
}

#[test]
fn rank_memos_leaves_what_the_list_omits_and_what_is_elsewhere() {
    let mut conn = store();
    category(&mut conn, "c1");
    category(&mut conn, "c2");
    for id in ["a", "b", "c"] {
        memo(&mut conn, "c1", id);
    }
    memo(&mut conn, "c2", "x");
    let input = ReorderMemosInput {
        category_id: "c1".to_string(),
        ordered_ids: vec!["x".to_string(), "c".to_string()],
    };
    assert_eq!(rank_memos(&mut conn, &input, 60), Ok(()));
    let mut c1 = load_scope(&conn, "memos", Some(("category_id", "c1"))).unwrap().members;
    c1.sort_by(|l, r| l.id.cmp(&r.id));
    let c1: Vec<(String, i64)> = c1.into_iter().map(|m| (m.id, m.position)).collect();
    assert_eq!(c1, expected(&[("a", 0), ("b", 1), ("c", 1)]));
    assert_eq!(positions(&conn, "c2"), expected(&[("x", 0)]));
    assert_eq!(updated_at(&conn, "memos", "x"), 20);
    assert_eq!(updated_at(&conn, "memos", "a"), 20);
    assert_eq!(updated_at(&conn, "memos", "c"), 60);
}

#[test]
fn settings_are_empty_until_written() {
    let conn = store();
    assert_eq!(read_settings(&conn).unwrap().background_color, "");
    let first = SetBackgroundColorInput { background_color: "#111".to_string() };
    assert_eq!(write_background_color(&conn, &first), Ok(()));
    assert_eq!(read_settings(&conn).unwrap().background_color, "#111");
    let second = SetBackgroundColorInput { background_color: "#222".to_string() };
    assert_eq!(write_background_color(&conn, &second), Ok(()));
    assert_eq!(read_settings(&conn).unwrap().background_color, "#222");
}

#[test]
fn rewrite_memo_writes_the_edited_fields() {
    let mut conn = store();
    category(&mut conn, "c1");
    memo(&mut conn, "c1", "a");
    memo(&mut conn, "c1", "b");
    let input = UpdateMemoInput {
        id: "b".to_string(),
        emoji: "Z".to_string(),
        title: "T".to_string(),
        color: "#0f0".to_string(),
        date_ymd: "2000-01-01".to_string(),
        content_md: "C".to_string(),
        todo_done: true,
    };
    let updated = rewrite_memo(&conn, &input, 70).unwrap();
    assert_eq!(updated.id, "b");
    assert_eq!(updated.category_id, "c1");
    assert_eq!(updated.emoji, "Z");
    assert_eq!(updated.title, "T");
    assert_eq!(updated.color, "#0f0");
    assert_eq!(updated.date_ymd, "2000-01-01");
    assert_eq!(updated.content_md, "C");
    assert_eq!(updated.todo_done, true);
    assert_eq!(updated.position, 1);
    assert_eq!(updated.created_at, 20);
    assert_eq!(updated.updated_at, 70);
    let mut missing = input;
    missing.id = "zz".to_string();
    assert_eq!(
        rewrite_memo(&conn, &missing, 71),
        Err(StoreError::NotFound { what: "memo".to_string() })
    );
}

#[test]
fn removing_each_memo_in_turn_keeps_the_category_dense() {
    for gone in ["a", "b", "c", "d"] {
        let mut conn = store();
        category(&mut conn, "c1");
        for id in ["a", "b", "c", "d"] {
            memo(&mut conn, "c1", id);
        }
        assert_eq!(remove_memo(&mut conn, gone), Ok(()));
        let left = positions(&conn, "c1");
        let survivors: Vec<&str> = ["a", "b", "c", "d"].into_iter().filter(|id| *id != gone).collect();
        let order: Vec<&str> = left.iter().map(|(id, _)| id.as_str()).collect();
        assert_eq!(order, survivors);
        let ranks: Vec<i64> = left.iter().map(|(_, position)| *position).collect();
        assert_eq!(ranks, vec![0, 1, 2]);
    }
}

#[test]
fn removing_a_memo_leaves_the_other_categories_alone() {
    let mut conn = store();
    category(&mut conn, "c1");
    category(&mut conn, "c2");
    for id in ["a", "b", "c"] {
        memo(&mut conn, "c1", id);
    }
    for id in ["x", "y", "z"] {
        memo(&mut conn, "c2", id);
    }
    assert_eq!(remove_memo(&mut conn, "a"), Ok(()));
    assert_eq!(positions(&conn, "c1"), expected(&[("b", 0), ("c", 1)]));
    assert_eq!(positions(&conn, "c2"), expected(&[("x", 0), ("y", 1), ("z", 2)]));
    assert_eq!(updated_at(&conn, "memos", "b"), 20);
}

#[test]
fn removing_a_memo_that_does_not_exist_is_not_found() {
    let mut conn = store();
    category(&mut conn, "c1");
    memo(&mut conn, "c1", "a");
    let err = remove_memo(&mut conn, "zz").unwrap_err();
    assert_eq!(err, StoreError::NotFound { what: "memo".to_string() });
    assert_eq!(err.message(), "memo not found");
    assert_eq!(positions(&conn, "c1"), expected(&[("a", 0)]));
}

#[test]
fn relocating_the_first_the_middle_and_the_last_memo() {
    for (moved, left) in [("a", ["b", "c"]), ("b", ["a", "c"]), ("c", ["a", "b"])] {
        let mut conn = store();
        category(&mut conn, "from");
        category(&mut conn, "to");
        for id in ["a", "b", "c"] {
            memo(&mut conn, "from", id);
        }
        for id in ["x", "y"] {
            memo(&mut conn, "to", id);
        }
        let input = MoveMemoInput { memo_id: moved.to_string(), to_category_id: "to".to_string() };
        assert_eq!(relocate_memo(&mut conn, &input, 80), Ok(()));
        assert_eq!(positions(&conn, "from"), expected(&[(left[0], 0), (left[1], 1)]));
        assert_eq!(positions(&conn, "to"), expected(&[("x", 0), ("y", 1), (moved, 2)]));
        assert_eq!(updated_at(&conn, "memos", moved), 80);
        assert_eq!(updated_at(&conn, "memos", left[1]), 20);
        assert_eq!(
            get_memo_category_and_position(&conn, moved),
            Ok(Some(("to".to_string(), 2)))
        );
    }
}

#[test]
fn relocating_to_an_empty_category_puts_the_memo_first() {
    let mut conn = store();
    category(&mut conn, "from");
    category(&mut conn, "to");
    memo(&mut conn, "from", "a");
    let input = MoveMemoInput { memo_id: "a".to_string(), to_category_id: "to".to_string() };
    assert_eq!(relocate_memo(&mut conn, &input, 80), Ok(()));
    assert_eq!(positions(&conn, "from"), expected(&[]));
    assert_eq!(positions(&conn, "to"), expected(&[("a", 0)]));
}

#[test]
fn relocating_a_missing_memo_is_not_found() {
    let mut conn = store();
    category(&mut conn, "to");
    let input = MoveMemoInput { memo_id: "zz".to_string(), to_category_id: "to".to_string() };
    assert_eq!(
        relocate_memo(&mut conn, &input, 80),
        Err(StoreError::NotFound { what: "memo".to_string() })
    );
}

#[test]
fn relocating_to_a_missing_category_fails_and_changes_nothing() {
    let mut conn = store();
    category(&mut conn, "from");
    for id in ["a", "b", "c"] {
        memo(&mut conn, "from", id);
    }
    let input = MoveMemoInput { memo_id: "a".to_string(), to_category_id: "nowhere".to_string() };
    let err = relocate_memo(&mut conn, &input, 80).unwrap_err();
    match &err {
        StoreError::Constraint { operation, .. } => assert_eq!(operation, "move memo"),
        other => panic!("unexpected error: {other:?}"),
    }
    assert_eq!(positions(&conn, "from"), expected(&[("a", 0), ("b", 1), ("c", 2)]));
}

#[test]
fn relocating_within_a_category_puts_the_memo_last() {
    let mut conn = store();
    category(&mut conn, "c1");
    for id in ["a", "b", "c"] {
        memo(&mut conn, "c1", id);
    }
    let input = MoveMemoInput { memo_id: "a".to_string(), to_category_id: "c1".to_string() };
    assert_eq!(relocate_memo(&mut conn, &input, 80), Ok(()));
    assert_eq!(positions(&conn, "c1"), expected(&[("b", 0), ("c", 1), ("a", 2)]));
}

#[test]
fn relocating_the_last_memo_within_its_category_leaves_it_last() {
    let mut conn = store();
    category(&mut conn, "c1");
    for id in ["a", "b", "c"] {
        memo(&mut conn, "c1", id);
    }
    let input = MoveMemoInput { memo_id: "c".to_string(), to_category_id: "c1".to_string() };
    assert_eq!(relocate_memo(&mut conn, &input, 80), Ok(()));
    assert_eq!(positions(&conn, "c1"), expected(&[("a", 0), ("b", 1), ("c", 2)]));
}

#[test]
fn relocating_the_only_memo_within_its_category_leaves_it_first() {
    let mut conn = store();
    category(&mut conn, "c1");
    memo(&mut conn, "c1", "a");
    let input = MoveMemoInput { memo_id: "a".to_string(), to_category_id: "c1".to_string() };
    assert_eq!(relocate_memo(&mut conn, &input, 80), Ok(()));
    assert_eq!(positions(&conn, "c1"), expected(&[("a", 0)]));
}

#[test]
fn a_date_that_is_given_is_the_date_of_the_memo() {
    let mut conn = store();
    category(&mut conn, "c1");
    let input = CreateMemoInput {
        category_id: "c1".to_string(),
        emoji: None,
        title: "Note".to_string(),
        color: String::new(),
        date_ymd: Some("1999-12-31".to_string()),
        content_md: String::new(),
    };
    assert_eq!(insert_memo(&mut conn, &input, "m1", 1_700_000_000_000).unwrap().date_ymd, "1999-12-31");
    let odd = CreateMemoInput { date_ymd: Some("not a date".to_string()), ..input };
    assert_eq!(insert_memo(&mut conn, &odd, "m2", 1_700_000_000_000).unwrap().date_ymd, "not a date");
}

#[test]
fn touch_updated_at_writes_the_time() {
    let mut conn = store();
    category(&mut conn, "c1");
    memo(&mut conn, "c1", "a");
    assert_eq!(touch_updated_at_with(&conn, "memos", "a", 4242), Ok(()));
    assert_eq!(updated_at(&conn, "memos", "a"), 4242);
    assert_eq!(touch_updated_at(&conn, "categories", "c1"), Ok(()));
    assert!(updated_at(&conn, "categories", "c1") > 1_577_836_800_000);
    assert!(touch_updated_at_with(&conn, "nothing", "a", 1).is_err());
}

#[test]
fn list_all_gives_categories_and_memos_by_position() {
    let mut conn = store();
    for id in ["c1", "c2"] {
        category(&mut conn, id);
    }
    for id in ["a", "b", "c"] {
        memo(&mut conn, "c2", id);
    }
    let reorder = ReorderMemosInput {
        category_id: "c2".to_string(),
        ordered_ids: vec!["b".to_string(), "c".to_string(), "a".to_string()],
    };
    rank_memos(&mut conn, &reorder, 5).unwrap();
    let listed = list_all(&conn).unwrap();
    assert_eq!(listed.len(), 2);
    assert_eq!(listed[0].category.id, "c1");
    assert_eq!(listed[0].memos, Vec::new());
    assert_eq!(listed[1].category.id, "c2");
    let order: Vec<(&str, i64)> =
        listed[1].memos.iter().map(|m| (m.id.as_str(), m.position)).collect();
    assert_eq!(order, vec![("b", 0), ("c", 1), ("a", 2)]);
}

#[test]
fn every_scope_stays_dense_through_a_history_of_changes() {
    let mut conn = store();
    for id in ["c1", "c2", "c3"] {
        category(&mut conn, id);
    }
    for (i, owner) in ["c1", "c2", "c1", "c3", "c1", "c2", "c1"].iter().enumerate() {
        memo(&mut conn, owner, &format!("m{i}"));
    }
    let steps: Vec<Box<dyn Fn(&mut Connection)>> = vec![
        Box::new(|conn| remove_memo(conn, "m2").unwrap()),
        Box::new(|conn| {
            let input =
                MoveMemoInput { memo_id: "m0".to_string(), to_category_id: "c2".to_string() };
            relocate_memo(conn, &input, 1).unwrap()
        }),
        Box::new(|conn| {
            let input = ReorderMemosInput {
                category_id: "c2".to_string(),
                ordered_ids: vec!["m0".to_string(), "m5".to_string(), "m1".to_string()],
            };
            rank_memos(conn, &input, 2).unwrap()
        }),
        Box::new(|conn| memo(conn, "c2", "late")),
        Box::new(|conn| {
            let input =
                MoveMemoInput { memo_id: "m5".to_string(), to_category_id: "c3".to_string() };
            relocate_memo(conn, &input, 3).unwrap()
        }),
        Box::new(|conn| {
            let input = ReorderCategoriesInput {
                ordered_ids: vec!["c2".to_string(), "c3".to_string(), "c1".to_string()],
            };
            rank_categories(conn, &input, 4).unwrap()
        }),
        Box::new(|conn| remove_category(conn, "c1").unwrap()),
        Box::new(|conn| remove_memo(conn, "m3").unwrap()),
        Box::new(|conn| category(conn, "c4")),
    ];
    for step in steps {
        step(&mut conn);
        assert!(load_scope(&conn, "categories", None).unwrap().is_dense());
        for owner in ["c1", "c2", "c3", "c4"] {
            let scope = load_scope(&conn, "memos", Some(("category_id", owner))).unwrap();
            assert!(scope.is_dense());
        }
    }
    assert_eq!(category_positions(&conn), expected(&[("c2", 0), ("c3", 1), ("c4", 2)]));
    assert_eq!(positions(&conn, "c2"), expected(&[("m0", 0), ("m1", 1), ("late", 2)]));
    assert_eq!(positions(&conn, "c3"), expected(&[("m5", 0)]));
}
