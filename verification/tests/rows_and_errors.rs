use ideanode::clock::timestamp_of;
use ideanode::{
    fetched_category, fetched_memo, first_integer, first_placement, flag_column,
    migration_failure, position_for_new_member, row_to_category, row_to_memo, rows_to_memos,
    rows_to_scope, settings_of, text_or_empty, Category, Member, Memo, Record, Scope, StoreError,
};

fn record(texts: &[&str], integers: &[i64]) -> Record {
    Record { texts: texts.iter().map(|t| t.to_string()).collect(), integers: integers.to_vec() }
}

fn category_row() -> Record {
    record(&["c1", "E", "Work", "#fff"], &[3, 0, 1, 2, 100, 200])
}

fn memo_row() -> Record {
    record(&["m1", "c1", "E", "Note", "#000", "2024-01-02", "text"], &[1, 4, 100, 200])
}

#[test]
fn row_to_category_reads_the_columns_in_order() {
    let expected = Category {
        id: "c1".to_string(),
        emoji: "E".to_string(),
        title: "Work".to_string(),
        color: "#fff".to_string(),
        position: 3,
        archived: false,
        is_todo: true,
        is_collapsed: true,
        created_at: 100,
        updated_at: 200,
    };
    assert_eq!(row_to_category(&category_row()), Some(expected));
}

#[test]
fn row_to_category_refuses_another_shape() {
    assert_eq!(row_to_category(&memo_row()), None);
    assert_eq!(row_to_category(&record(&[], &[])), None);
    assert_eq!(row_to_category(&record(&["c1", "E", "Work", "#fff"], &[3, 0, 1, 2, 100])), None);
    assert_eq!(
        row_to_category(&record(&["c1", "E", "Work", "#fff", "x"], &[3, 0, 1, 2, 100, 200])),
        None
    );
}

#[test]
fn row_to_memo_reads_the_columns_in_order() {
    let expected = Memo {
        id: "m1".to_string(),
        category_id: "c1".to_string(),
        emoji: "E".to_string(),
        title: "Note".to_string(),
        color: "#000".to_string(),
        date_ymd: "2024-01-02".to_string(),
        content_md: "text".to_string(),
        todo_done: true,
        position: 4,
        created_at: 100,
        updated_at: 200,
    };
    assert_eq!(row_to_memo(&memo_row()), Some(expected));
}

#[test]
fn row_to_memo_refuses_another_shape() {
    assert_eq!(row_to_memo(&category_row()), None);
    assert_eq!(row_to_memo(&record(&["m1"], &[1])), None);
}

#[test]
fn a_flag_is_set_by_any_integer_but_zero() {
    let mut row = memo_row();
    row.integers[0] = 0;
    assert_eq!(row_to_memo(&row).unwrap().todo_done, false);
    row.integers[0] = -7;
    assert_eq!(row_to_memo(&row).unwrap().todo_done, true);
    assert_eq!(flag_column(true), 1);
    assert_eq!(flag_column(false), 0);
}

#[test]
fn rows_to_memos_reads_every_row_or_none() {
    let mut second = memo_row();
    second.texts[0] = "m2".to_string();
    let memos = rows_to_memos(&vec![memo_row(), second]).unwrap();
    assert_eq!(memos.len(), 2);
    assert_eq!(memos[0].id, "m1");
    assert_eq!(memos[1].id, "m2");
    assert_eq!(rows_to_memos(&vec![memo_row(), category_row()]), None);
    assert_eq!(rows_to_memos(&Vec::new()), Some(Vec::new()));
}

#[test]
fn rows_to_scope_reads_every_row_or_none() {
    let rows = vec![record(&["a"], &[1]), record(&["b"], &[0])];
    let scope = rows_to_scope(&rows).unwrap();
    assert_eq!(
        scope,
        Scope {
            members: vec![
                Member { id: "a".to_string(), position: 1 },
                Member { id: "b".to_string(), position: 0 },
            ],
        }
    );
    assert_eq!(rows_to_scope(&vec![record(&["a"], &[1]), record(&["b"], &[])]), None);
    assert_eq!(rows_to_scope(&vec![record(&["a", "b"], &[1])]), None);
    assert_eq!(rows_to_scope(&Vec::new()), Some(Scope { members: Vec::new() }));
}

#[test]
fn first_placement_reads_the_first_row() {
    let rows = vec![record(&["cat"], &[4]), record(&["other"], &[9])];
    assert_eq!(first_placement(&rows), Some(("cat".to_string(), 4)));
    assert_eq!(first_placement(&Vec::new()), None);
    assert_eq!(first_placement(&vec![record(&["cat"], &[])]), None);
}

#[test]
fn settings_of_defaults_to_the_empty_text() {
    assert_eq!(settings_of(&Vec::new()).background_color, "");
    assert_eq!(settings_of(&vec![record(&[], &[])]).background_color, "");
    assert_eq!(settings_of(&vec![record(&["#abc"], &[])]).background_color, "#abc");
}

#[test]
fn first_integer_reads_the_first_row() {
    assert_eq!(first_integer(&vec![record(&[], &[4, 5]), record(&[], &[6])]), Some(4));
    assert_eq!(first_integer(&Vec::new()), None);
    assert_eq!(first_integer(&vec![record(&["x"], &[])]), None);
}

#[test]
fn text_or_empty_of_both_cases() {
    assert_eq!(text_or_empty(&Some("x".to_string())), "x");
    assert_eq!(text_or_empty(&None), "");
}

#[test]
fn fetched_category_of_each_result() {
    assert_eq!(
        fetched_category(&Vec::new()),
        Err(StoreError::NotFound { what: "category".to_string() })
    );
    assert_eq!(fetched_category(&vec![category_row()]).unwrap().id, "c1");
    assert!(matches!(fetched_category(&vec![memo_row()]), Err(StoreError::Transaction { .. })));
}

#[test]
fn fetched_memo_of_each_result() {
    assert_eq!(fetched_memo(&Vec::new()), Err(StoreError::NotFound { what: "memo".to_string() }));
    assert_eq!(fetched_memo(&vec![memo_row()]).unwrap().id, "m1");
    assert!(matches!(fetched_memo(&vec![category_row()]), Err(StoreError::Transaction { .. })));
}

#[test]
fn position_for_new_member_of_each_scope() {
    let empty = Scope { members: Vec::new() };
    assert_eq!(position_for_new_member(&empty), Ok(0));
    let two = Scope {
        members: vec![
            Member { id: "a".to_string(), position: 1 },
            Member { id: "b".to_string(), position: 0 },
        ],
    };
    assert_eq!(position_for_new_member(&two), Ok(2));
    let full = Scope { members: vec![Member { id: "a".to_string(), position: i64::MAX }] };
    assert_eq!(
        position_for_new_member(&full),
        Err(StoreError::Transaction {
            operation: "next_position".to_string(),
            detail: "no position is left".to_string(),
        })
    );
}

#[test]
fn messages_of_every_kind() {
    assert_eq!(StoreError::Unavailable.message(), "db mutex poisoned");
    assert_eq!(StoreError::NotFound { what: "memo".to_string() }.message(), "memo not found");
    assert_eq!(
        StoreError::Migration { step: "migration v1->v2".to_string(), detail: "boom".to_string() }
            .message(),
        "migration v1->v2 error: boom"
    );
    assert_eq!(
        StoreError::Constraint { operation: "insert memo".to_string(), detail: "FK".to_string() }
            .message(),
        "insert memo error: FK"
    );
    assert_eq!(
        StoreError::Transaction { operation: "tx begin".to_string(), detail: "busy".to_string() }
            .message(),
        "tx begin error: busy"
    );
    assert_eq!(
        StoreError::Rejected {
            operation: "reorder memos".to_string(),
            reason: "too many ids".to_string(),
        }
        .message(),
        "reorder memos error: too many ids"
    );
    assert_eq!(
        StoreError::rejected("reorder memos", "too many ids"),
        StoreError::Rejected {
            operation: "reorder memos".to_string(),
            reason: "too many ids".to_string(),
        }
    );
}

#[test]
fn statement_errors_by_kind() {
    assert_eq!(
        StoreError::statement("insert memo", true, "d".to_string()),
        StoreError::Constraint { operation: "insert memo".to_string(), detail: "d".to_string() }
    );
    assert_eq!(
        StoreError::statement("insert memo", false, "d".to_string()),
        StoreError::Transaction { operation: "insert memo".to_string(), detail: "d".to_string() }
    );
    assert_eq!(StoreError::not_found("memo"), StoreError::NotFound { what: "memo".to_string() });
    assert_eq!(
        migration_failure("read user_version", "d".to_string()),
        StoreError::Migration { step: "read user_version".to_string(), detail: "d".to_string() }
    );
}

#[test]
fn timestamp_of_each_clock() {
    assert_eq!(timestamp_of(None), 0);
    assert_eq!(timestamp_of(Some(0)), 0);
    assert_eq!(timestamp_of(Some(1_700_000_000_123)), 1_700_000_000_123);
    assert_eq!(timestamp_of(Some(i64::MAX as u128)), i64::MAX);
}
