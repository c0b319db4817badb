use ideanode::position::find_last;
use ideanode::{Member, Scope};

fn scope_of(members: &[(&str, i64)]) -> Scope {
    Scope {
        members: members
            .iter()
            .map(|(id, position)| Member { id: id.to_string(), position: *position })
            .collect(),
    }
}

fn ids_of(ids: &[&str]) -> Vec<String> {
    ids.iter().map(|id| id.to_string()).collect()
}

fn pairs(members: &[Member]) -> Vec<(String, i64)> {
    members.iter().map(|m| (m.id.clone(), m.position)).collect()
}

fn expected(members: &[(&str, i64)]) -> Vec<(String, i64)> {
    members.iter().map(|(id, position)| (id.to_string(), *position)).collect()
}

#[test]
fn next_position_of_an_empty_scope_is_zero() {
    assert_eq!(scope_of(&[]).next_position(), Some(0));
}

#[test]
fn next_position_is_one_past_the_greatest() {
    assert_eq!(scope_of(&[("a", 0)]).next_position(), Some(1));
    assert_eq!(scope_of(&[("a", 0), ("b", 1), ("c", 2)]).next_position(), Some(3));
    assert_eq!(scope_of(&[("c", 2), ("a", 0), ("b", 1)]).next_position(), Some(3));
}

#[test]
fn next_position_goes_by_the_greatest_even_past_a_gap() {
    assert_eq!(scope_of(&[("a", 0), ("b", 5)]).next_position(), Some(6));
    assert_eq!(scope_of(&[("a", 7), ("b", 7)]).next_position(), Some(8));
}

#[test]
fn next_position_of_negative_positions() {
    assert_eq!(scope_of(&[("a", -5)]).next_position(), Some(-4));
    assert_eq!(scope_of(&[("a", -1)]).next_position(), Some(0));
}

#[test]
fn next_position_has_no_answer_past_the_last_integer() {
    assert_eq!(scope_of(&[("a", 0), ("b", i64::MAX)]).next_position(), None);
    assert_eq!(scope_of(&[("a", i64::MAX - 1)]).next_position(), Some(i64::MAX));
}

#[test]
fn compact_after_delete_moves_the_members_above_the_gap_down() {
    let mut scope = scope_of(&[("a", 0), ("c", 2), ("d", 3)]);
    scope.compact_after_delete(1);
    assert_eq!(pairs(&scope.members), expected(&[("a", 0), ("c", 1), ("d", 2)]));
    assert!(scope.is_dense());
}

#[test]
fn compact_after_delete_of_the_last_position_changes_nothing() {
    let mut scope = scope_of(&[("a", 0), ("b", 1)]);
    scope.compact_after_delete(2);
    assert_eq!(pairs(&scope.members), expected(&[("a", 0), ("b", 1)]));
}

#[test]
fn compact_after_delete_of_the_first_position_moves_all() {
    let mut scope = scope_of(&[("c", 2), ("b", 1), ("d", 3)]);
    scope.compact_after_delete(0);
    assert_eq!(pairs(&scope.members), expected(&[("c", 1), ("b", 0), ("d", 2)]));
}

#[test]
fn compact_after_delete_leaves_a_member_at_the_gap_where_it_is() {
    let mut scope = scope_of(&[("a", 0), ("b", 1), ("c", 2)]);
    scope.compact_after_delete(1);
    assert_eq!(pairs(&scope.members), expected(&[("a", 0), ("b", 1), ("c", 1)]));
}

#[test]
fn compact_after_delete_at_the_least_integer() {
    let mut scope = scope_of(&[("a", i64::MIN), ("b", i64::MIN + 1)]);
    scope.compact_after_delete(i64::MIN);
    assert_eq!(pairs(&scope.members), expected(&[("a", i64::MIN), ("b", i64::MIN)]));
}

#[test]
fn reorder_gives_each_member_its_index_in_the_list() {
    let mut scope = scope_of(&[("a", 0), ("b", 1), ("c", 2)]);
    scope.reorder(&ids_of(&["c", "a", "b"]));
    assert_eq!(pairs(&scope.members), expected(&[("a", 1), ("b", 2), ("c", 0)]));
    assert!(scope.is_dense());
}

#[test]
fn reorder_leaves_a_member_that_the_list_omits() {
    let mut scope = scope_of(&[("a", 0), ("b", 1), ("c", 2)]);
    scope.reorder(&ids_of(&["b"]));
    assert_eq!(pairs(&scope.members), expected(&[("a", 0), ("b", 0), ("c", 2)]));
    assert!(!scope.is_dense());
}

#[test]
fn reorder_ignores_an_id_that_is_no_member() {
    let mut scope = scope_of(&[("a", 0), ("b", 1)]);
    scope.reorder(&ids_of(&["x", "b", "a"]));
    assert_eq!(pairs(&scope.members), expected(&[("a", 2), ("b", 1)]));
}

#[test]
fn reorder_by_a_list_that_names_a_member_twice_takes_the_last_index() {
    let mut scope = scope_of(&[("a", 0), ("b", 1)]);
    scope.reorder(&ids_of(&["a", "b", "a"]));
    assert_eq!(pairs(&scope.members), expected(&[("a", 2), ("b", 1)]));
}

#[test]
fn reorder_by_an_empty_list_changes_nothing() {
    let mut scope = scope_of(&[("a", 3), ("b", 1)]);
    scope.reorder(&Vec::new());
    assert_eq!(pairs(&scope.members), expected(&[("a", 3), ("b", 1)]));
}

#[test]
fn find_last_gives_the_last_index() {
    let ids = ids_of(&["a", "b", "a", "c"]);
    assert_eq!(find_last(&ids, &"a".to_string()), Some(2));
    assert_eq!(find_last(&ids, &"b".to_string()), Some(1));
    assert_eq!(find_last(&ids, &"c".to_string()), Some(3));
    assert_eq!(find_last(&ids, &"d".to_string()), None);
    assert_eq!(find_last(&Vec::new(), &"a".to_string()), None);
}

#[test]
fn is_dense_accepts_every_order_of_zero_to_n() {
    assert!(scope_of(&[]).is_dense());
    assert!(scope_of(&[("a", 0)]).is_dense());
    assert!(scope_of(&[("a", 2), ("b", 0), ("c", 1)]).is_dense());
}

#[test]
fn is_dense_refuses_gaps_duplicates_and_negatives() {
    assert!(!scope_of(&[("a", 1)]).is_dense());
    assert!(!scope_of(&[("a", 0), ("b", 2)]).is_dense());
    assert!(!scope_of(&[("a", 0), ("b", 0)]).is_dense());
    assert!(!scope_of(&[("a", -1), ("b", 0)]).is_dense());
    assert!(!scope_of(&[("a", 0), ("b", 1), ("c", 1)]).is_dense());
    assert!(!scope_of(&[("a", i64::MAX), ("b", 0)]).is_dense());
}

#[test]
fn displaced_since_lists_the_members_that_moved() {
    let before = scope_of(&[("a", 0), ("c", 2), ("d", 3)]);
    let mut after = before.snapshot();
    after.compact_after_delete(1);
    let moved = after.displaced_since(&before);
    assert_eq!(pairs(&moved), expected(&[("c", 1), ("d", 2)]));
    assert_eq!(pairs(&before.displaced_since(&before)), expected(&[]));
}

#[test]
fn named_by_lists_the_members_that_the_list_names() {
    let scope = scope_of(&[("a", 4), ("b", 5), ("c", 6)]);
    assert_eq!(pairs(&scope.named_by(&ids_of(&["c", "x", "a"]))), expected(&[("a", 4), ("c", 6)]));
    assert_eq!(pairs(&scope.named_by(&Vec::new())), expected(&[]));
}

#[test]
fn snapshot_is_a_copy() {
    let scope = scope_of(&[("a", 1), ("b", 0)]);
    let mut copy = scope.snapshot();
    assert_eq!(copy, scope);
    copy.compact_after_delete(0);
    assert_eq!(pairs(&scope.members), expected(&[("a", 1), ("b", 0)]));
    assert_eq!(pairs(&copy.members), expected(&[("a", 0), ("b", 0)]));
}

#[test]
fn members_created_one_after_the_other_stand_in_order() {
    let mut scope = scope_of(&[]);
    for i in 0..6 {
        let position = scope.next_position().unwrap();
        assert_eq!(position, i);
        scope.members.push(Member { id: format!("m{i}"), position });
        assert!(scope.is_dense());
    }
}

#[test]
fn deleting_from_a_dense_scope_keeps_the_order_of_the_others() {
    let mut scope = scope_of(&[("a", 3), ("b", 0), ("c", 2), ("d", 1)]);
    let gone = scope.members.remove(2);
    scope.compact_after_delete(gone.position);
    assert_eq!(pairs(&scope.members), expected(&[("a", 2), ("b", 0), ("d", 1)]));
    assert!(scope.is_dense());
}
