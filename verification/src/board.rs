//! The positions of the whole store, and what any history of changes makes
//! of them.
//!
//! The board holds, for every scope of the store, the ids and positions of
//! its members: one scope for the categories, and one for the memos of each
//! category. A change is what one operation of the store does to the board,
//! in terms of the position index. The board is the mathematical picture of
//! the store; nothing here runs.

use crate::density::{
    appended, deleted, has_member, lemma_compact_then_remove, lemma_create_keeps_dense,
    lemma_create_keeps_ids_distinct, lemma_delete_keeps_dense, lemma_delete_keeps_ids_distinct,
    lemma_move_within_keeps_dense, lemma_reorder_by_all_members, lemma_without_absent,
    lists_all_members,
};
use crate::position::{
    compacted, dense, distinct_ids, lemma_dense_iff, next_position_of, reordered, without, Slot,
};
use vstd::prelude::*;

verus! {

/// The members of every scope.
pub struct Board {
    /// The categories.
    pub categories: Seq<Slot>,
    /// The memos of each category, by the id of the category.
    pub memos: Map<Seq<char>, Seq<Slot>>,
}

/// What one operation asks for.
pub enum Change {
    CreateCategory { id: Seq<char> },
    DeleteCategory { id: Seq<char> },
    ReorderCategories { ids: Seq<Seq<char>> },
    CreateMemo { category: Seq<char>, id: Seq<char> },
    DeleteMemo { id: Seq<char> },
    ReorderMemos { category: Seq<char>, ids: Seq<Seq<char>> },
    MoveMemo { id: Seq<char>, to: Seq<char> },
}

/// The board of a store that holds nothing.
pub open spec fn empty_board() -> Board {
    Board { categories: Seq::<Slot>::empty(), memos: Map::<Seq<char>, Seq<Slot>>::empty() }
}

/// The index of the member `id` in a scope that holds it.
pub open spec fn index_of(s: Seq<Slot>, id: Seq<char>) -> int {
    choose|i: int| 0 <= i < s.len() && (#[trigger] s[i]).id == id
}

/// Whether some category holds a memo `id`.
pub open spec fn memo_exists(b: Board, id: Seq<char>) -> bool {
    exists|c: Seq<char>| b.memos.dom().contains(c) && has_member(#[trigger] b.memos[c], id)
}

/// The category that holds the memo `id`.
pub open spec fn holder(b: Board, id: Seq<char>) -> Seq<char> {
    choose|c: Seq<char>| b.memos.dom().contains(c) && has_member(#[trigger] b.memos[c], id)
}

/// The board after a move of the memo `id`, which exists, to the category
/// `to`, which exists: the gap is closed where the memo stands, the next
/// position of `to` is taken from its other memos, and the memo is placed
/// there.
pub open spec fn moved(b: Board, id: Seq<char>, to: Seq<char>) -> Board {
    let from = holder(b, id);
    let source = b.memos[from];
    let i = index_of(source, id);
    let closed = b.memos.insert(from, compacted(source, source[i].position));
    let position = next_position_of(without(closed[to], id));
    let left = closed.insert(from, closed[from].remove(i));
    Board { categories: b.categories, memos: left.insert(to, left[to].push(Slot { id, position })) }
}

/// The board after one operation. An operation that the storage refuses
/// (an id that is taken, a category that does not exist) and one that finds
/// nothing to do leave the board as it is.
pub open spec fn apply(b: Board, change: Change) -> Board {
    match change {
        Change::CreateCategory { id } => if has_member(b.categories, id) {
            b
        } else {
            Board {
                categories: appended(b.categories, id),
                memos: b.memos.insert(id, Seq::<Slot>::empty()),
            }
        },
        Change::DeleteCategory { id } => if has_member(b.categories, id) {
            Board {
                categories: deleted(b.categories, index_of(b.categories, id)),
                memos: b.memos.remove(id),
            }
        } else {
            b
        },
        Change::ReorderCategories { ids } => Board {
            categories: reordered(b.categories, ids),
            memos: b.memos,
        },
        Change::CreateMemo { category, id } => if b.memos.dom().contains(category) && !memo_exists(
            b,
            id,
        ) {
            Board {
                categories: b.categories,
                memos: b.memos.insert(category, appended(b.memos[category], id)),
            }
        } else {
            b
        },
        Change::DeleteMemo { id } => if memo_exists(b, id) {
            let from = holder(b, id);
            Board {
                categories: b.categories,
                memos: b.memos.insert(
                    from,
                    deleted(b.memos[from], index_of(b.memos[from], id)),
                ),
            }
        } else {
            b
        },
        Change::ReorderMemos { category, ids } => if b.memos.dom().contains(category) {
            Board {
                categories: b.categories,
                memos: b.memos.insert(category, reordered(b.memos[category], ids)),
            }
        } else {
            b
        },
        Change::MoveMemo { id, to } => if memo_exists(b, id) && b.memos.dom().contains(to) {
            moved(b, id, to)
        } else {
            b
        },
    }
}

/// The changes that keep every scope dense: all but a reorder by a list
/// that is not the list of all members of the scope.
pub open spec fn admissible(b: Board, change: Change) -> bool {
    match change {
        Change::ReorderCategories { ids } => lists_all_members(ids, b.categories),
        Change::ReorderMemos { category, ids } => b.memos.dom().contains(category)
            ==> lists_all_members(ids, b.memos[category]),
        _ => true,
    }
}

/// No memo id occurs in two categories.
pub open spec fn disjoint_scopes(b: Board) -> bool {
    forall|c1: Seq<char>, i1: int, c2: Seq<char>, i2: int|
        b.memos.dom().contains(c1) && b.memos.dom().contains(c2) && c1 != c2 && 0 <= i1
            < b.memos[c1].len() && 0 <= i2 < b.memos[c2].len() ==> (
        #[trigger] b.memos[c1][i1]).id != (#[trigger] b.memos[c2][i2]).id
}

/// Every scope of the board is dense, and every id is the id of one member.
pub open spec fn ordered(b: Board) -> bool {
    &&& dense(b.categories)
    &&& distinct_ids(b.categories)
    &&& forall|c: Seq<char>|
        b.memos.dom().contains(c) ==> dense(#[trigger] b.memos[c]) && distinct_ids(b.memos[c])
    &&& disjoint_scopes(b)
}

/// The board after a history of changes, the first change first.
pub open spec fn replay(b: Board, history: Seq<Change>) -> Board
    decreases history.len(),
{
    if history.len() == 0 {
        b
    } else {
        apply(replay(b, history.drop_last()), history.last())
    }
}

/// Every change of the history is admissible on the board that it meets.
pub open spec fn admissible_history(b: Board, history: Seq<Change>) -> bool
    decreases history.len(),
{
    history.len() == 0 || (admissible_history(b, history.drop_last()) && admissible(
        replay(b, history.drop_last()),
        history.last(),
    ))
}

proof fn lemma_index_of(s: Seq<Slot>, id: Seq<char>)
    requires
        has_member(s, id),
    ensures
        0 <= index_of(s, id) < s.len(),
        s[index_of(s, id)].id == id,
{
}

proof fn lemma_holder(b: Board, id: Seq<char>)
    requires
        memo_exists(b, id),
    ensures
        b.memos.dom().contains(holder(b, id)),
        has_member(b.memos[holder(b, id)], id),
{
}

proof fn lemma_category_created(b: Board, id: Seq<char>)
    requires
        ordered(b),
    ensures
        ordered(apply(b, Change::CreateCategory { id })),
{
    let after = apply(b, Change::CreateCategory { id });
    if !has_member(b.categories, id) {
        lemma_create_keeps_dense(b.categories, id);
        lemma_create_keeps_ids_distinct(b.categories, id);
        lemma_dense_iff(Seq::<Slot>::empty());
        assert forall|c: Seq<char>| after.memos.dom().contains(c) implies dense(
            #[trigger] after.memos[c],
        ) && distinct_ids(after.memos[c]) by {
            if c != id {
                assert(after.memos[c] == b.memos[c]);
            }
        }
        assert(disjoint_scopes(after)) by {
            assert forall|c1: Seq<char>, i1: int, c2: Seq<char>, i2: int|
                after.memos.dom().contains(c1) && after.memos.dom().contains(c2) && c1 != c2 && 0
                    <= i1 < after.memos[c1].len() && 0 <= i2 < after.memos[c2].len() implies (
            #[trigger] after.memos[c1][i1]).id != (#[trigger] after.memos[c2][i2]).id by {
                assert(after.memos[c1] == b.memos[c1] && after.memos[c2] == b.memos[c2]);
                assert(b.memos[c1][i1].id != b.memos[c2][i2].id);
            }
        }
    }
}

proof fn lemma_category_deleted(b: Board, id: Seq<char>)
    requires
        ordered(b),
    ensures
        ordered(apply(b, Change::DeleteCategory { id })),
{
    let after = apply(b, Change::DeleteCategory { id });
    if has_member(b.categories, id) {
        let i = index_of(b.categories, id);
        lemma_index_of(b.categories, id);
        lemma_delete_keeps_dense(b.categories, i);
        lemma_delete_keeps_ids_distinct(b.categories, i);
        assert forall|c: Seq<char>| after.memos.dom().contains(c) implies dense(
            #[trigger] after.memos[c],
        ) && distinct_ids(after.memos[c]) by {
            assert(after.memos[c] == b.memos[c]);
        }
        assert(disjoint_scopes(after)) by {
            assert forall|c1: Seq<char>, i1: int, c2: Seq<char>, i2: int|
                after.memos.dom().contains(c1) && after.memos.dom().contains(c2) && c1 != c2 && 0
                    <= i1 < after.memos[c1].len() && 0 <= i2 < after.memos[c2].len() implies (
            #[trigger] after.memos[c1][i1]).id != (#[trigger] after.memos[c2][i2]).id by {
                assert(after.memos[c1] == b.memos[c1] && after.memos[c2] == b.memos[c2]);
                assert(b.memos[c1][i1].id != b.memos[c2][i2].id);
            }
        }
    }
}

proof fn lemma_categories_reordered(b: Board, ids: Seq<Seq<char>>)
    requires
        ordered(b),
        admissible(b, Change::ReorderCategories { ids }),
    ensures
        ordered(apply(b, Change::ReorderCategories { ids })),
{
    lemma_reorder_by_all_members(b.categories, ids);
}

/// Replacing the scope of one category by a scope whose ids are among those
/// it held, or are held by no other category, keeps the scopes disjoint.
proof fn lemma_scope_replaced(b: Board, c: Seq<char>, scope: Seq<Slot>)
    requires
        disjoint_scopes(b),
        b.memos.dom().contains(c),
        forall|k: int|
            0 <= k < scope.len() ==> has_member(b.memos[c], (#[trigger] scope[k]).id) || forall|
                c2: Seq<char>,
            |
                b.memos.dom().contains(c2) && c2 != c ==> !has_member(
                    #[trigger] b.memos[c2],
                    scope[k].id,
                ),
    ensures
        disjoint_scopes(Board { categories: b.categories, memos: b.memos.insert(c, scope) }),
{
    let after = Board { categories: b.categories, memos: b.memos.insert(c, scope) };
    assert forall|c1: Seq<char>, i1: int, c2: Seq<char>, i2: int|
        after.memos.dom().contains(c1) && after.memos.dom().contains(c2) && c1 != c2 && 0 <= i1
            < after.memos[c1].len() && 0 <= i2 < after.memos[c2].len() implies (
    #[trigger] after.memos[c1][i1]).id != (#[trigger] after.memos[c2][i2]).id by {
        if c1 == c {
            lemma_other_scope_differs(b, c, scope, i1, c2, i2);
        } else if c2 == c {
            lemma_other_scope_differs(b, c, scope, i2, c1, i1);
        } else {
            assert(b.memos[c1][i1].id != b.memos[c2][i2].id);
        }
    }
}

proof fn lemma_other_scope_differs(
    b: Board,
    c: Seq<char>,
    scope: Seq<Slot>,
    k: int,
    other: Seq<char>,
    j: int,
)
    requires
        disjoint_scopes(b),
        b.memos.dom().contains(c),
        b.memos.dom().contains(other),
        other != c,
        0 <= k < scope.len(),
        0 <= j < b.memos[other].len(),
        has_member(b.memos[c], scope[k].id) || forall|c2: Seq<char>|
            b.memos.dom().contains(c2) && c2 != c ==> !has_member(
                #[trigger] b.memos[c2],
                scope[k].id,
            ),
    ensures
        scope[k].id != b.memos[other][j].id,
{
    if has_member(b.memos[c], scope[k].id) {
        let i = index_of(b.memos[c], scope[k].id);
        lemma_index_of(b.memos[c], scope[k].id);
        assert(b.memos[c][i].id != b.memos[other][j].id);
    } else {
        assert(!has_member(b.memos[other], scope[k].id));
        if scope[k].id == b.memos[other][j].id {
            assert(has_member(b.memos[other], scope[k].id));
        }
    }
}

/// After the scope of one category was replaced by a well-formed one whose
/// ids keep the scopes disjoint, the board is ordered.
proof fn lemma_ordered_after_replacing(b: Board, c: Seq<char>, scope: Seq<Slot>)
    requires
        ordered(b),
        b.memos.dom().contains(c),
        dense(scope),
        distinct_ids(scope),
        forall|k: int|
            0 <= k < scope.len() ==> has_member(b.memos[c], (#[trigger] scope[k]).id) || forall|
                c2: Seq<char>,
            |
                b.memos.dom().contains(c2) && c2 != c ==> !has_member(
                    #[trigger] b.memos[c2],
                    scope[k].id,
                ),
    ensures
        ordered(Board { categories: b.categories, memos: b.memos.insert(c, scope) }),
{
    let after = Board { categories: b.categories, memos: b.memos.insert(c, scope) };
    lemma_scope_replaced(b, c, scope);
    assert forall|c2: Seq<char>| after.memos.dom().contains(c2) implies dense(
        #[trigger] after.memos[c2],
    ) && distinct_ids(after.memos[c2]) by {
        if c2 != c {
            assert(after.memos[c2] == b.memos[c2]);
        }
    }
}

proof fn lemma_memo_created(b: Board, category: Seq<char>, id: Seq<char>)
    requires
        ordered(b),
    ensures
        ordered(apply(b, Change::CreateMemo { category, id })),
{
    if b.memos.dom().contains(category) && !memo_exists(b, id) {
        let scope = b.memos[category];
        let after = appended(scope, id);
        assert(!has_member(scope, id));
        lemma_create_keeps_dense(scope, id);
        lemma_create_keeps_ids_distinct(scope, id);
        assert forall|k: int| 0 <= k < after.len() implies has_member(
            scope,
            (#[trigger] after[k]).id,
        ) || forall|c2: Seq<char>|
            b.memos.dom().contains(c2) && c2 != category ==> !has_member(
                #[trigger] b.memos[c2],
                after[k].id,
            ) by {
            if k < scope.len() {
                assert(after[k] == scope[k]);
            } else {
                assert(after[k].id == id);
            }
        }
        lemma_ordered_after_replacing(b, category, after);
    }
}

proof fn lemma_memo_deleted(b: Board, id: Seq<char>)
    requires
        ordered(b),
    ensures
        ordered(apply(b, Change::DeleteMemo { id })),
{
    if memo_exists(b, id) {
        lemma_holder(b, id);
        let from = holder(b, id);
        let scope = b.memos[from];
        let i = index_of(scope, id);
        lemma_index_of(scope, id);
        let after = deleted(scope, i);
        lemma_delete_keeps_dense(scope, i);
        lemma_delete_keeps_ids_distinct(scope, i);
        assert forall|k: int| 0 <= k < after.len() implies has_member(
            scope,
            (#[trigger] after[k]).id,
        ) by {
            let k0 = if k < i {
                k
            } else {
                k + 1
            };
            assert(scope.remove(i)[k] == scope[k0]);
            assert(after[k].id == scope[k0].id);
        }
        lemma_ordered_after_replacing(b, from, after);
    }
}

proof fn lemma_memos_reordered(b: Board, category: Seq<char>, ids: Seq<Seq<char>>)
    requires
        ordered(b),
        admissible(b, Change::ReorderMemos { category, ids }),
    ensures
        ordered(apply(b, Change::ReorderMemos { category, ids })),
{
    if b.memos.dom().contains(category) {
        let scope = b.memos[category];
        let after = reordered(scope, ids);
        lemma_reorder_by_all_members(scope, ids);
        assert forall|k: int| 0 <= k < after.len() implies has_member(
            scope,
            (#[trigger] after[k]).id,
        ) by {
            assert(after[k].id == scope[k].id);
        }
        lemma_ordered_after_replacing(b, category, after);
    }
}

proof fn lemma_memo_moved(b: Board, id: Seq<char>, to: Seq<char>)
    requires
        ordered(b),
    ensures
        ordered(apply(b, Change::MoveMemo { id, to })),
{
    if memo_exists(b, id) && b.memos.dom().contains(to) {
        lemma_holder(b, id);
        let from = holder(b, id);
        let source = b.memos[from];
        let i = index_of(source, id);
        lemma_index_of(source, id);
        let after = apply(b, Change::MoveMemo { id, to });
        if from == to {
            lemma_move_within_keeps_dense(source, i);
            let joined = appended(deleted(source, i), id);
            assert forall|k: int| 0 <= k < joined.len() implies has_member(
                source,
                (#[trigger] joined[k]).id,
            ) by {
                if k < joined.len() - 1 {
                    let k0 = if k < i {
                        k
                    } else {
                        k + 1
                    };
                    assert(source.remove(i)[k] == source[k0]);
                    assert(joined[k].id == source[k0].id);
                } else {
                    assert(joined[k].id == source[i].id);
                }
            }
            lemma_ordered_after_replacing(b, from, joined);
            assert(after.memos =~= b.memos.insert(from, joined));
        } else {
            lemma_memo_moved_across(b, id, to);
        }
    }
}

proof fn lemma_memo_moved_across(b: Board, id: Seq<char>, to: Seq<char>)
    requires
        ordered(b),
        memo_exists(b, id),
        b.memos.dom().contains(to),
        holder(b, id) != to,
    ensures
        ordered(apply(b, Change::MoveMemo { id, to })),
{
    lemma_holder(b, id);
    let from = holder(b, id);
    let source = b.memos[from];
    let i = index_of(source, id);
    lemma_index_of(source, id);
    let target = b.memos[to];
    let left = deleted(source, i);
    let joined = appended(target, id);
    lemma_compact_then_remove(source, i);
    // The memo leaves its category.
    lemma_delete_keeps_dense(source, i);
    lemma_delete_keeps_ids_distinct(source, i);
    assert forall|k: int| 0 <= k < left.len() implies has_member(source, (#[trigger] left[k]).id)
        && left[k].id != id by {
        let k0 = if k < i {
            k
        } else {
            k + 1
        };
        assert(source.remove(i)[k] == source[k0]);
        assert(left[k].id == source[k0].id);
        assert(source[k0].id != source[i].id);
    }
    let between = Board { categories: b.categories, memos: b.memos.insert(from, left) };
    lemma_ordered_after_replacing(b, from, left);
    // It joins the other.
    assert(between.memos[to] == target);
    assert(!has_member(target, id)) by {
        if has_member(target, id) {
            let j = index_of(target, id);
            lemma_index_of(target, id);
            assert(b.memos[from][i].id != b.memos[to][j].id);
        }
    }
    lemma_without_absent(target, id);
    lemma_create_keeps_dense(target, id);
    lemma_create_keeps_ids_distinct(target, id);
    assert forall|k: int| 0 <= k < joined.len() implies has_member(
        between.memos[to],
        (#[trigger] joined[k]).id,
    ) || forall|c2: Seq<char>|
        between.memos.dom().contains(c2) && c2 != to ==> !has_member(
            #[trigger] between.memos[c2],
            joined[k].id,
        ) by {
        if k < target.len() {
            assert(joined[k] == target[k]);
        } else {
            assert(joined[k].id == id);
            assert forall|c2: Seq<char>|
                between.memos.dom().contains(c2) && c2 != to implies !has_member(
                    #[trigger] between.memos[c2],
                    id,
                ) by {
                if has_member(between.memos[c2], id) {
                    let j = index_of(between.memos[c2], id);
                    lemma_index_of(between.memos[c2], id);
                    if c2 == from {
                        assert(left[j].id != id);
                    } else {
                        assert(between.memos[c2] == b.memos[c2]);
                        assert(b.memos[from][i].id != b.memos[c2][j].id);
                    }
                }
            }
        }
    }
    lemma_ordered_after_replacing(between, to, joined);
    let after = apply(b, Change::MoveMemo { id, to });
    assert(after.memos =~= between.memos.insert(to, joined));
}

/// The board of an empty store is ordered.
pub proof fn lemma_empty_board_is_ordered()
    ensures
        ordered(empty_board()),
{
    lemma_dense_iff(Seq::<Slot>::empty());
}

/// An admissible change keeps every scope dense.
pub proof fn lemma_change_keeps_order(b: Board, change: Change)
    requires
        ordered(b),
        admissible(b, change),
    ensures
        ordered(apply(b, change)),
{
    match change {
        Change::CreateCategory { id } => lemma_category_created(b, id),
        Change::DeleteCategory { id } => lemma_category_deleted(b, id),
        Change::ReorderCategories { ids } => lemma_categories_reordered(b, ids),
        Change::CreateMemo { category, id } => lemma_memo_created(b, category, id),
        Change::DeleteMemo { id } => lemma_memo_deleted(b, id),
        Change::ReorderMemos { category, ids } => lemma_memos_reordered(b, category, ids),
        Change::MoveMemo { id, to } => lemma_memo_moved(b, id, to),
    }
}

/// After any history of admissible changes, the positions of every scope
/// are exactly `0` to `n - 1` for its `n` members.
pub proof fn lemma_history_keeps_order(b: Board, history: Seq<Change>)
    requires
        ordered(b),
        admissible_history(b, history),
    ensures
        ordered(replay(b, history)),
    decreases history.len(),
{
    if history.len() > 0 {
        lemma_history_keeps_order(b, history.drop_last());
        lemma_change_keeps_order(replay(b, history.drop_last()), history.last());
    }
}

} // verus!
