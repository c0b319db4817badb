//! What creating, deleting, moving and reordering do to a dense scope.
//!
//! Each statement here is about the functions of the position index: the
//! position that a new member gets, the closing of a gap, and the ranking by
//! a list of ids.

use crate::position::{
    compacted, dense, displaced, distinct_ids, last_written, lemma_dense_iff,
    lemma_dense_next_position, lemma_last_index_of, named, next_position_of, reordered, without,
    written, Slot,
};
use vstd::prelude::*;

verus! {

/// The scope after a member `id` was created in it: the member stands at
/// the next position, behind the others.
pub open spec fn appended(s: Seq<Slot>, id: Seq<char>) -> Seq<Slot> {
    s.push(Slot { id, position: next_position_of(s) })
}

/// The scope in which the members `ids` were created one after the other,
/// starting from an empty scope.
pub open spec fn created(ids: Seq<Seq<char>>) -> Seq<Slot>
    decreases ids.len(),
{
    if ids.len() == 0 {
        Seq::<Slot>::empty()
    } else {
        appended(created(ids.drop_last()), ids.last())
    }
}

/// The scope after its member at index `i` was deleted and the gap closed.
pub open spec fn deleted(s: Seq<Slot>, i: int) -> Seq<Slot> {
    compacted(s.remove(i), s[i].position)
}

/// The ids of the members, member by member.
pub open spec fn member_ids(s: Seq<Slot>) -> Seq<Seq<char>> {
    s.map_values(|m: Slot| m.id)
}

/// Whether a member of the scope has the id `id`.
pub open spec fn has_member(s: Seq<Slot>, id: Seq<char>) -> bool {
    exists|i: int| 0 <= i < s.len() && (#[trigger] s[i]).id == id
}

/// `ids` lists the ids of all members of the scope, each once, and nothing
/// else.
pub open spec fn lists_all_members(ids: Seq<Seq<char>>, s: Seq<Slot>) -> bool {
    &&& ids.no_duplicates()
    &&& forall|k: int| 0 <= k < ids.len() ==> has_member(s, #[trigger] ids[k])
    &&& forall|i: int| 0 <= i < s.len() ==> ids.contains((#[trigger] s[i]).id)
}

/// The last write for an id is one of the writes, and no write follows it
/// for that id; where there is none, no write names the id.
pub proof fn lemma_last_written(writes: Seq<Slot>, id: Seq<char>)
    ensures
        match last_written(writes, id) {
            Some(position) => exists|k: int|
                0 <= k < writes.len() && (#[trigger] writes[k]).id == id && writes[k].position
                    == position && forall|l: int| k < l < writes.len() ==> (#[trigger] writes[l]).id != id,
            None => forall|k: int| 0 <= k < writes.len() ==> (#[trigger] writes[k]).id != id,
        },
    decreases writes.len(),
{
    if writes.len() > 0 {
        let front = writes.drop_last();
        if writes.last().id == id {
            assert(writes[writes.len() - 1].id == id);
        } else {
            lemma_last_written(front, id);
            assert(forall|k: int| 0 <= k < front.len() ==> front[k] == writes[k]);
            match last_written(front, id) {
                Some(position) => {
                    let k = choose|k: int|
                        0 <= k < front.len() && (#[trigger] front[k]).id == id && front[k].position
                            == position && forall|l: int|
                            k < l < front.len() ==> (#[trigger] front[l]).id != id;
                    assert(writes[k].id == id && writes[k].position == position);
                    assert forall|l: int| k < l < writes.len() implies (#[trigger] writes[l]).id
                        != id by {
                        if l < front.len() {
                            assert(front[l].id != id);
                        }
                    }
                },
                None => {},
            }
        }
    }
}

/// The members that stand elsewhere are members of `after`, and among them
/// is every member whose position is not that of the member at the same
/// place in `before`.
pub proof fn lemma_displaced_members(before: Seq<Slot>, after: Seq<Slot>)
    requires
        before.len() == after.len(),
    ensures
        forall|w: int|
            0 <= w < displaced(before, after).len() ==> after.contains(
                #[trigger] displaced(before, after)[w],
            ),
        forall|j: int|
            0 <= j < after.len() && (#[trigger] after[j]).position != before[j].position
                ==> displaced(before, after).contains(after[j]),
    decreases after.len(),
{
    if after.len() > 0 {
        let front_before = before.drop_last();
        let front_after = after.drop_last();
        let front = displaced(front_before, front_after);
        let all = displaced(before, after);
        let last = after.len() - 1;
        lemma_displaced_members(front_before, front_after);
        assert forall|w: int| 0 <= w < all.len() implies after.contains(#[trigger] all[w]) by {
            if w < front.len() {
                assert(all[w] == front[w]);
                assert(front_after.contains(front[w]));
                let j = choose|j: int| 0 <= j < front_after.len() && front_after[j] == front[w];
                assert(after[j] == front[w]);
            } else {
                assert(all[w] == after[last]);
            }
        }
        assert forall|j: int|
            0 <= j < after.len() && (#[trigger] after[j]).position
                != before[j].position implies all.contains(after[j]) by {
            if j < last {
                assert(front_after[j] == after[j] && front_before[j] == before[j]);
                assert(front.contains(front_after[j]));
                let w = choose|w: int| 0 <= w < front.len() && front[w] == front_after[j];
                assert(all[w] == after[j]);
            } else {
                assert(all[all.len() - 1] == after[j]);
            }
        }
    }
}

/// The members that a list names are members of the scope, and among them
/// is every member whose id the list holds.
pub proof fn lemma_named_members(s: Seq<Slot>, ids: Seq<Seq<char>>)
    ensures
        forall|w: int| 0 <= w < named(s, ids).len() ==> s.contains(#[trigger] named(s, ids)[w]),
        forall|j: int|
            0 <= j < s.len() && ids.contains((#[trigger] s[j]).id) ==> named(s, ids).contains(s[j]),
    decreases s.len(),
{
    reveal(Seq::filter);
    let all = named(s, ids);
    if s.len() > 0 {
        let listed = |m: Slot| ids.contains(m.id);
        let front_s = s.drop_last();
        let front = named(front_s, ids);
        let last = s.len() - 1;
        lemma_named_members(front_s, ids);
        assert(all == if listed(s.last()) {
            front.push(s.last())
        } else {
            front
        });
        assert forall|w: int| 0 <= w < all.len() implies s.contains(#[trigger] all[w]) by {
            if w < front.len() {
                assert(all[w] == front[w]);
                assert(front_s.contains(front[w]));
                let j = choose|j: int| 0 <= j < front_s.len() && front_s[j] == front[w];
                assert(s[j] == front[w]);
            } else {
                assert(all[w] == s[last]);
            }
        }
        assert forall|j: int| 0 <= j < s.len() && ids.contains((#[trigger] s[j]).id) implies all.contains(
            s[j],
        ) by {
            if j < last {
                assert(front_s[j] == s[j]);
                assert(front.contains(front_s[j]));
                let w = choose|w: int| 0 <= w < front.len() && front[w] == front_s[j];
                assert(all[w] == s[j]);
            } else {
                assert(all[all.len() - 1] == s[j]);
            }
        }
    } else {
        assert(all.len() == 0);
    }
}

/// Writes that hold every member that stands elsewhere in `after`, and
/// nothing but members of `after`, make `after` of the scope.
pub proof fn lemma_writes_make(s: Seq<Slot>, after: Seq<Slot>, writes: Seq<Slot>)
    requires
        distinct_ids(s),
        after.len() == s.len(),
        forall|j: int| 0 <= j < s.len() ==> (#[trigger] after[j]).id == s[j].id,
        forall|w: int| 0 <= w < writes.len() ==> after.contains(#[trigger] writes[w]),
        forall|j: int|
            0 <= j < s.len() && (#[trigger] after[j]).position != s[j].position ==> writes.contains(
                after[j],
            ),
    ensures
        written(s, writes) == after,
{
    assert forall|i: int| 0 <= i < s.len() implies written(s, writes)[i] == after[i] by {
        lemma_last_written(writes, s[i].id);
        match last_written(writes, s[i].id) {
            Some(position) => {
                let k = choose|k: int|
                    0 <= k < writes.len() && (#[trigger] writes[k]).id == s[i].id
                        && writes[k].position == position;
                assert(after.contains(writes[k]));
                let j = choose|j: int| 0 <= j < after.len() && after[j] == writes[k];
                assert(after[j].id == s[j].id);
                if j != i {
                    assert(s[j].id != s[i].id);
                }
            },
            None => {
                if after[i].position != s[i].position {
                    assert(writes.contains(after[i]));
                    let k = choose|k: int| 0 <= k < writes.len() && writes[k] == after[i];
                    assert(writes[k].id == s[i].id);
                }
            },
        }
    }
    assert(written(s, writes) =~= after);
}

/// The writes of a compaction, applied to the scope, close the gap: every
/// member above it stands one lower, the others stand where they stood.
pub proof fn lemma_compaction_writes_close_the_gap(s: Seq<Slot>, removed: int)
    requires
        distinct_ids(s),
    ensures
        written(s, displaced(s, compacted(s, removed))) == compacted(s, removed),
{
    let after = compacted(s, removed);
    lemma_displaced_members(s, after);
    lemma_writes_make(s, after, displaced(s, after));
}

/// The writes of a reorder, applied to the scope, rank it: every member
/// that the list names stands at the index at which the list names it last,
/// the others stand where they stood.
pub proof fn lemma_reorder_writes_rank(s: Seq<Slot>, ids: Seq<Seq<char>>)
    requires
        distinct_ids(s),
    ensures
        written(s, named(reordered(s, ids), ids)) == reordered(s, ids),
{
    let after = reordered(s, ids);
    let writes = named(after, ids);
    lemma_named_members(after, ids);
    assert forall|j: int|
        0 <= j < s.len() && (#[trigger] after[j]).position != s[j].position implies writes.contains(
        after[j],
    ) by {
        lemma_last_index_of(ids, s[j].id);
        assert(ids.contains(after[j].id));
    }
    lemma_writes_make(s, after, writes);
}

/// A scope that holds no member `id` is itself without it.
pub proof fn lemma_without_absent(s: Seq<Slot>, id: Seq<char>)
    requires
        !has_member(s, id),
    ensures
        without(s, id) == s,
    decreases s.len(),
{
    reveal(Seq::filter);
    if s.len() > 0 {
        let front = s.drop_last();
        assert forall|i: int| 0 <= i < front.len() implies (#[trigger] front[i]).id != id by {
            assert(front[i] == s[i]);
        }
        lemma_without_absent(front, id);
        assert(s.last() == s[s.len() - 1]);
        assert(without(s, id) =~= s);
    } else {
        assert(without(s, id) =~= s);
    }
}

/// A scope of distinct ids without the id of its member at index `i` is the
/// scope with that member removed.
pub proof fn lemma_without_member(s: Seq<Slot>, i: int)
    requires
        distinct_ids(s),
        0 <= i < s.len(),
    ensures
        without(s, s[i].id) == s.remove(i),
    decreases s.len(),
{
    reveal(Seq::filter);
    let id = s[i].id;
    let front = s.drop_last();
    if i == s.len() - 1 {
        assert forall|k: int| 0 <= k < front.len() implies (#[trigger] front[k]).id != id by {
            assert(front[k] == s[k]);
        }
        lemma_without_absent(front, id);
        assert(s.remove(i) =~= front);
    } else {
        assert forall|a: int, b: int|
            0 <= a < front.len() && 0 <= b < front.len() && a != b implies (
        #[trigger] front[a]).id != (#[trigger] front[b]).id by {
            assert(front[a] == s[a] && front[b] == s[b]);
        }
        assert(front[i] == s[i]);
        lemma_without_member(front, i);
        assert(s.last() == s[s.len() - 1]);
        assert(s[s.len() - 1].id != s[i].id);
        assert(s.remove(i) =~= front.remove(i).push(s.last()));
    }
}

/// Creating a member in a dense scope of `n` members puts it at position
/// `n` and leaves the scope dense.
pub proof fn lemma_create_keeps_dense(s: Seq<Slot>, id: Seq<char>)
    requires
        dense(s),
    ensures
        appended(s, id).len() == s.len() + 1,
        appended(s, id).last() == (Slot { id, position: s.len() as int }),
        forall|i: int| 0 <= i < s.len() ==> appended(s, id)[i] == s[i],
        dense(appended(s, id)),
{
    let t = appended(s, id);
    lemma_dense_next_position(s);
    lemma_dense_iff(s);
    lemma_dense_iff(t);
    assert forall|i: int| 0 <= i < t.len() implies 0 <= (#[trigger] t[i]).position < t.len() by {
        if i < s.len() {
            assert(t[i] == s[i]);
        }
    }
    assert forall|i: int, j: int| 0 <= i < t.len() && 0 <= j < t.len() && i != j implies (
    #[trigger] t[i]).position != (#[trigger] t[j]).position by {
        if i < s.len() {
            assert(t[i] == s[i]);
        }
        if j < s.len() {
            assert(t[j] == s[j]);
        }
    }
}

/// Creating a member under an id that the scope does not hold leaves the
/// ids of the scope distinct.
pub proof fn lemma_create_keeps_ids_distinct(s: Seq<Slot>, id: Seq<char>)
    requires
        distinct_ids(s),
        !has_member(s, id),
    ensures
        distinct_ids(appended(s, id)),
{
    let t = appended(s, id);
    assert forall|i: int, j: int| 0 <= i < t.len() && 0 <= j < t.len() && i != j implies (
    #[trigger] t[i]).id != (#[trigger] t[j]).id by {
        if i < s.len() {
            assert(t[i] == s[i]);
        }
        if j < s.len() {
            assert(t[j] == s[j]);
        }
    }
}

/// Members created one after the other in a fresh scope stand at
/// `0, 1, 2, ..` in the order of their creation.
pub proof fn lemma_created_in_order(ids: Seq<Seq<char>>)
    ensures
        created(ids).len() == ids.len(),
        forall|i: int|
            0 <= i < ids.len() ==> #[trigger] created(ids)[i] == (Slot {
                id: ids[i],
                position: i,
            }),
        dense(created(ids)),
    decreases ids.len(),
{
    if ids.len() == 0 {
        lemma_dense_iff(created(ids));
    } else {
        let front = ids.drop_last();
        lemma_created_in_order(front);
        lemma_create_keeps_dense(created(front), ids.last());
        assert forall|i: int| 0 <= i < ids.len() implies #[trigger] created(ids)[i] == (Slot {
            id: ids[i],
            position: i,
        }) by {
            if i < front.len() {
                assert(created(ids)[i] == created(front)[i]);
                assert(front[i] == ids[i]);
            }
        }
    }
}

/// Two members created one after the other in a dense scope get different
/// positions: the second stands right behind the first.
pub proof fn lemma_successive_creations_differ(s: Seq<Slot>, first: Seq<char>, second: Seq<char>)
    requires
        dense(s),
    ensures
        next_position_of(s) == s.len(),
        next_position_of(appended(s, first)) == s.len() + 1,
        dense(appended(appended(s, first), second)),
{
    lemma_dense_next_position(s);
    lemma_create_keeps_dense(s, first);
    lemma_dense_next_position(appended(s, first));
    lemma_create_keeps_dense(appended(s, first), second);
}

/// Closing the gap before a member leaves, or after it has left, gives the
/// same scope.
pub proof fn lemma_compact_then_remove(s: Seq<Slot>, i: int)
    requires
        0 <= i < s.len(),
    ensures
        compacted(s, s[i].position).remove(i) == deleted(s, i),
{
    assert(compacted(s, s[i].position).remove(i) =~= deleted(s, i));
}

/// Deleting a member of a dense scope of `n` members leaves a dense scope
/// of `n - 1` members, in which the others stand in the order in which they
/// stood.
pub proof fn lemma_delete_keeps_dense(s: Seq<Slot>, i: int)
    requires
        dense(s),
        0 <= i < s.len(),
    ensures
        deleted(s, i).len() == s.len() - 1,
        dense(deleted(s, i)),
        forall|a: int|
            0 <= a < s.len() - 1 ==> (#[trigger] deleted(s, i)[a]).id == s.remove(i)[a].id,
        forall|a: int, b: int|
            0 <= a < s.len() - 1 && 0 <= b < s.len() - 1 ==> ((#[trigger] deleted(
                s,
                i,
            )[a]).position < (#[trigger] deleted(s, i)[b]).position <==> s.remove(i)[a].position
                < s.remove(i)[b].position),
{
    let rest = s.remove(i);
    let t = deleted(s, i);
    let gap = s[i].position;
    lemma_dense_iff(s);
    lemma_dense_iff(t);
    assert forall|a: int| 0 <= a < rest.len() implies 0 <= (#[trigger] rest[a]).position < s.len()
        && rest[a].position != gap by {
        if a < i {
            assert(rest[a] == s[a]);
        } else {
            assert(rest[a] == s[a + 1]);
        }
    }
    assert forall|a: int, b: int| 0 <= a < rest.len() && 0 <= b < rest.len() && a != b implies (
    #[trigger] rest[a]).position != (#[trigger] rest[b]).position by {
        let a0 = if a < i {
            a
        } else {
            a + 1
        };
        let b0 = if b < i {
            b
        } else {
            b + 1
        };
        assert(rest[a] == s[a0] && rest[b] == s[b0]);
    }
    assert forall|a: int| 0 <= a < t.len() implies 0 <= (#[trigger] t[a]).position < t.len() by {
        assert(0 <= rest[a].position < s.len() && rest[a].position != gap);
    }
    assert forall|a: int, b: int| 0 <= a < t.len() && 0 <= b < t.len() && a != b implies (
    #[trigger] t[a]).position != (#[trigger] t[b]).position by {
        assert(rest[a].position != gap && rest[b].position != gap);
        assert(rest[a].position != rest[b].position);
    }
    assert forall|a: int, b: int| 0 <= a < s.len() - 1 && 0 <= b < s.len() - 1 implies ((
    #[trigger] t[a]).position < (#[trigger] t[b]).position <==> rest[a].position
        < rest[b].position) by {
        assert(rest[a].position != gap && rest[b].position != gap);
    }
}

/// Deleting a member leaves the ids of the others distinct.
pub proof fn lemma_delete_keeps_ids_distinct(s: Seq<Slot>, i: int)
    requires
        distinct_ids(s),
        0 <= i < s.len(),
    ensures
        distinct_ids(deleted(s, i)),
        distinct_ids(s.remove(i)),
{
    let rest = s.remove(i);
    let t = deleted(s, i);
    assert forall|a: int, b: int| 0 <= a < rest.len() && 0 <= b < rest.len() && a != b implies (
    #[trigger] rest[a]).id != (#[trigger] rest[b]).id by {
        let a0 = if a < i {
            a
        } else {
            a + 1
        };
        let b0 = if b < i {
            b
        } else {
            b + 1
        };
        assert(rest[a] == s[a0] && rest[b] == s[b0]);
    }
    assert forall|a: int, b: int| 0 <= a < t.len() && 0 <= b < t.len() && a != b implies (
    #[trigger] t[a]).id != (#[trigger] t[b]).id by {
        assert(t[a].id == rest[a].id && t[b].id == rest[b].id);
    }
}

/// Moving the member at index `i` of a dense scope `source` of `a` members
/// to a dense scope `destination` of `b` members, which does not hold it,
/// leaves the first dense with `a - 1` members, and the second dense with
/// `b + 1` members, the moved member standing at position `b`.
pub proof fn lemma_move_keeps_dense(source: Seq<Slot>, i: int, destination: Seq<Slot>)
    requires
        dense(source),
        dense(destination),
        0 <= i < source.len(),
        !has_member(destination, source[i].id),
    ensures
        without(destination, source[i].id) == destination,
        compacted(source, source[i].position).remove(i) == deleted(source, i),
        deleted(source, i).len() == source.len() - 1,
        dense(deleted(source, i)),
        next_position_of(destination) == destination.len(),
        appended(destination, source[i].id).len() == destination.len() + 1,
        appended(destination, source[i].id).last() == (Slot {
            id: source[i].id,
            position: destination.len() as int,
        }),
        dense(appended(destination, source[i].id)),
{
    lemma_compact_then_remove(source, i);
    lemma_delete_keeps_dense(source, i);
    lemma_without_absent(destination, source[i].id);
    lemma_dense_next_position(destination);
    lemma_create_keeps_dense(destination, source[i].id);
}

/// Moving the member at index `i` of a dense scope of `n` members to the
/// end of that same scope leaves the scope dense with `n` members: the gap
/// is closed, the next position is taken from the other members, and the
/// member stands there, at `n - 1`.
pub proof fn lemma_move_within_keeps_dense(source: Seq<Slot>, i: int)
    requires
        dense(source),
        distinct_ids(source),
        0 <= i < source.len(),
    ensures
        without(compacted(source, source[i].position), source[i].id) == deleted(source, i),
        next_position_of(deleted(source, i)) == source.len() - 1,
        compacted(source, source[i].position).remove(i).push(
            Slot { id: source[i].id, position: next_position_of(deleted(source, i)) },
        ) == appended(deleted(source, i), source[i].id),
        appended(deleted(source, i), source[i].id).len() == source.len(),
        dense(appended(deleted(source, i), source[i].id)),
        distinct_ids(appended(deleted(source, i), source[i].id)),
{
    let closed = compacted(source, source[i].position);
    let rest = deleted(source, i);
    lemma_compact_then_remove(source, i);
    lemma_delete_keeps_dense(source, i);
    lemma_delete_keeps_ids_distinct(source, i);
    lemma_dense_next_position(rest);
    assert forall|a: int, b: int|
        0 <= a < closed.len() && 0 <= b < closed.len() && a != b implies (#[trigger] closed[a]).id
        != (#[trigger] closed[b]).id by {
        assert(closed[a].id == source[a].id && closed[b].id == source[b].id);
    }
    assert(closed[i].id == source[i].id);
    lemma_without_member(closed, i);
    assert(!has_member(rest, source[i].id)) by {
        if has_member(rest, source[i].id) {
            let k = choose|k: int| 0 <= k < rest.len() && (#[trigger] rest[k]).id == source[i].id;
            let k0 = if k < i {
                k
            } else {
                k + 1
            };
            assert(source.remove(i)[k] == source[k0]);
            assert(rest[k].id == source[k0].id);
            assert(source[k0].id != source[i].id);
        }
    }
    lemma_create_keeps_dense(rest, source[i].id);
    lemma_create_keeps_ids_distinct(rest, source[i].id);
}

/// A list of all members has as many ids as the scope has members.
pub proof fn lemma_list_of_all_members_len(ids: Seq<Seq<char>>, s: Seq<Slot>)
    requires
        distinct_ids(s),
        lists_all_members(ids, s),
    ensures
        ids.len() == s.len(),
{
    let held = member_ids(s);
    assert(held.no_duplicates()) by {
        assert forall|i: int, j: int| 0 <= i < held.len() && 0 <= j < held.len() && i != j implies
            held[i] != held[j] by {
            assert(held[i] == s[i].id && held[j] == s[j].id);
        }
    }
    assert(held.to_set() =~= ids.to_set()) by {
        assert forall|id: Seq<char>| held.to_set().contains(id) implies ids.to_set().contains(
            id,
        ) by {
            let i = choose|i: int| 0 <= i < held.len() && held[i] == id;
            assert(s[i].id == id);
        }
        assert forall|id: Seq<char>| ids.to_set().contains(id) implies held.to_set().contains(
            id,
        ) by {
            let k = choose|k: int| 0 <= k < ids.len() && ids[k] == id;
            assert(has_member(s, ids[k]));
            let i = choose|i: int| 0 <= i < s.len() && (#[trigger] s[i]).id == id;
            assert(held[i] == id);
        }
    }
    held.unique_seq_to_set();
    ids.unique_seq_to_set();
}

/// Reordering a scope by a list of all its members gives every member the
/// index of its id in the list as its position, and leaves the scope dense.
pub proof fn lemma_reorder_by_all_members(s: Seq<Slot>, ids: Seq<Seq<char>>)
    requires
        distinct_ids(s),
        lists_all_members(ids, s),
    ensures
        reordered(s, ids).len() == s.len(),
        forall|i: int|
            0 <= i < s.len() ==> (#[trigger] reordered(s, ids)[i]).id == s[i].id && 0
                <= reordered(s, ids)[i].position < ids.len() && ids[reordered(
                s,
                ids,
            )[i].position] == s[i].id,
        dense(reordered(s, ids)),
        distinct_ids(reordered(s, ids)),
{
    let t = reordered(s, ids);
    lemma_list_of_all_members_len(ids, s);
    assert forall|i: int| 0 <= i < s.len() implies (#[trigger] t[i]).id == s[i].id && 0
        <= t[i].position < ids.len() && ids[t[i].position] == s[i].id by {
        lemma_last_index_of(ids, s[i].id);
        assert(ids.contains(s[i].id));
    }
    lemma_dense_iff(t);
    assert forall|i: int, j: int| 0 <= i < t.len() && 0 <= j < t.len() && i != j implies (
    #[trigger] t[i]).position != (#[trigger] t[j]).position by {
        assert(ids[t[i].position] == s[i].id);
        assert(ids[t[j].position] == s[j].id);
    }
    assert forall|i: int, j: int| 0 <= i < t.len() && 0 <= j < t.len() && i != j implies (
    #[trigger] t[i]).id != (#[trigger] t[j]).id by {
        assert(t[i].id == s[i].id && t[j].id == s[j].id);
    }
}

} // verus!
