//! The position index of one scope.
//!
//! A scope is a set of records that are ranked among themselves: all
//! categories, or the memos of one category. Each member holds its rank as a
//! position, and the positions of a scope are meant to be dense: `0` to
//! `n - 1` for `n` members, each taken once.

use vstd::prelude::*;
use vstd::set_lib::{lemma_int_range, lemma_subset_equality, set_int_range};

verus! {

/// What the index knows of one member: who it is and where it stands.
pub struct Slot {
    pub id: Seq<char>,
    pub position: int,
}

/// A member of a scope as it is stored.
#[derive(Debug, Clone, PartialEq, Eq)]
pub struct Member {
    pub id: String,
    pub position: i64,
}

impl View for Member {
    type V = Slot;

    open spec fn view(&self) -> Slot {
        Slot { id: self.id@, position: self.position as int }
    }
}

/// The members of one scope, in the order in which they were read.
#[derive(Debug, Clone, PartialEq, Eq)]
pub struct Scope {
    pub members: Vec<Member>,
}

impl View for Scope {
    type V = Seq<Slot>;

    open spec fn view(&self) -> Seq<Slot> {
        self.members@.map_values(|m: Member| m@)
    }
}

/// The positions of the members, member by member.
pub open spec fn positions(s: Seq<Slot>) -> Seq<int> {
    s.map_values(|m: Slot| m.position)
}

/// The positions are exactly `0, 1, .., s.len() - 1`, and no two members
/// share one.
pub open spec fn dense(s: Seq<Slot>) -> bool {
    &&& positions(s).no_duplicates()
    &&& positions(s).to_set() == set_int_range(0, s.len() as int)
}

/// Every position lies in `0 .. s.len()`.
pub open spec fn within_bounds(s: Seq<Slot>) -> bool {
    forall|i: int| 0 <= i < s.len() ==> 0 <= (#[trigger] s[i]).position < s.len()
}

/// No two members share a position.
pub open spec fn distinct_positions(s: Seq<Slot>) -> bool {
    forall|i: int, j: int|
        0 <= i < s.len() && 0 <= j < s.len() && i != j ==> (#[trigger] s[i]).position != (
        #[trigger] s[j]).position
}

/// No two members share an id.
pub open spec fn distinct_ids(s: Seq<Slot>) -> bool {
    forall|i: int, j: int|
        0 <= i < s.len() && 0 <= j < s.len() && i != j ==> (#[trigger] s[i]).id != (
        #[trigger] s[j]).id
}

/// The greatest position in a scope that is not empty.
pub open spec fn highest_position(s: Seq<Slot>) -> int
    recommends
        s.len() > 0,
    decreases s.len(),
{
    if s.len() == 0 {
        0
    } else if s.len() == 1 {
        s[0].position
    } else {
        let before = highest_position(s.drop_last());
        if s.last().position > before {
            s.last().position
        } else {
            before
        }
    }
}

/// The position that a new member of the scope gets: one past the greatest,
/// or `0` in an empty scope.
pub open spec fn next_position_of(s: Seq<Slot>) -> int {
    if s.len() == 0 {
        0
    } else {
        highest_position(s) + 1
    }
}

/// The member `m` after the member at position `removed` has left its scope.
pub open spec fn closed_up(m: Slot, removed: int) -> Slot {
    if m.position > removed {
        Slot { id: m.id, position: m.position - 1 }
    } else {
        m
    }
}

/// The scope with the gap at position `removed` closed: every member above
/// it stands one lower, the others stand where they stood.
pub open spec fn compacted(s: Seq<Slot>, removed: int) -> Seq<Slot> {
    s.map_values(|m: Slot| closed_up(m, removed))
}

/// The index of the last occurrence of `id` in `ids`.
pub open spec fn last_index_of(ids: Seq<Seq<char>>, id: Seq<char>) -> Option<int>
    decreases ids.len(),
{
    if ids.len() == 0 {
        None
    } else if ids.last() == id {
        Some(ids.len() - 1)
    } else {
        last_index_of(ids.drop_last(), id)
    }
}

/// The member `m` after a reorder by `ids`: where the list names it, it
/// stands at the index of its last occurrence; else it stands where it stood.
pub open spec fn placed(m: Slot, ids: Seq<Seq<char>>) -> Slot {
    match last_index_of(ids, m.id) {
        Some(index) => Slot { id: m.id, position: index },
        None => m,
    }
}

/// The scope after a reorder by `ids`.
pub open spec fn reordered(s: Seq<Slot>, ids: Seq<Seq<char>>) -> Seq<Slot> {
    s.map_values(|m: Slot| placed(m, ids))
}

/// The members of `after` that stand elsewhere than they stand in `before`,
/// member by member, in the order of `after`. The two scopes hold the same
/// members in the same order.
pub open spec fn displaced(before: Seq<Slot>, after: Seq<Slot>) -> Seq<Slot>
    recommends
        before.len() == after.len(),
    decreases after.len(),
{
    if after.len() == 0 || before.len() != after.len() {
        Seq::<Slot>::empty()
    } else {
        let front = displaced(before.drop_last(), after.drop_last());
        if after.last().position != before.last().position {
            front.push(after.last())
        } else {
            front
        }
    }
}

/// The members that the list `ids` names, in the order of the scope.
pub open spec fn named(s: Seq<Slot>, ids: Seq<Seq<char>>) -> Seq<Slot> {
    s.filter(|m: Slot| ids.contains(m.id))
}

/// The position that the last of `writes` for the id `id` carries.
pub open spec fn last_written(writes: Seq<Slot>, id: Seq<char>) -> Option<int>
    decreases writes.len(),
{
    if writes.len() == 0 {
        None
    } else if writes.last().id == id {
        Some(writes.last().position)
    } else {
        last_written(writes.drop_last(), id)
    }
}

/// The member `m` after `writes` were applied one after the other, each
/// giving the member of its id its position.
pub open spec fn rewritten(m: Slot, writes: Seq<Slot>) -> Slot {
    match last_written(writes, m.id) {
        Some(position) => Slot { id: m.id, position },
        None => m,
    }
}

/// The scope after `writes` were applied to it.
pub open spec fn written(s: Seq<Slot>, writes: Seq<Slot>) -> Seq<Slot> {
    s.map_values(|m: Slot| rewritten(m, writes))
}

/// The scope without the members that have the id `id`.
pub open spec fn without(s: Seq<Slot>, id: Seq<char>) -> Seq<Slot> {
    s.filter(|m: Slot| m.id != id)
}

/// The views of the members of a list.
pub open spec fn slots(members: Seq<Member>) -> Seq<Slot> {
    members.map_values(|m: Member| m@)
}

/// The ids of a list, as the index compares them.
pub open spec fn id_views(ids: Seq<String>) -> Seq<Seq<char>> {
    ids.map_values(|id: String| id@)
}

/// `last_index_of` finds an occurrence, and none follows it.
pub proof fn lemma_last_index_of(ids: Seq<Seq<char>>, id: Seq<char>)
    ensures
        match last_index_of(ids, id) {
            Some(index) => 0 <= index < ids.len() && ids[index] == id && forall|k: int|
                index < k < ids.len() ==> ids[k] != id,
            None => forall|k: int| 0 <= k < ids.len() ==> ids[k] != id,
        },
    decreases ids.len(),
{
    if ids.len() > 0 && ids.last() != id {
        let front = ids.drop_last();
        lemma_last_index_of(front, id);
        assert(forall|k: int| 0 <= k < front.len() ==> front[k] == ids[k]);
    }
}

/// The greatest position is the position of a member, and no member stands
/// higher.
pub proof fn lemma_highest_position(s: Seq<Slot>)
    requires
        s.len() > 0,
    ensures
        exists|i: int| 0 <= i < s.len() && (#[trigger] s[i]).position == highest_position(s),
        forall|i: int| 0 <= i < s.len() ==> (#[trigger] s[i]).position <= highest_position(s),
    decreases s.len(),
{
    if s.len() == 1 {
        assert(s[0].position == highest_position(s));
    } else {
        let front = s.drop_last();
        lemma_highest_position(front);
        let w = choose|i: int| 0 <= i < front.len() && (#[trigger] front[i]).position
            == highest_position(front);
        assert(s[w] == front[w]);
        if s.last().position > highest_position(front) {
            assert(s[s.len() - 1].position == highest_position(s));
        } else {
            assert(s[w].position == highest_position(s));
        }
        assert forall|i: int| 0 <= i < s.len() implies (#[trigger] s[i]).position
            <= highest_position(s) by {
            if i < front.len() {
                assert(s[i] == front[i]);
            }
        }
    }
}

/// A scope is dense exactly when its positions lie within bounds and differ
/// from one another.
pub proof fn lemma_dense_iff(s: Seq<Slot>)
    ensures
        dense(s) <==> within_bounds(s) && distinct_positions(s),
{
    let p = positions(s);
    let range = set_int_range(0, s.len() as int);
    if dense(s) {
        assert forall|i: int| 0 <= i < s.len() implies 0 <= (#[trigger] s[i]).position
            < s.len() by {
            assert(p[i] == s[i].position);
            assert(p.to_set().contains(p[i]));
        }
        assert forall|i: int, j: int| 0 <= i < s.len() && 0 <= j < s.len() && i != j implies (
        #[trigger] s[i]).position != (#[trigger] s[j]).position by {
            assert(p[i] == s[i].position && p[j] == s[j].position);
        }
    }
    if within_bounds(s) && distinct_positions(s) {
        assert(p.no_duplicates()) by {
            assert forall|i: int, j: int| 0 <= i < p.len() && 0 <= j < p.len() && i != j implies
                p[i] != p[j] by {
                assert(p[i] == s[i].position && p[j] == s[j].position);
            }
        }
        assert(p.to_set().subset_of(range)) by {
            assert forall|k: int| p.to_set().contains(k) implies range.contains(k) by {
                let i = choose|i: int| 0 <= i < p.len() && p[i] == k;
                assert(p[i] == s[i].position);
            }
        }
        lemma_int_range(0, s.len() as int);
        p.unique_seq_to_set();
        vstd::set_lib::lemma_set_subset_finite(range, p.to_set());
        lemma_subset_equality(p.to_set(), range);
    }
}

/// In a dense scope every position below the number of members is taken.
pub proof fn lemma_dense_covers(s: Seq<Slot>, k: int)
    requires
        dense(s),
        0 <= k < s.len(),
    ensures
        exists|i: int| 0 <= i < s.len() && (#[trigger] s[i]).position == k,
{
    let p = positions(s);
    assert(set_int_range(0, s.len() as int).contains(k));
    assert(p.to_set().contains(k));
    let i = choose|i: int| 0 <= i < p.len() && p[i] == k;
    assert(s[i].position == k);
}

/// A new member of a dense scope gets the number of its members as its
/// position.
pub proof fn lemma_dense_next_position(s: Seq<Slot>)
    requires
        dense(s),
    ensures
        next_position_of(s) == s.len(),
{
    if s.len() > 0 {
        lemma_dense_iff(s);
        lemma_highest_position(s);
        lemma_dense_covers(s, s.len() - 1);
    }
}

/// A dense scope as it is stored has at most one member more than there
/// are positions below the greatest that can be stored; only a scope of
/// that very size has no position left for a new member.
pub proof fn lemma_dense_members_fit(members: Seq<Member>)
    requires
        dense(slots(members)),
    ensures
        members.len() <= i64::MAX + 1,
        next_position_of(slots(members)) == members.len(),
        members.len() <= i64::MAX ==> next_position_of(slots(members)) <= i64::MAX,
{
    let s = slots(members);
    lemma_dense_next_position(s);
    if s.len() > 0 {
        lemma_dense_covers(s, s.len() - 1);
        let i = choose|i: int| 0 <= i < s.len() && (#[trigger] s[i]).position == s.len() - 1;
        assert(s[i].position == members[i].position as int);
    }
}

impl Scope {
    /// The position for a new member: one past the greatest position, or `0`
    /// where the scope is empty; in a dense scope, the number of its members.
    /// `None` where that position is past the greatest that can be stored.
    pub fn next_position(&self) -> (r: Option<i64>)
        ensures
            next_position_of(self@) <= i64::MAX ==> r == Some(next_position_of(self@) as i64),
            next_position_of(self@) > i64::MAX ==> r.is_none(),
            dense(self@) ==> next_position_of(self@) == self@.len(),
    {
        proof {
            if dense(self@) {
                lemma_dense_next_position(self@);
            }
        }
        let n = self.members.len();
        if n == 0 {
            return Some(0);
        }
        let mut highest: i64 = self.members[0].position;
        let mut i: usize = 1;
        assert(self@.take(1) =~= seq![self@[0]]);
        while i < n
            invariant
                1 <= i <= n,
                n == self.members@.len(),
                highest == highest_position(self@.take(i as int)),
            decreases n - i,
        {
            assert(self@.take(i + 1).drop_last() =~= self@.take(i as int));
            assert(self@.take(i + 1).last() == self@[i as int]);
            if self.members[i].position > highest {
                highest = self.members[i].position;
            }
            i += 1;
        }
        assert(self@.take(n as int) =~= self@);
        if highest == i64::MAX {
            None
        } else {
            Some(highest + 1)
        }
    }

    /// Closes the gap that the member at `removed_position` left: every
    /// member above it moves down by one, the others stay.
    pub fn compact_after_delete(&mut self, removed_position: i64)
        ensures
            final(self)@ == compacted(old(self)@, removed_position as int),
    {
        let n = self.members.len();
        let mut i: usize = 0;
        while i < n
            invariant
                i <= n,
                n == self.members@.len(),
                n == old(self).members@.len(),
                forall|j: int| 0 <= j < i ==> (#[trigger] self.members@[j])@ == closed_up(
                    old(self).members@[j]@,
                    removed_position as int,
                ),
                forall|j: int| i <= j < n ==> (#[trigger] self.members@[j]) == old(
                    self,
                ).members@[j],
            decreases n - i,
        {
            let position = self.members[i].position;
            if position > removed_position {
                let id = self.members[i].id.clone();
                self.members.set(i, Member { id, position: position - 1 });
            }
            i += 1;
        }
        assert(self@ =~= compacted(old(self)@, removed_position as int));
    }

    /// Ranks the members by `ordered_ids`: a member that the list names
    /// takes the index at which the list names it last; a member that the
    /// list leaves out stays where it is.
    pub fn reorder(&mut self, ordered_ids: &Vec<String>)
        requires
            ordered_ids@.len() <= i64::MAX,
        ensures
            final(self)@ == reordered(old(self)@, id_views(ordered_ids@)),
    {
        let n = self.members.len();
        let mut i: usize = 0;
        while i < n
            invariant
                i <= n,
                n == self.members@.len(),
                n == old(self).members@.len(),
                ordered_ids@.len() <= i64::MAX,
                forall|j: int| 0 <= j < i ==> (#[trigger] self.members@[j])@ == placed(
                    old(self).members@[j]@,
                    id_views(ordered_ids@),
                ),
                forall|j: int| i <= j < n ==> (#[trigger] self.members@[j]) == old(
                    self,
                ).members@[j],
            decreases n - i,
        {
            proof {
                lemma_last_index_of(id_views(ordered_ids@), self.members@[i as int].id@);
            }
            match find_last(ordered_ids, &self.members[i].id) {
                Some(index) => {
                    let id = self.members[i].id.clone();
                    self.members.set(i, Member { id, position: index as i64 });
                },
                None => {},
            }
            i += 1;
        }
        assert(self@ =~= reordered(old(self)@, id_views(ordered_ids@)));
    }

    /// Whether the positions are exactly `0` to `n - 1` for the `n` members.
    pub fn is_dense(&self) -> (r: bool)
        ensures
            r == dense(self@),
    {
        proof {
            lemma_dense_iff(self@);
        }
        let n = self.members.len();
        let mut i: usize = 0;
        while i < n
            invariant
                i <= n,
                n == self.members@.len(),
                dense(self@) <==> within_bounds(self@) && distinct_positions(self@),
                forall|a: int| 0 <= a < i ==> 0 <= (#[trigger] self@[a]).position < n,
                forall|a: int, b: int|
                    0 <= a < i && 0 <= b < a ==> (#[trigger] self@[a]).position != (
                    #[trigger] self@[b]).position,
            decreases n - i,
        {
            let position = self.members[i].position;
            if position < 0 || position as u64 >= n as u64 {
                assert(!(0 <= self@[i as int].position < self@.len()));
                return false;
            }
            let mut j: usize = 0;
            while j < i
                invariant
                    j <= i < n,
                    n == self.members@.len(),
                    position == self@[i as int].position,
                    dense(self@) <==> within_bounds(self@) && distinct_positions(self@),
                    forall|b: int| 0 <= b < j ==> (#[trigger] self@[b]).position != position,
                decreases i - j,
            {
                if self.members[j].position == position {
                    assert(self@[j as int].position == self@[i as int].position);
                    return false;
                }
                j += 1;
            }
            i += 1;
        }
        assert(distinct_positions(self@)) by {
            assert forall|a: int, b: int|
                0 <= a < self@.len() && 0 <= b < self@.len() && a != b implies (
            #[trigger] self@[a]).position != (#[trigger] self@[b]).position by {
                if b < a {
                } else {
                    assert(self@[b].position != self@[a].position);
                }
            }
        }
        true
    }

    /// The members whose position is not the one they have in `before`, a
    /// scope that holds the same members in the same order: the rows to
    /// write after a change of positions.
    pub fn displaced_since(&self, before: &Scope) -> (r: Vec<Member>)
        requires
            before@.len() == self@.len(),
        ensures
            slots(r@) == displaced(before@, self@),
    {
        let n = self.members.len();
        let mut out: Vec<Member> = Vec::new();
        let mut i: usize = 0;
        assert(self@.take(0) =~= Seq::<Slot>::empty());
        while i < n
            invariant
                i <= n,
                n == self.members@.len(),
                n == before.members@.len(),
                slots(out@) == displaced(before@.take(i as int), self@.take(i as int)),
            decreases n - i,
        {
            assert(self@.take(i + 1).drop_last() =~= self@.take(i as int));
            assert(before@.take(i + 1).drop_last() =~= before@.take(i as int));
            assert(self@.take(i + 1).last() == self@[i as int]);
            assert(before@.take(i + 1).last() == before@[i as int]);
            if self.members[i].position != before.members[i].position {
                let ghost earlier = slots(out@);
                let id = self.members[i].id.clone();
                out.push(Member { id, position: self.members[i].position });
                assert(slots(out@) =~= earlier.push(self@[i as int]));
            }
            i += 1;
        }
        assert(self@.take(n as int) =~= self@);
        assert(before@.take(n as int) =~= before@);
        out
    }

    /// The members that `ids` names: the rows to write after a reorder.
    pub fn named_by(&self, ids: &Vec<String>) -> (r: Vec<Member>)
        ensures
            slots(r@) == named(self@, id_views(ids@)),
    {
        let n = self.members.len();
        let mut out: Vec<Member> = Vec::new();
        let mut i: usize = 0;
        proof {
            reveal(Seq::filter);
            assert(self@.take(0) =~= Seq::<Slot>::empty());
            assert(slots(out@) =~= named(self@.take(0), id_views(ids@)));
        }
        while i < n
            invariant
                i <= n,
                n == self.members@.len(),
                slots(out@) == named(self@.take(i as int), id_views(ids@)),
            decreases n - i,
        {
            proof {
                let listed = |m: Slot| id_views(ids@).contains(m.id);
                reveal(Seq::filter);
                assert(self@.take(i + 1).drop_last() =~= self@.take(i as int));
                assert(self@.take(i + 1).last() == self@[i as int]);
                assert(self@.take(i + 1).filter(listed) == if listed(self@[i as int]) {
                    self@.take(i as int).filter(listed).push(self@[i as int])
                } else {
                    self@.take(i as int).filter(listed)
                });
                lemma_last_index_of(id_views(ids@), self@[i as int].id);
            }
            if find_last(ids, &self.members[i].id).is_some() {
                let ghost earlier = slots(out@);
                let id = self.members[i].id.clone();
                out.push(Member { id, position: self.members[i].position });
                assert(slots(out@) =~= earlier.push(self@[i as int]));
            }
            i += 1;
        }
        assert(self@.take(n as int) =~= self@);
        out
    }

    /// The scope without the members that have the id `id`: the scope that
    /// a member meets when it moves there.
    pub fn without(&self, id: &String) -> (r: Scope)
        ensures
            r@ == without(self@, id@),
    {
        let n = self.members.len();
        let mut members: Vec<Member> = Vec::new();
        let mut i: usize = 0;
        proof {
            reveal(Seq::filter);
            assert(self@.take(0) =~= Seq::<Slot>::empty());
            assert(slots(members@) =~= without(self@.take(0), id@));
        }
        while i < n
            invariant
                i <= n,
                n == self.members@.len(),
                slots(members@) == without(self@.take(i as int), id@),
            decreases n - i,
        {
            proof {
                let others = |m: Slot| m.id != id@;
                reveal(Seq::filter);
                assert(self@.take(i + 1).drop_last() =~= self@.take(i as int));
                assert(self@.take(i + 1).last() == self@[i as int]);
                assert(self@.take(i + 1).filter(others) == if others(self@[i as int]) {
                    self@.take(i as int).filter(others).push(self@[i as int])
                } else {
                    self@.take(i as int).filter(others)
                });
            }
            if self.members[i].id != *id {
                let ghost earlier = slots(members@);
                let kept = self.members[i].id.clone();
                members.push(Member { id: kept, position: self.members[i].position });
                assert(slots(members@) =~= earlier.push(self@[i as int]));
            }
            i += 1;
        }
        assert(self@.take(n as int) =~= self@);
        Scope { members }
    }

    /// The members to write after the member at `removed_position` has left
    /// the scope: those that stand above it, each one lower. Written to a
    /// scope of distinct ids, they close the gap.
    pub fn compaction_writes(&self, removed_position: i64) -> (r: Vec<Member>)
        ensures
            slots(r@) == displaced(self@, compacted(self@, removed_position as int)),
            distinct_ids(self@) ==> written(self@, slots(r@)) == compacted(
                self@,
                removed_position as int,
            ),
    {
        proof {
            if distinct_ids(self@) {
                crate::density::lemma_compaction_writes_close_the_gap(
                    self@,
                    removed_position as int,
                );
            }
        }
        let mut after = self.snapshot();
        after.compact_after_delete(removed_position);
        after.displaced_since(self)
    }

    /// The members to write after a reorder by `ordered_ids`: those that the
    /// list names, each at the index at which the list names it last.
    /// Written to a scope of distinct ids, they rank it by the list.
    pub fn reorder_writes(&self, ordered_ids: &Vec<String>) -> (r: Vec<Member>)
        requires
            ordered_ids@.len() <= i64::MAX,
        ensures
            slots(r@) == named(
                reordered(self@, id_views(ordered_ids@)),
                id_views(ordered_ids@),
            ),
            distinct_ids(self@) ==> written(self@, slots(r@)) == reordered(
                self@,
                id_views(ordered_ids@),
            ),
    {
        proof {
            if distinct_ids(self@) {
                crate::density::lemma_reorder_writes_rank(self@, id_views(ordered_ids@));
            }
        }
        let mut after = self.snapshot();
        after.reorder(ordered_ids);
        after.named_by(ordered_ids)
    }

    /// A copy of the scope.
    pub fn snapshot(&self) -> (r: Scope)
        ensures
            r@ == self@,
    {
        let n = self.members.len();
        let mut members: Vec<Member> = Vec::new();
        let mut i: usize = 0;
        while i < n
            invariant
                i <= n,
                n == self.members@.len(),
                members@.len() == i,
                forall|j: int| 0 <= j < i ==> (#[trigger] members@[j])@ == self@[j],
            decreases n - i,
        {
            let id = self.members[i].id.clone();
            members.push(Member { id, position: self.members[i].position });
            i += 1;
        }
        let r = Scope { members };
        assert(r@ =~= self@);
        r
    }
}

/// The index at which `ids` names `id` last.
pub fn find_last(ids: &Vec<String>, id: &String) -> (r: Option<usize>)
    ensures
        match r {
            Some(index) => last_index_of(id_views(ids@), id@) == Some(index as int),
            None => last_index_of(id_views(ids@), id@).is_none(),
        },
{
    let mut i: usize = ids.len();
    assert(id_views(ids@).take(i as int) =~= id_views(ids@));
    while i > 0
        invariant
            i <= ids@.len(),
            last_index_of(id_views(ids@), id@) == last_index_of(
                id_views(ids@).take(i as int),
                id@,
            ),
        decreases i,
    {
        let ghost prefix = id_views(ids@).take(i as int);
        assert(prefix.last() == ids@[i - 1]@);
        assert(prefix.drop_last() =~= id_views(ids@).take(i - 1));
        if ids[i - 1] == *id {
            return Some(i - 1);
        }
        i -= 1;
    }
    None
}

} // verus!
