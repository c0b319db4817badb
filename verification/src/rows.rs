//! Reading records from the rows of a query.
//!
//! A row comes as its text columns followed by its integer columns. Each
//! reader accepts the rows of one shape and refuses every other.

use crate::models::{AppSettings, Category, Memo};
use crate::position::{Member, Scope};
use crate::sqlite::Record;
use vstd::prelude::*;

verus! {

/// The columns of a category, texts first: id, emoji, title, color; then
/// position, archived, is_todo, is_collapsed, created_at, updated_at.
pub open spec fn is_category_row(row: Record) -> bool {
    row.texts@.len() == 4 && row.integers@.len() == 6
}

/// The category that a row of that shape holds. A flag is set where its
/// column is not `0`.
pub open spec fn category_of(row: Record) -> Category {
    Category {
        id: row.texts@[0],
        emoji: row.texts@[1],
        title: row.texts@[2],
        color: row.texts@[3],
        position: row.integers@[0],
        archived: row.integers@[1] != 0,
        is_todo: row.integers@[2] != 0,
        is_collapsed: row.integers@[3] != 0,
        created_at: row.integers@[4],
        updated_at: row.integers@[5],
    }
}

/// The columns of a memo, texts first: id, category_id, emoji, title, color,
/// date_ymd, content_md; then todo_done, position, created_at, updated_at.
pub open spec fn is_memo_row(row: Record) -> bool {
    row.texts@.len() == 7 && row.integers@.len() == 4
}

/// The memo that a row of that shape holds.
pub open spec fn memo_of(row: Record) -> Memo {
    Memo {
        id: row.texts@[0],
        category_id: row.texts@[1],
        emoji: row.texts@[2],
        title: row.texts@[3],
        color: row.texts@[4],
        date_ymd: row.texts@[5],
        content_md: row.texts@[6],
        todo_done: row.integers@[0] != 0,
        position: row.integers@[1],
        created_at: row.integers@[2],
        updated_at: row.integers@[3],
    }
}

/// The columns of a member of a scope: its id, then its position.
pub open spec fn is_member_row(row: Record) -> bool {
    row.texts@.len() == 1 && row.integers@.len() == 1
}

/// The member that a row of that shape holds.
pub open spec fn member_of(row: Record) -> Member {
    Member { id: row.texts@[0], position: row.integers@[0] }
}

/// Reads a category from a row; `None` for a row of another shape.
pub fn row_to_category(row: &Record) -> (r: Option<Category>)
    ensures
        r == if is_category_row(*row) {
            Some(category_of(*row))
        } else {
            None
        },
{
    if row.texts.len() != 4 || row.integers.len() != 6 {
        return None;
    }
    Some(
        Category {
            id: row.texts[0].clone(),
            emoji: row.texts[1].clone(),
            title: row.texts[2].clone(),
            color: row.texts[3].clone(),
            position: row.integers[0],
            archived: row.integers[1] != 0,
            is_todo: row.integers[2] != 0,
            is_collapsed: row.integers[3] != 0,
            created_at: row.integers[4],
            updated_at: row.integers[5],
        },
    )
}

/// Reads a memo from a row; `None` for a row of another shape.
pub fn row_to_memo(row: &Record) -> (r: Option<Memo>)
    ensures
        r == if is_memo_row(*row) {
            Some(memo_of(*row))
        } else {
            None
        },
{
    if row.texts.len() != 7 || row.integers.len() != 4 {
        return None;
    }
    Some(
        Memo {
            id: row.texts[0].clone(),
            category_id: row.texts[1].clone(),
            emoji: row.texts[2].clone(),
            title: row.texts[3].clone(),
            color: row.texts[4].clone(),
            date_ymd: row.texts[5].clone(),
            content_md: row.texts[6].clone(),
            todo_done: row.integers[0] != 0,
            position: row.integers[1],
            created_at: row.integers[2],
            updated_at: row.integers[3],
        },
    )
}

/// Reads the memos of a result, row by row; `None` where a row has another
/// shape.
pub fn rows_to_memos(rows: &Vec<Record>) -> (r: Option<Vec<Memo>>)
    ensures
        r.is_some() <==> forall|i: int| 0 <= i < rows@.len() ==> is_memo_row(#[trigger] rows@[i]),
        r matches Some(memos) ==> memos@.len() == rows@.len() && forall|i: int|
            0 <= i < rows@.len() ==> #[trigger] memos@[i] == memo_of(rows@[i]),
{
    let mut memos: Vec<Memo> = Vec::new();
    let mut i: usize = 0;
    while i < rows.len()
        invariant
            i <= rows@.len(),
            memos@.len() == i,
            forall|j: int| 0 <= j < i ==> is_memo_row(#[trigger] rows@[j]),
            forall|j: int| 0 <= j < i ==> #[trigger] memos@[j] == memo_of(rows@[j]),
        decreases rows@.len() - i,
    {
        match row_to_memo(&rows[i]) {
            Some(memo) => {
                memos.push(memo);
            },
            None => {
                assert(!is_memo_row(rows@[i as int]));
                return None;
            },
        }
        i += 1;
    }
    Some(memos)
}

/// Reads the members of a scope from a result, row by row; `None` where a
/// row has another shape.
pub fn rows_to_scope(rows: &Vec<Record>) -> (r: Option<Scope>)
    ensures
        r.is_some() <==> forall|i: int|
            0 <= i < rows@.len() ==> is_member_row(#[trigger] rows@[i]),
        r matches Some(scope) ==> scope@.len() == rows@.len() && forall|i: int|
            0 <= i < rows@.len() ==> #[trigger] scope@[i] == member_of(rows@[i])@,
{
    let mut members: Vec<Member> = Vec::new();
    let mut i: usize = 0;
    while i < rows.len()
        invariant
            i <= rows@.len(),
            members@.len() == i,
            forall|j: int| 0 <= j < i ==> is_member_row(#[trigger] rows@[j]),
            forall|j: int| 0 <= j < i ==> #[trigger] members@[j] == member_of(rows@[j]),
        decreases rows@.len() - i,
    {
        let row = &rows[i];
        if row.texts.len() != 1 || row.integers.len() != 1 {
            assert(!is_member_row(rows@[i as int]));
            return None;
        }
        members.push(Member { id: row.texts[0].clone(), position: row.integers[0] });
        i += 1;
    }
    Some(Scope { members })
}

/// Where a memo stands: the id of its category and its position there.
/// `None` where the result has no row, or its first row has another shape.
pub fn first_placement(rows: &Vec<Record>) -> (r: Option<(String, i64)>)
    ensures
        r == if rows@.len() > 0 && is_member_row(rows@[0]) {
            Some((rows@[0].texts@[0], rows@[0].integers@[0]))
        } else {
            None
        },
{
    if rows.len() > 0 && rows[0].texts.len() == 1 && rows[0].integers.len() == 1 {
        Some((rows[0].texts[0].clone(), rows[0].integers[0]))
    } else {
        None
    }
}

/// The settings that a query for the background color gives: the text of
/// its first row, or the empty text where it has no row or no text.
pub fn settings_of(rows: &Vec<Record>) -> (r: AppSettings)
    ensures
        r.background_color@ == if rows@.len() > 0 && rows@[0].texts@.len() > 0 {
            rows@[0].texts@[0]@
        } else {
            Seq::<char>::empty()
        },
{
    if rows.len() > 0 && rows[0].texts.len() > 0 {
        AppSettings { background_color: rows[0].texts[0].clone() }
    } else {
        AppSettings { background_color: String::new() }
    }
}

} // verus!
