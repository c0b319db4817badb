//! What the store hands to the storage: the text of each statement and the
//! values bound to its parameters, the texts first, then the integers.

use crate::models::{
    CreateCategoryInput, CreateMemoInput, MoveMemoInput, SetBackgroundColorInput,
    SetCategoryArchivedInput, SetCategoryCollapsedInput, UpdateCategoryInput, UpdateMemoInput,
};
use crate::position::Member;
use crate::sqlite::Record;
use vstd::prelude::*;
use vstd::string::StringExecFns;

verus! {

/// One statement for the storage: its text, and the values for its
/// parameters.
#[derive(Debug, Clone, PartialEq, Eq)]
pub struct Request {
    pub sql: String,
    pub args: Record,
}

/// The texts of a record, as characters.
pub open spec fn texts_of(args: Record) -> Seq<Seq<char>> {
    args.texts@.map_values(|t: String| t@)
}

/// Whether the request has the text `sql` and binds `texts`, then
/// `integers`.
pub open spec fn holds(
    request: Request,
    sql: Seq<char>,
    texts: Seq<Seq<char>>,
    integers: Seq<i64>,
) -> bool {
    request.sql@ == sql && texts_of(request.args) == texts && request.args.integers@
        == integers
}

/// A flag as the storage holds it: `1` where it is set, else `0`.
pub open spec fn flag_of(flag: bool) -> i64 {
    if flag {
        1
    } else {
        0
    }
}

/// The text of an optional text: itself, or the empty text where there is
/// none.
pub open spec fn optional_text(text: Option<String>) -> Seq<char> {
    match text {
        Some(t) => t@,
        None => Seq::<char>::empty(),
    }
}

/// A flag as the storage holds it: `1` where it is set, else `0`.
pub fn flag_column(flag: bool) -> (r: i64)
    ensures
        r == flag_of(flag),
{
    if flag {
        1
    } else {
        0
    }
}

/// The text of an optional text: itself, or the empty text where there is
/// none.
pub fn text_or_empty(text: &Option<String>) -> (r: String)
    ensures
        r@ == optional_text(*text),
{
    match text {
        Some(t) => t.clone(),
        None => String::new(),
    }
}

/// Where a memo stands.
pub const MEMO_PLACEMENT: &'static str = "SELECT category_id, position FROM memos WHERE id = ?1";

/// One category, by its id.
pub const FETCH_CATEGORY: &'static str = "SELECT id, emoji, title, color, position, archived, is_todo, is_collapsed, created_at, updated_at
         FROM categories WHERE id = ?1";

/// One memo, by its id.
pub const FETCH_MEMO: &'static str = "SELECT id, category_id, emoji, title, color, date_ymd, content_md, todo_done, position, created_at, updated_at
         FROM memos WHERE id = ?1";

/// All categories, by position.
pub const ALL_CATEGORIES: &'static str = "SELECT id, emoji, title, color, position, archived, is_todo, is_collapsed, created_at, updated_at
         FROM categories
         ORDER BY position ASC";

/// The memos of one category, by position.
pub const MEMOS_OF_CATEGORY: &'static str = "SELECT id, category_id, emoji, title, color, date_ymd, content_md, todo_done, position, created_at, updated_at
             FROM memos
             WHERE category_id = ?1
             ORDER BY position ASC";

/// A new category: not archived, not collapsed.
pub const INSERT_CATEGORY: &'static str = "INSERT INTO categories (id, emoji, title, color, position, archived, is_todo, is_collapsed, created_at, updated_at)
         VALUES (?1, ?2, ?3, ?4, ?5, 0, ?6, 0, ?7, ?8)";

/// Emoji, title and color of a category.
pub const UPDATE_CATEGORY: &'static str = "UPDATE categories SET emoji = ?1, title = ?2, color = ?3, updated_at = ?5 WHERE id = ?4";

/// The archived flag of a category.
pub const SET_ARCHIVED: &'static str = "UPDATE categories SET archived = ?2, updated_at = ?3 WHERE id = ?1";

/// The collapsed flag of a category.
pub const SET_COLLAPSED: &'static str = "UPDATE categories SET is_collapsed = ?2, updated_at = ?3 WHERE id = ?1";

/// Deletes a category.
pub const DELETE_CATEGORY: &'static str = "DELETE FROM categories WHERE id = ?1";

/// Position and time of change of a category.
pub const RANK_CATEGORY: &'static str = "UPDATE categories SET position = ?2, updated_at = ?3 WHERE id = ?1";

/// Position and time of change of a memo.
pub const RANK_MEMO: &'static str = "UPDATE memos SET position = ?2, updated_at = ?3 WHERE id = ?1";

/// The position of a memo.
pub const PLACE_MEMO: &'static str = "UPDATE memos SET position = ?2 WHERE id = ?1";

/// The stored background color.
pub const BACKGROUND_COLOR: &'static str = "SELECT value FROM settings WHERE key = 'background_color'";

/// Stores the background color, in place of one stored before.
pub const SET_BACKGROUND_COLOR: &'static str = "INSERT INTO settings(key, value) VALUES('background_color', ?1)
         ON CONFLICT(key) DO UPDATE SET value = excluded.value";

/// A new memo, not done. An empty date becomes the local date of the time of creation.
pub const INSERT_MEMO: &'static str = "INSERT INTO memos (id, category_id, emoji, title, color, date_ymd, content_md, todo_done, position, created_at, updated_at)
         VALUES (
          ?1, ?2, ?3, ?4, ?5,
           COALESCE(NULLIF(?6, ''), strftime('%Y-%m-%d', ?9/1000, 'unixepoch', 'localtime')),
          ?7, 0, ?8, ?9, ?10
         )";

/// The fields of a memo that a user edits.
pub const UPDATE_MEMO: &'static str = "UPDATE memos
         SET emoji = ?1, title = ?2, color = ?3, date_ymd = ?4, content_md = ?5, todo_done = ?7, updated_at = ?8
         WHERE id = ?6";

/// Deletes a memo.
pub const DELETE_MEMO: &'static str = "DELETE FROM memos WHERE id = ?1";

/// Category, position and time of change of a memo.
pub const MOVE_MEMO: &'static str = "UPDATE memos SET category_id = ?2, position = ?3, updated_at = ?4 WHERE id = ?1";

/// Asks where the memo `memo_id` stands.
pub fn memo_placement_request(memo_id: &str) -> (r: Request)
    ensures
        holds(r, MEMO_PLACEMENT@, seq![memo_id@], seq![]),
{
    let r = Request {
        sql: String::from_str(MEMO_PLACEMENT),
        args: Record { texts: vec![String::from_str(memo_id)], integers: Vec::new() },
    };
    assert(texts_of(r.args) =~= seq![memo_id@]);
    assert(r.args.integers@ =~= seq![]);
    r
}

/// Asks for the category `id`.
pub fn fetch_category_request(id: &str) -> (r: Request)
    ensures
        holds(r, FETCH_CATEGORY@, seq![id@], seq![]),
{
    let r = Request {
        sql: String::from_str(FETCH_CATEGORY),
        args: Record { texts: vec![String::from_str(id)], integers: Vec::new() },
    };
    assert(texts_of(r.args) =~= seq![id@]);
    assert(r.args.integers@ =~= seq![]);
    r
}

/// Asks for the memo `id`.
pub fn fetch_memo_request(id: &str) -> (r: Request)
    ensures
        holds(r, FETCH_MEMO@, seq![id@], seq![]),
{
    let r = Request {
        sql: String::from_str(FETCH_MEMO),
        args: Record { texts: vec![String::from_str(id)], integers: Vec::new() },
    };
    assert(texts_of(r.args) =~= seq![id@]);
    assert(r.args.integers@ =~= seq![]);
    r
}

/// Asks for all categories.
pub fn all_categories_request() -> (r: Request)
    ensures
        holds(r, ALL_CATEGORIES@, seq![], seq![]),
{
    let r = Request {
        sql: String::from_str(ALL_CATEGORIES),
        args: Record { texts: Vec::new(), integers: Vec::new() },
    };
    assert(texts_of(r.args) =~= seq![]);
    assert(r.args.integers@ =~= seq![]);
    r
}

/// Asks for the memos of the category `category_id`.
pub fn memos_of_category_request(category_id: &str) -> (r: Request)
    ensures
        holds(r, MEMOS_OF_CATEGORY@, seq![category_id@], seq![]),
{
    let r = Request {
        sql: String::from_str(MEMOS_OF_CATEGORY),
        args: Record { texts: vec![String::from_str(category_id)], integers: Vec::new() },
    };
    assert(texts_of(r.args) =~= seq![category_id@]);
    assert(r.args.integers@ =~= seq![]);
    r
}

/// Creates the category `id` at `position`: its emoji, or none, its title
/// and color, the to-do flag, and `ts` as the time of creation and of the
/// last change.
pub fn insert_category_request(input: &CreateCategoryInput, id: &str, position: i64, ts: i64) -> (r: Request)
    ensures
        holds(r, INSERT_CATEGORY@, seq![id@, optional_text(input.emoji), input.title@, input.color@], seq![position, flag_of(input.is_todo), ts, ts]),
{
    let r = Request {
        sql: String::from_str(INSERT_CATEGORY),
        args: Record { texts: vec![String::from_str(id), text_or_empty(&input.emoji), input.title.clone(), input.color.clone()], integers: vec![position, flag_column(input.is_todo), ts, ts] },
    };
    assert(texts_of(r.args) =~= seq![id@, optional_text(input.emoji), input.title@, input.color@]);
    assert(r.args.integers@ =~= seq![position, flag_of(input.is_todo), ts, ts]);
    r
}

/// Writes emoji, title and color of a category, and `ts` as the time of the
/// change.
pub fn update_category_request(input: &UpdateCategoryInput, ts: i64) -> (r: Request)
    ensures
        holds(r, UPDATE_CATEGORY@, seq![input.emoji@, input.title@, input.color@, input.id@], seq![ts]),
{
    let r = Request {
        sql: String::from_str(UPDATE_CATEGORY),
        args: Record { texts: vec![input.emoji.clone(), input.title.clone(), input.color.clone(), input.id.clone()], integers: vec![ts] },
    };
    assert(texts_of(r.args) =~= seq![input.emoji@, input.title@, input.color@, input.id@]);
    assert(r.args.integers@ =~= seq![ts]);
    r
}

/// Writes the archived flag of a category, and `ts` as the time of the
/// change.
pub fn set_archived_request(input: &SetCategoryArchivedInput, ts: i64) -> (r: Request)
    ensures
        holds(r, SET_ARCHIVED@, seq![input.id@], seq![flag_of(input.archived), ts]),
{
    let r = Request {
        sql: String::from_str(SET_ARCHIVED),
        args: Record { texts: vec![input.id.clone()], integers: vec![flag_column(input.archived), ts] },
    };
    assert(texts_of(r.args) =~= seq![input.id@]);
    assert(r.args.integers@ =~= seq![flag_of(input.archived), ts]);
    r
}

/// Writes the collapsed flag of a category, and `ts` as the time of the
/// change.
pub fn set_collapsed_request(input: &SetCategoryCollapsedInput, ts: i64) -> (r: Request)
    ensures
        holds(r, SET_COLLAPSED@, seq![input.id@], seq![flag_of(input.is_collapsed), ts]),
{
    let r = Request {
        sql: String::from_str(SET_COLLAPSED),
        args: Record { texts: vec![input.id.clone()], integers: vec![flag_column(input.is_collapsed), ts] },
    };
    assert(texts_of(r.args) =~= seq![input.id@]);
    assert(r.args.integers@ =~= seq![flag_of(input.is_collapsed), ts]);
    r
}

/// Deletes the category `id`.
pub fn delete_category_request(id: &str) -> (r: Request)
    ensures
        holds(r, DELETE_CATEGORY@, seq![id@], seq![]),
{
    let r = Request {
        sql: String::from_str(DELETE_CATEGORY),
        args: Record { texts: vec![String::from_str(id)], integers: Vec::new() },
    };
    assert(texts_of(r.args) =~= seq![id@]);
    assert(r.args.integers@ =~= seq![]);
    r
}

/// Asks for the stored background color.
pub fn background_color_request() -> (r: Request)
    ensures
        holds(r, BACKGROUND_COLOR@, seq![], seq![]),
{
    let r = Request {
        sql: String::from_str(BACKGROUND_COLOR),
        args: Record { texts: Vec::new(), integers: Vec::new() },
    };
    assert(texts_of(r.args) =~= seq![]);
    assert(r.args.integers@ =~= seq![]);
    r
}

/// Stores the background color.
pub fn set_background_color_request(input: &SetBackgroundColorInput) -> (r: Request)
    ensures
        holds(r, SET_BACKGROUND_COLOR@, seq![input.background_color@], seq![]),
{
    let r = Request {
        sql: String::from_str(SET_BACKGROUND_COLOR),
        args: Record { texts: vec![input.background_color.clone()], integers: Vec::new() },
    };
    assert(texts_of(r.args) =~= seq![input.background_color@]);
    assert(r.args.integers@ =~= seq![]);
    r
}

/// Creates the memo `id` at `position` in its category: its emoji, or none,
/// its title and color, its date, or none, its content, and `ts` as the
/// time of creation and of the last change.
pub fn insert_memo_request(input: &CreateMemoInput, id: &str, position: i64, ts: i64) -> (r: Request)
    ensures
        holds(r, INSERT_MEMO@, seq![id@, input.category_id@, optional_text(input.emoji), input.title@, input.color@, optional_text(input.date_ymd), input.content_md@], seq![position, ts, ts]),
{
    let r = Request {
        sql: String::from_str(INSERT_MEMO),
        args: Record { texts: vec![String::from_str(id), input.category_id.clone(), text_or_empty(&input.emoji), input.title.clone(), input.color.clone(), text_or_empty(&input.date_ymd), input.content_md.clone()], integers: vec![position, ts, ts] },
    };
    assert(texts_of(r.args) =~= seq![id@, input.category_id@, optional_text(input.emoji), input.title@, input.color@, optional_text(input.date_ymd), input.content_md@]);
    assert(r.args.integers@ =~= seq![position, ts, ts]);
    r
}

/// Writes the fields of a memo that a user edits, and `ts` as the time of
/// the change.
pub fn update_memo_request(input: &UpdateMemoInput, ts: i64) -> (r: Request)
    ensures
        holds(r, UPDATE_MEMO@, seq![input.emoji@, input.title@, input.color@, input.date_ymd@, input.content_md@, input.id@], seq![flag_of(input.todo_done), ts]),
{
    let r = Request {
        sql: String::from_str(UPDATE_MEMO),
        args: Record { texts: vec![input.emoji.clone(), input.title.clone(), input.color.clone(), input.date_ymd.clone(), input.content_md.clone(), input.id.clone()], integers: vec![flag_column(input.todo_done), ts] },
    };
    assert(texts_of(r.args) =~= seq![input.emoji@, input.title@, input.color@, input.date_ymd@, input.content_md@, input.id@]);
    assert(r.args.integers@ =~= seq![flag_of(input.todo_done), ts]);
    r
}

/// Deletes the memo `id`.
pub fn delete_memo_request(id: &str) -> (r: Request)
    ensures
        holds(r, DELETE_MEMO@, seq![id@], seq![]),
{
    let r = Request {
        sql: String::from_str(DELETE_MEMO),
        args: Record { texts: vec![String::from_str(id)], integers: Vec::new() },
    };
    assert(texts_of(r.args) =~= seq![id@]);
    assert(r.args.integers@ =~= seq![]);
    r
}

/// Puts a memo at `position` in the category it moves to, with `ts` as the
/// time of the change.
pub fn move_memo_request(input: &MoveMemoInput, position: i64, ts: i64) -> (r: Request)
    ensures
        holds(r, MOVE_MEMO@, seq![input.memo_id@, input.to_category_id@], seq![position, ts]),
{
    let r = Request {
        sql: String::from_str(MOVE_MEMO),
        args: Record { texts: vec![input.memo_id.clone(), input.to_category_id.clone()], integers: vec![position, ts] },
    };
    assert(texts_of(r.args) =~= seq![input.memo_id@, input.to_category_id@]);
    assert(r.args.integers@ =~= seq![position, ts]);
    r
}

/// The version of the schema.
pub const READ_VERSION: &'static str = "PRAGMA user_version;";

/// Has the storage refuse a memo whose category does not exist, and delete
/// the memos of a category with it.
pub const ENFORCE_REFERENCES: &'static str = "PRAGMA foreign_keys = ON;";

/// The position of one category.
pub const CATEGORY_POSITION: &'static str = "SELECT position FROM categories WHERE id = ?1";

/// The position of a category.
pub const PLACE_CATEGORY: &'static str = "UPDATE categories SET position = ?2 WHERE id = ?1";

/// Asks where the category `id` stands.
pub fn category_position_request(id: &str) -> (r: Request)
    ensures
        holds(r, CATEGORY_POSITION@, seq![id@], seq![]),
{
    let r = Request {
        sql: String::from_str(CATEGORY_POSITION),
        args: Record { texts: vec![String::from_str(id)], integers: Vec::new() },
    };
    assert(texts_of(r.args) =~= seq![id@]);
    assert(r.args.integers@ =~= seq![]);
    r
}

/// Asks for the version of the schema.
pub fn version_request() -> (r: Request)
    ensures
        holds(r, READ_VERSION@, seq![], seq![]),
{
    let r = Request {
        sql: String::from_str(READ_VERSION),
        args: Record { texts: Vec::new(), integers: Vec::new() },
    };
    assert(texts_of(r.args) =~= seq![]);
    assert(r.args.integers@ =~= seq![]);
    r
}

/// Asks for the id and position of every row of `table`, or of those whose
/// column `where_clause.0` holds `where_clause.1`.
pub fn scope_request(table: &str, where_clause: Option<(&str, &str)>) -> (r: Request)
    ensures
        match where_clause {
            Some((column, value)) => holds(
                r,
                "SELECT id, position FROM "@ + table@ + " WHERE "@ + column@ + " = ?1"@,
                seq![value@],
                seq![],
            ),
            None => holds(r, "SELECT id, position FROM "@ + table@, seq![], seq![]),
        },
{
    match where_clause {
        Some((column, value)) => {
            let r = Request {
                sql: String::from_str("SELECT id, position FROM ").concat(table).concat(
                    " WHERE ",
                ).concat(column).concat(" = ?1"),
                args: Record { texts: vec![String::from_str(value)], integers: Vec::new() },
            };
            assert(texts_of(r.args) =~= seq![value@]);
            assert(r.args.integers@ =~= seq![]);
            r
        },
        None => {
            let r = Request {
                sql: String::from_str("SELECT id, position FROM ").concat(table),
                args: Record { texts: Vec::new(), integers: Vec::new() },
            };
            assert(texts_of(r.args) =~= seq![]);
            assert(r.args.integers@ =~= seq![]);
            r
        },
    }
}

/// Writes `ts` as the time of the last change of the row `id` of `table`.
pub fn touch_request(table: &str, id: &str, ts: i64) -> (r: Request)
    ensures
        holds(r, "UPDATE "@ + table@ + " SET updated_at = ?2 WHERE id = ?1"@, seq![id@], seq![ts]),
{
    let r = Request {
        sql: String::from_str("UPDATE ").concat(table).concat(
            " SET updated_at = ?2 WHERE id = ?1",
        ),
        args: Record { texts: vec![String::from_str(id)], integers: vec![ts] },
    };
    assert(texts_of(r.args) =~= seq![id@]);
    assert(r.args.integers@ =~= seq![ts]);
    r
}

/// Writes the position of `member` with the statement `sql`, whose first
/// parameter is the id and whose second is the position.
pub fn position_request(sql: &str, member: &Member) -> (r: Request)
    ensures
        holds(r, sql@, seq![member.id@], seq![member.position]),
{
    let r = Request {
        sql: String::from_str(sql),
        args: Record { texts: vec![member.id.clone()], integers: vec![member.position] },
    };
    assert(texts_of(r.args) =~= seq![member.id@]);
    assert(r.args.integers@ =~= seq![member.position]);
    r
}

/// Writes the position of `member` and `ts` as the time of its last change
/// with the statement `sql`, whose first parameter is the id, whose second
/// is the position and whose third is the time.
pub fn rank_request(sql: &str, member: &Member, ts: i64) -> (r: Request)
    ensures
        holds(r, sql@, seq![member.id@], seq![member.position, ts]),
{
    let r = Request {
        sql: String::from_str(sql),
        args: Record { texts: vec![member.id.clone()], integers: vec![member.position, ts] },
    };
    assert(texts_of(r.args) =~= seq![member.id@]);
    assert(r.args.integers@ =~= seq![member.position, ts]);
    r
}

} // verus!
