//! The operations of the store, on a connection.
//!
//! An operation that computes a position, or changes more than one row, runs
//! in a transaction: it commits after its last statement went through, and a
//! failure before that leaves the storage as it was. What the storage
//! answers decides the outcome of every operation here; the positions that
//! an operation writes are those that the position index computes from the
//! members it read.
//!
//! What is handed to the storage is built in `statements`. What comes back
//! is held against what was asked for before it is handed on: a record that
//! an operation gives back carries the id and the values that the operation
//! wrote, and a list comes in the order of its positions. A failure names
//! the step that failed.

use crate::error::StoreError;
use crate::models::{
    AppSettings, Category, CategoryWithMemos, CreateCategoryInput, CreateMemoInput, Memo,
    MoveMemoInput, ReorderCategoriesInput, ReorderMemosInput, SetBackgroundColorInput,
    SetCategoryArchivedInput, SetCategoryCollapsedInput, UpdateCategoryInput, UpdateMemoInput,
};
use crate::position::{dense, next_position_of, without, Member, Scope};
use crate::migration::first_integer;
use crate::rows::{
    category_of, first_placement, is_category_row, is_member_row, is_memo_row, member_of,
    memo_of,
    row_to_category, row_to_memo, rows_to_memos, rows_to_scope, settings_of,
};
use crate::sqlite::{
    begin, commit, connection_of, describe, execute, is_constraint_violation, query, Record,
};
use crate::statements::{
    all_categories_request, background_color_request, category_position_request,
    delete_category_request, flag_of, holds, Request, INSERT_CATEGORY, INSERT_MEMO, MOVE_MEMO,
    PLACE_CATEGORY,
    delete_memo_request, fetch_category_request, fetch_memo_request, insert_category_request,
    insert_memo_request, memo_placement_request, memos_of_category_request, move_memo_request,
    position_request, rank_request, scope_request, set_archived_request,
    set_background_color_request, set_collapsed_request, touch_request, update_category_request,
    optional_text, text_or_empty, update_memo_request, PLACE_MEMO, RANK_CATEGORY, RANK_MEMO,
};
use vstd::prelude::*;
use vstd::string::StringExecFns;

verus! {

/// The failures of `next_position`: the members could not be read, or no
/// position is left.
pub open spec fn is_next_position_failure(e: StoreError) -> bool {
    e.is_failure_of("read positions"@) || e.is_failure_of("next_position"@)
}

/// The failures of fetching a category by its id: the fetch was refused,
/// or there is no such category.
pub open spec fn is_fetch_category_failure(e: StoreError) -> bool {
    e.is_failure_of("fetch category"@) || is_not_found(e, "category"@)
}

/// The failures of fetching a memo by its id: the fetch was refused, or
/// there is no such memo.
pub open spec fn is_fetch_memo_failure(e: StoreError) -> bool {
    e.is_failure_of("fetch memo"@) || is_not_found(e, "memo"@)
}

/// The failures of opening and of committing a transaction.
pub open spec fn is_transaction_boundary_failure(e: StoreError) -> bool {
    e.is_failure_of("tx begin"@) || e.is_failure_of("tx commit"@)
}

/// The failures of closing a gap among the memos of a category.
pub open spec fn is_compaction_failure(e: StoreError) -> bool {
    e.is_failure_of("read positions"@) || e.is_failure_of("compact positions"@)
}

/// The failures of `list_all`.
pub open spec fn is_list_failure(e: StoreError) -> bool {
    e.is_failure_of("query categories"@) || e.is_failure_of("read category"@) || e.is_failure_of(
        "query memos"@,
    ) || e.is_failure_of("read memo"@)
}

/// The failures of creating a category, inside its transaction.
pub open spec fn is_insert_category_failure(e: StoreError) -> bool {
    is_next_position_failure(e) || e.is_failure_of("insert category"@)
        || is_fetch_category_failure(e)
}

/// The failures of creating a memo, inside its transaction.
pub open spec fn is_insert_memo_failure(e: StoreError) -> bool {
    is_next_position_failure(e) || e.is_failure_of("insert memo"@) || is_fetch_memo_failure(e)
}

/// The failures of reordering categories, inside its transaction.
pub open spec fn is_rank_categories_failure(e: StoreError) -> bool {
    e.is_failure_of("read positions"@) || e.is_failure_of("reorder category"@)
}

/// The failures of reordering memos, inside its transaction.
pub open spec fn is_rank_memos_failure(e: StoreError) -> bool {
    e.is_failure_of("read positions"@) || e.is_failure_of("reorder memos"@)
}

/// The failures of deleting a memo, inside its transaction.
pub open spec fn is_remove_memo_failure(e: StoreError) -> bool {
    e.is_failure_of("get memo meta"@) || is_not_found(e, "memo"@) || e.is_failure_of(
        "delete memo"@,
    ) || is_compaction_failure(e)
}

/// The failures of deleting a category, inside its transaction.
pub open spec fn is_remove_category_failure(e: StoreError) -> bool {
    e.is_failure_of("get category meta"@) || is_not_found(e, "category"@) || e.is_failure_of(
        "delete category"@,
    ) || is_compaction_failure(e)
}

/// The failures of moving a memo, inside its transaction.
pub open spec fn is_relocate_memo_failure(e: StoreError) -> bool {
    e.is_failure_of("get memo meta"@) || is_not_found(e, "memo"@) || is_compaction_failure(e)
        || is_next_position_failure(e) || e.is_failure_of("move memo"@)
}

/// Whether `e` is the `Transaction` failure of `operation` with the detail
/// `detail`.
pub open spec fn is_transaction_failure(e: StoreError, operation: Seq<char>, detail: Seq<char>) -> bool {
    e matches StoreError::Transaction { operation: o, detail: d } && o@ == operation && d@
        == detail
}

/// Whether `e` says that a record of kind `what` is not there.
pub open spec fn is_not_found(e: StoreError, what: Seq<char>) -> bool {
    e matches StoreError::NotFound { what: w } && w@ == what
}

/// The error for a statement that the storage refused while `operation` ran:
/// a `Constraint` where the storage names a constraint, else a
/// `Transaction`, with what the storage said as its detail.
pub(crate) fn failure(operation: &str, error: &rusqlite::Error) -> (r: StoreError)
    ensures
        r.is_failure_of(operation@),
{
    StoreError::statement(operation, is_constraint_violation(error), describe(error))
}

/// The error for a row that does not have the columns that were asked for.
fn unreadable(operation: &str) -> (r: StoreError)
    ensures
        is_transaction_failure(r, operation@, "unexpected columns"@),
{
    StoreError::statement(operation, false, String::from_str("unexpected columns"))
}

/// Whether a list of ids can be taken as an order: `Ok` where the indices
/// of the list can all be positions, else the refusal of `operation`.
pub fn accepted_order(operation: &str, ids: &Vec<String>) -> (r: Result<(), StoreError>)
    ensures
        ids@.len() <= i64::MAX ==> r == Ok::<(), StoreError>(()),
        ids@.len() > i64::MAX ==> (r matches Err(e) && e.is_rejection_of(
            operation@,
            "too many ids"@,
        )),
{
    if ids.len() as u64 <= i64::MAX as u64 {
        Ok(())
    } else {
        Err(StoreError::rejected(operation, "too many ids"))
    }
}

/// Where the memo stands that was asked for by its id: the category and
/// position of the first row; `NotFound` where the storage gave no such
/// row.
pub fn placement_or_missing(rows: &Vec<Record>) -> (r: Result<(String, i64), StoreError>)
    ensures
        rows@.len() > 0 && is_member_row(rows@[0]) ==> r == Ok::<(String, i64), StoreError>(
            (rows@[0].texts@[0], rows@[0].integers@[0]),
        ),
        !(rows@.len() > 0 && is_member_row(rows@[0])) ==> (r matches Err(e) && is_not_found(
            e,
            "memo"@,
        )),
{
    match first_placement(rows) {
        Some(placement) => Ok(placement),
        None => Err(StoreError::not_found("memo")),
    }
}

/// Where the category stands that was asked for by its id: the integer of
/// the first row; `NotFound` where the storage gave no such row.
pub fn category_position_or_missing(rows: &Vec<Record>) -> (r: Result<i64, StoreError>)
    ensures
        rows@.len() > 0 && rows@[0].integers@.len() > 0 ==> r == Ok::<i64, StoreError>(
            rows@[0].integers@[0],
        ),
        !(rows@.len() > 0 && rows@[0].integers@.len() > 0) ==> (r matches Err(e) && is_not_found(
            e,
            "category"@,
        )),
{
    match first_integer(rows) {
        Some(position) => Ok(position),
        None => Err(StoreError::not_found("category")),
    }
}

/// Runs one statement.
fn run(conn: &rusqlite::Connection, operation: &str, sql: &str, args: &Record) -> (r: Result<
    usize,
    StoreError,
>)
    ensures
        r matches Err(e) ==> e.is_failure_of(operation@),
{
    match execute(conn, sql, args) {
        Ok(changed) => Ok(changed),
        Err(e) => Err(failure(operation, &e)),
    }
}

/// Runs one query whose rows have `n_text` texts and then `n_int` integers.
fn select(
    conn: &rusqlite::Connection,
    operation: &str,
    sql: &str,
    args: &Record,
    n_text: usize,
    n_int: usize,
) -> (r: Result<Vec<Record>, StoreError>)
    requires
        n_text + n_int <= 16,
    ensures
        r matches Err(e) ==> e.is_failure_of(operation@),
{
    match query(conn, sql, args, n_text, n_int) {
        Ok(rows) => Ok(rows),
        Err(e) => Err(failure(operation, &e)),
    }
}

/// Ends a transaction: commits it where its work went through, and lets it
/// roll back where the work failed.
fn conclude<'conn, T>(tx: rusqlite::Transaction<'conn>, out: Result<T, StoreError>) -> (r: Result<
    T,
    StoreError,
>)
    ensures
        out.is_err() ==> r == out,
        r.is_ok() ==> r == out,
        r matches Err(e) ==> out == r || e.is_failure_of("tx commit"@),
{
    match out {
        Ok(value) => match commit(tx) {
            Ok(()) => Ok(value),
            Err(e) => Err(failure("tx commit", &e)),
        },
        Err(e) => Err(e),
    }
}

/// The scope that a read of its members gave: the members of the rows, row
/// by row; a failure of the read where a row has other columns.
pub fn scope_read(rows: &Vec<Record>) -> (r: Result<Scope, StoreError>)
    ensures
        (forall|i: int| 0 <= i < rows@.len() ==> is_member_row(#[trigger] rows@[i])) ==> (
        r matches Ok(scope) && scope@.len() == rows@.len() && forall|i: int|
            0 <= i < rows@.len() ==> #[trigger] scope@[i] == member_of(rows@[i])@),
        !(forall|i: int| 0 <= i < rows@.len() ==> is_member_row(#[trigger] rows@[i])) ==> (
        r matches Err(e) && is_transaction_failure(e, "read positions"@, "unexpected columns"@)),
{
    match rows_to_scope(rows) {
        Some(scope) => Ok(scope),
        None => Err(unreadable("read positions")),
    }
}

/// Reads the members of a scope: all rows of `table`, or those whose column
/// `where_clause.0` holds `where_clause.1`.
pub fn load_scope(conn: &rusqlite::Connection, table: &str, where_clause: Option<(&str, &str)>) -> (r:
    Result<Scope, StoreError>)
    ensures
        r matches Err(e) ==> e.is_failure_of("read positions"@),
{
    let request = scope_request(table, where_clause);
    let rows = select(conn, "read positions", request.sql.as_str(), &request.args, 1, 1)?;
    scope_read(&rows)
}

/// What `next_position` gives for the members that it read: the position
/// for a new member, or a failure where no position is left.
pub fn position_for_new_member(scope: &Scope) -> (r: Result<i64, StoreError>)
    ensures
        next_position_of(scope@) <= i64::MAX ==> r == Ok::<i64, StoreError>(
            next_position_of(scope@) as i64,
        ),
        next_position_of(scope@) > i64::MAX ==> (r matches Err(e)
            && is_transaction_failure(e, "next_position"@, "no position is left"@)),
        dense(scope@) ==> next_position_of(scope@) == scope@.len(),
{
    match scope.next_position() {
        Some(position) => Ok(position),
        None => Err(
            StoreError::statement("next_position", false, String::from_str("no position is left")),
        ),
    }
}

/// The position for a new member of a scope: one past the greatest position
/// among the rows of `table`, or among those whose column `where_clause.0`
/// holds `where_clause.1`; `0` where there is no such row.
///
/// To be called in the transaction that inserts the member.
pub fn next_position(conn: &rusqlite::Connection, table: &str, where_clause: Option<(&str, &str)>) -> (r:
    Result<i64, StoreError>)
    ensures
        r matches Err(e) ==> is_next_position_failure(e),
{
    let scope = load_scope(conn, table, where_clause)?;
    position_for_new_member(&scope)
}

/// Writes `ts` as the time of the last change of the row `id` of `table`.
pub fn touch_updated_at_with(conn: &rusqlite::Connection, table: &str, id: &str, ts: i64) -> (r:
    Result<(), StoreError>)
    ensures
        r matches Err(e) ==> e.is_failure_of("touch_updated_at"@),
{
    let request = touch_request(table, id, ts);
    run(conn, "touch_updated_at", request.sql.as_str(), &request.args)?;
    Ok(())
}

/// Writes the time now as the time of the last change of the row `id` of
/// `table`.
pub fn touch_updated_at(conn: &rusqlite::Connection, table: &str, id: &str) -> (r: Result<
    (),
    StoreError,
>)
    ensures
        r matches Err(e) ==> e.is_failure_of("touch_updated_at"@),
{
    let ts = crate::clock::now_ms();
    touch_updated_at_with(conn, table, id, ts)
}

/// Where the memo `memo_id` stands: the id of its category and its position
/// there; `None` where there is no such memo.
pub fn get_memo_category_and_position(conn: &rusqlite::Connection, memo_id: &str) -> (r: Result<
    Option<(String, i64)>,
    StoreError,
>)
    ensures
        r matches Err(e) ==> e.is_failure_of("get memo meta"@),
{
    let request = memo_placement_request(memo_id);
    let rows = select(conn, "get memo meta", request.sql.as_str(), &request.args, 1, 1)?;
    Ok(first_placement(&rows))
}

/// The category that a fetch by id gave: that of the first row, `NotFound`
/// where there is no row.
pub fn fetched_category(rows: &Vec<Record>) -> (r: Result<Category, StoreError>)
    ensures
        rows@.len() == 0 ==> (r matches Err(e) && is_not_found(e, "category"@)),
        rows@.len() > 0 && is_category_row(rows@[0]) ==> r == Ok::<
            Category,
            StoreError,
        >(category_of(rows@[0])),
        rows@.len() > 0 && !is_category_row(rows@[0]) ==> (r matches Err(e)
            && is_transaction_failure(e, "fetch category"@, "unexpected columns"@)),
{
    if rows.len() == 0 {
        return Err(StoreError::not_found("category"));
    }
    match row_to_category(&rows[0]) {
        Some(category) => Ok(category),
        None => Err(unreadable("fetch category")),
    }
}

/// The memo that a fetch by id gave: that of the first row, `NotFound`
/// where there is no row.
pub fn fetched_memo(rows: &Vec<Record>) -> (r: Result<Memo, StoreError>)
    ensures
        rows@.len() == 0 ==> (r matches Err(e) && is_not_found(e, "memo"@)),
        rows@.len() > 0 && is_memo_row(rows@[0]) ==> r == Ok::<Memo, StoreError>(
            memo_of(rows@[0]),
        ),
        rows@.len() > 0 && !is_memo_row(rows@[0]) ==> (r matches Err(e)
            && is_transaction_failure(e, "fetch memo"@, "unexpected columns"@)),
{
    if rows.len() == 0 {
        return Err(StoreError::not_found("memo"));
    }
    match row_to_memo(&rows[0]) {
        Some(memo) => Ok(memo),
        None => Err(unreadable("fetch memo")),
    }
}

/// The failure of a fetch that the storage answered with a record other
/// than the one that was written.
fn unexpected_row(operation: &str) -> (r: StoreError)
    ensures
        is_transaction_failure(r, operation@, "unexpected row"@),
{
    StoreError::statement(operation, false, String::from_str("unexpected row"))
}

/// Whether `category` is what creating makes of `input`, under `id` at
/// `position` and at the time `ts`: neither archived nor collapsed, created
/// and last changed at `ts`.
pub open spec fn is_created_category(
    category: Category,
    input: CreateCategoryInput,
    id: Seq<char>,
    position: i64,
    ts: i64,
) -> bool {
    &&& category.id@ == id
    &&& category.position == position
    &&& category.emoji@ == optional_text(input.emoji)
    &&& category.title@ == input.title@
    &&& category.color@ == input.color@
    &&& !category.archived
    &&& category.is_todo == input.is_todo
    &&& !category.is_collapsed
    &&& category.created_at == ts
    &&& category.updated_at == ts
}

/// Whether `category` is the category that `input` names, with the emoji,
/// title and color of `input`, last changed at `ts`.
pub open spec fn is_updated_category(category: Category, input: UpdateCategoryInput, ts: i64) -> bool {
    &&& category.id@ == input.id@
    &&& category.emoji@ == input.emoji@
    &&& category.title@ == input.title@
    &&& category.color@ == input.color@
    &&& category.updated_at == ts
}

/// Whether `category` is the category `id` with its archived flag as
/// `archived`, last changed at `ts`.
pub open spec fn is_archived_as(category: Category, id: Seq<char>, archived: bool, ts: i64) -> bool {
    category.id@ == id && category.archived == archived && category.updated_at == ts
}

/// Whether `category` is the category `id` with its collapsed flag as
/// `is_collapsed`, last changed at `ts`.
pub open spec fn is_collapsed_as(
    category: Category,
    id: Seq<char>,
    is_collapsed: bool,
    ts: i64,
) -> bool {
    category.id@ == id && category.is_collapsed == is_collapsed && category.updated_at == ts
}

/// The date that `input` gives its memo: the date it names, where that is
/// not empty.
pub open spec fn given_date(input: CreateMemoInput) -> Option<Seq<char>> {
    match input.date_ymd {
        Some(date) => if date@.len() > 0 {
            Some(date@)
        } else {
            None
        },
        None => None,
    }
}

/// Whether `memo` is what creating makes of `input`, under `id` at
/// `position` and at the time `ts`: not done, created and last changed at
/// `ts`, with the date that `input` gives, or with whatever date where it
/// gives none.
pub open spec fn is_created_memo(
    memo: Memo,
    input: CreateMemoInput,
    id: Seq<char>,
    position: i64,
    ts: i64,
) -> bool {
    &&& memo.id@ == id
    &&& memo.position == position
    &&& (given_date(input) matches Some(date) ==> memo.date_ymd@ == date)
    &&& memo.category_id@ == input.category_id@
    &&& memo.emoji@ == optional_text(input.emoji)
    &&& memo.title@ == input.title@
    &&& memo.color@ == input.color@
    &&& memo.content_md@ == input.content_md@
    &&& !memo.todo_done
    &&& memo.created_at == ts
    &&& memo.updated_at == ts
}

/// Whether `memo` is the memo that `input` names, with the fields of
/// `input`, last changed at `ts`.
pub open spec fn is_updated_memo(memo: Memo, input: UpdateMemoInput, ts: i64) -> bool {
    &&& memo.id@ == input.id@
    &&& memo.emoji@ == input.emoji@
    &&& memo.title@ == input.title@
    &&& memo.color@ == input.color@
    &&& memo.date_ymd@ == input.date_ymd@
    &&& memo.content_md@ == input.content_md@
    &&& memo.todo_done == input.todo_done
    &&& memo.updated_at == ts
}

/// The category that creating gives back: `category`, where it is what
/// creating makes of `input`; a failure of the fetch, where the storage
/// answered with anything else.
pub fn confirm_created_category(
    category: Category,
    input: &CreateCategoryInput,
    id: &str,
    position: i64,
    ts: i64,
) -> (r: Result<Category, StoreError>)
    ensures
        is_created_category(category, *input, id@, position, ts) ==> r == Ok::<
            Category,
            StoreError,
        >(category),
        !is_created_category(category, *input, id@, position, ts) ==> (r matches Err(e)
            && is_transaction_failure(e, "fetch category"@, "unexpected row"@)),
{
    let wanted_id = String::from_str(id);
    let wanted_emoji = text_or_empty(&input.emoji);
    if category.id == wanted_id && category.position == position && category.emoji
        == wanted_emoji && category.title == input.title && category.color == input.color
        && !category.archived && category.is_todo == input.is_todo && !category.is_collapsed
        && category.created_at == ts && category.updated_at == ts {
        Ok(category)
    } else {
        Err(unexpected_row("fetch category"))
    }
}

/// The category that updating gives back: `category`, where it carries what
/// `input` asked for; a failure of the fetch, where the storage answered
/// with anything else.
pub fn confirm_updated_category(category: Category, input: &UpdateCategoryInput, ts: i64) -> (r:
    Result<Category, StoreError>)
    ensures
        is_updated_category(category, *input, ts) ==> r == Ok::<Category, StoreError>(category),
        !is_updated_category(category, *input, ts) ==> (r matches Err(e)
            && is_transaction_failure(e, "fetch category"@, "unexpected row"@)),
{
    if category.id == input.id && category.emoji == input.emoji && category.title == input.title
        && category.color == input.color && category.updated_at == ts {
        Ok(category)
    } else {
        Err(unexpected_row("fetch category"))
    }
}

/// The category that archiving gives back: `category`, where it is the
/// category `id` with the flag as asked; a failure of the fetch, where the
/// storage answered with anything else.
pub fn confirm_archived(category: Category, id: &String, archived: bool, ts: i64) -> (r: Result<
    Category,
    StoreError,
>)
    ensures
        is_archived_as(category, id@, archived, ts) ==> r == Ok::<Category, StoreError>(category),
        !is_archived_as(category, id@, archived, ts) ==> (r matches Err(e)
            && is_transaction_failure(e, "fetch category"@, "unexpected row"@)),
{
    if category.id == *id && category.archived == archived && category.updated_at == ts {
        Ok(category)
    } else {
        Err(unexpected_row("fetch category"))
    }
}

/// The category that collapsing gives back: `category`, where it is the
/// category `id` with the flag as asked; a failure of the fetch, where the
/// storage answered with anything else.
pub fn confirm_collapsed(category: Category, id: &String, is_collapsed: bool, ts: i64) -> (r:
    Result<Category, StoreError>)
    ensures
        is_collapsed_as(category, id@, is_collapsed, ts) ==> r == Ok::<Category, StoreError>(
            category,
        ),
        !is_collapsed_as(category, id@, is_collapsed, ts) ==> (r matches Err(e)
            && is_transaction_failure(e, "fetch category"@, "unexpected row"@)),
{
    if category.id == *id && category.is_collapsed == is_collapsed && category.updated_at == ts {
        Ok(category)
    } else {
        Err(unexpected_row("fetch category"))
    }
}

/// The memo that creating gives back: `memo`, where it is what creating
/// makes of `input`; a failure of the fetch, where the storage answered with
/// anything else.
pub fn confirm_created_memo(
    memo: Memo,
    input: &CreateMemoInput,
    id: &str,
    position: i64,
    ts: i64,
) -> (r: Result<Memo, StoreError>)
    ensures
        is_created_memo(memo, *input, id@, position, ts) ==> r == Ok::<Memo, StoreError>(memo),
        !is_created_memo(memo, *input, id@, position, ts) ==> (r matches Err(e)
            && is_transaction_failure(e, "fetch memo"@, "unexpected row"@)),
{
    let wanted_id = String::from_str(id);
    let wanted_emoji = text_or_empty(&input.emoji);
    let date_kept = match &input.date_ymd {
        Some(date) => date.as_str().is_empty() || memo.date_ymd == *date,
        None => true,
    };
    if memo.id == wanted_id && memo.position == position && date_kept && memo.category_id
        == input.category_id && memo.emoji == wanted_emoji && memo.title == input.title
        && memo.color == input.color && memo.content_md == input.content_md && !memo.todo_done
        && memo.created_at == ts && memo.updated_at == ts {
        Ok(memo)
    } else {
        Err(unexpected_row("fetch memo"))
    }
}

/// The memo that updating gives back: `memo`, where it carries what `input`
/// asked for; a failure of the fetch, where the storage answered with
/// anything else.
pub fn confirm_updated_memo(memo: Memo, input: &UpdateMemoInput, ts: i64) -> (r: Result<
    Memo,
    StoreError,
>)
    ensures
        is_updated_memo(memo, *input, ts) ==> r == Ok::<Memo, StoreError>(memo),
        !is_updated_memo(memo, *input, ts) ==> (r matches Err(e) && is_transaction_failure(
            e,
            "fetch memo"@,
            "unexpected row"@,
        )),
{
    if memo.id == input.id && memo.emoji == input.emoji && memo.title == input.title && memo.color
        == input.color && memo.date_ymd == input.date_ymd && memo.content_md == input.content_md
        && memo.todo_done == input.todo_done && memo.updated_at == ts {
        Ok(memo)
    } else {
        Err(unexpected_row("fetch memo"))
    }
}

/// The category that was asked for by `id`: `category`, where it has that
/// id; a failure of the fetch, where the storage answered with another.
pub fn confirmed_category(category: Category, id: &str) -> (r: Result<Category, StoreError>)
    ensures
        category.id@ == id@ ==> r == Ok::<Category, StoreError>(category),
        category.id@ != id@ ==> (r matches Err(e) && is_transaction_failure(
            e,
            "fetch category"@,
            "unexpected row"@,
        )),
{
    let wanted = String::from_str(id);
    if category.id == wanted {
        Ok(category)
    } else {
        Err(unexpected_row("fetch category"))
    }
}

/// The memo that was asked for by `id`: `memo`, where it has that id; a
/// failure of the fetch, where the storage answered with another.
pub fn confirmed_memo(memo: Memo, id: &str) -> (r: Result<Memo, StoreError>)
    ensures
        memo.id@ == id@ ==> r == Ok::<Memo, StoreError>(memo),
        memo.id@ != id@ ==> (r matches Err(e) && is_transaction_failure(
            e,
            "fetch memo"@,
            "unexpected row"@,
        )),
{
    let wanted = String::from_str(id);
    if memo.id == wanted {
        Ok(memo)
    } else {
        Err(unexpected_row("fetch memo"))
    }
}

fn fetch_category(conn: &rusqlite::Connection, id: &str) -> (r: Result<Category, StoreError>)
    ensures
        r matches Ok(category) ==> category.id@ == id@,
        r matches Err(e) ==> is_fetch_category_failure(e),
{
    let request = fetch_category_request(id);
    let rows = select(conn, "fetch category", request.sql.as_str(), &request.args, 4, 6)?;
    confirmed_category(fetched_category(&rows)?, id)
}

fn fetch_memo(conn: &rusqlite::Connection, id: &str) -> (r: Result<Memo, StoreError>)
    ensures
        r matches Ok(memo) ==> memo.id@ == id@,
        r matches Err(e) ==> is_fetch_memo_failure(e),
{
    let request = fetch_memo_request(id);
    let rows = select(conn, "fetch memo", request.sql.as_str(), &request.args, 7, 4)?;
    confirmed_memo(fetched_memo(&rows)?, id)
}

/// Writes the position of each of `members`.
fn store_positions(conn: &rusqlite::Connection, operation: &str, sql: &str, members: &Vec<Member>) -> (r:
    Result<(), StoreError>)
    ensures
        members@.len() == 0 ==> r == Ok::<(), StoreError>(()),
        r matches Err(e) ==> e.is_failure_of(operation@),
{
    let mut i: usize = 0;
    while i < members.len()
        invariant
            i <= members@.len(),
        decreases members@.len() - i,
    {
        let request = position_request(sql, &members[i]);
        run(conn, operation, request.sql.as_str(), &request.args)?;
        i += 1;
    }
    Ok(())
}

/// Writes the position of each of `members`, and `ts` as the time of its
/// last change.
fn store_ranks(
    conn: &rusqlite::Connection,
    operation: &str,
    sql: &str,
    members: &Vec<Member>,
    ts: i64,
) -> (r: Result<(), StoreError>)
    ensures
        members@.len() == 0 ==> r == Ok::<(), StoreError>(()),
        r matches Err(e) ==> e.is_failure_of(operation@),
{
    let mut i: usize = 0;
    while i < members.len()
        invariant
            i <= members@.len(),
        decreases members@.len() - i,
    {
        let request = rank_request(sql, &members[i], ts);
        run(conn, operation, request.sql.as_str(), &request.args)?;
        i += 1;
    }
    Ok(())
}

/// Whether the memos of a listed category are its own and stand in the
/// order of their positions.
pub open spec fn memos_in_order(category_id: Seq<char>, memos: Seq<Memo>) -> bool {
    &&& forall|k: int| 0 <= k < memos.len() ==> (#[trigger] memos[k]).category_id@ == category_id
    &&& forall|a: int, b: int|
        0 <= a <= b < memos.len() ==> (#[trigger] memos[a]).position <= (
        #[trigger] memos[b]).position
}

/// Whether the categories of a list stand in the order of their positions,
/// each with its own memos in the order of theirs.
pub open spec fn listed_in_order(list: Seq<CategoryWithMemos>) -> bool {
    &&& forall|a: int, b: int|
        0 <= a <= b < list.len() ==> (#[trigger] list[a]).category.position <= (
        #[trigger] list[b]).category.position
    &&& forall|i: int|
        0 <= i < list.len() ==> memos_in_order(
            (#[trigger] list[i]).category.id@,
            list[i].memos@,
        )
}

/// Whether `memos` are memos of the category `category_id`, in the order of
/// their positions.
pub fn memos_are_in_order(category_id: &String, memos: &Vec<Memo>) -> (r: bool)
    ensures
        r == memos_in_order(category_id@, memos@),
{
    let mut i: usize = 0;
    while i < memos.len()
        invariant
            i <= memos@.len(),
            forall|k: int| 0 <= k < i ==> (#[trigger] memos@[k]).category_id@ == category_id@,
            forall|a: int, b: int|
                0 <= a <= b < i ==> (#[trigger] memos@[a]).position <= (
                #[trigger] memos@[b]).position,
        decreases memos@.len() - i,
    {
        if memos[i].category_id != *category_id {
            return false;
        }
        if i > 0 && memos[i - 1].position > memos[i].position {
            assert(memos@[i - 1].position > memos@[i as int].position);
            return false;
        }
        assert forall|a: int, b: int| 0 <= a <= b < i + 1 implies (#[trigger] memos@[a]).position
            <= (#[trigger] memos@[b]).position by {
            if b == i && a < i {
                assert(memos@[a].position <= memos@[i - 1].position);
            }
        }
        i += 1;
    }
    true
}

/// The error for rows that do not come in the order that was asked for.
fn out_of_order(operation: &str) -> (r: StoreError)
    ensures
        is_transaction_failure(r, operation@, "unexpected order"@),
{
    StoreError::statement(operation, false, String::from_str("unexpected order"))
}

/// The memos that rows hold, row by row.
pub open spec fn memos_of(rows: Seq<Record>) -> Seq<Memo> {
    rows.map_values(|row: Record| memo_of(row))
}

/// Whether every row has the columns of a memo.
pub open spec fn hold_memos(rows: Seq<Record>) -> bool {
    forall|i: int| 0 <= i < rows.len() ==> is_memo_row(#[trigger] rows[i])
}

/// The category that the next row of a listing gives, after a category at
/// the position `previous`, or as the first: the category of the row; a
/// failure where the row has other columns, or stands before `previous`.
pub fn category_in_turn(previous: Option<i64>, row: &Record) -> (r: Result<Category, StoreError>)
    ensures
        !is_category_row(*row) ==> (r matches Err(e) && is_transaction_failure(
            e,
            "read category"@,
            "unexpected columns"@,
        )),
        is_category_row(*row) && (previous matches Some(p) && p > row.integers@[0]) ==> (
        r matches Err(e) && is_transaction_failure(e, "read category"@, "unexpected order"@)),
        is_category_row(*row) && !(previous matches Some(p) && p > row.integers@[0]) ==> r == Ok::<
            Category,
            StoreError,
        >(category_of(*row)),
{
    let category = match row_to_category(row) {
        Some(category) => category,
        None => {
            return Err(unreadable("read category"));
        },
    };
    match previous {
        Some(p) => {
            if p > category.position {
                return Err(out_of_order("read category"));
            }
        },
        None => {},
    }
    Ok(category)
}

/// The entry of a listing for `category` and the rows read for its memos:
/// the category with the memos of the rows, row by row; a failure where a
/// row has other columns, or where the memos are not memos of the category
/// in the order of their positions.
pub fn listed_category(category: Category, memo_rows: &Vec<Record>) -> (r: Result<
    CategoryWithMemos,
    StoreError,
>)
    ensures
        !hold_memos(memo_rows@) ==> (r matches Err(e) && is_transaction_failure(
            e,
            "read memo"@,
            "unexpected columns"@,
        )),
        hold_memos(memo_rows@) && !memos_in_order(category.id@, memos_of(memo_rows@)) ==> (
        r matches Err(e) && is_transaction_failure(e, "read memo"@, "unexpected order"@)),
        hold_memos(memo_rows@) && memos_in_order(category.id@, memos_of(memo_rows@)) ==> (
        r matches Ok(entry) && entry.category == category && entry.memos@ == memos_of(
            memo_rows@,
        )),
{
    let memos = match rows_to_memos(memo_rows) {
        Some(memos) => memos,
        None => {
            return Err(unreadable("read memo"));
        },
    };
    assert(memos@ =~= memos_of(memo_rows@));
    if !memos_are_in_order(&category.id, &memos) {
        return Err(out_of_order("read memo"));
    }
    Ok(CategoryWithMemos { category, memos })
}

/// The position of the last category of a list, where it has one.
fn last_position(list: &Vec<CategoryWithMemos>) -> (r: Option<i64>)
    ensures
        r == if list@.len() > 0 {
            Some(list@[list@.len() - 1].category.position)
        } else {
            None
        },
{
    if list.len() > 0 {
        Some(list[list.len() - 1].category.position)
    } else {
        None
    }
}

/// The id of the category that a row of a listing holds, by which its
/// memos are asked for; a failure where the row has other columns.
pub fn listed_id(row: &Record) -> (r: Result<String, StoreError>)
    ensures
        is_category_row(*row) ==> r == Ok::<String, StoreError>(row.texts@[0]),
        !is_category_row(*row) ==> (r matches Err(e) && is_transaction_failure(
            e,
            "read category"@,
            "unexpected columns"@,
        )),
{
    if row.texts.len() == 4 && row.integers.len() == 6 {
        Ok(row.texts[0].clone())
    } else {
        Err(unreadable("read category"))
    }
}

/// Whether the rows read for the categories, and the rows read for the
/// memos of each, make a list: there are memo rows for every category row,
/// every row has its columns, the categories come in the order of their
/// positions, and the memos of each are its own, in the order of theirs.
pub open spec fn listable(category_rows: Seq<Record>, memo_rows: Seq<Vec<Record>>) -> bool {
    &&& memo_rows.len() == category_rows.len()
    &&& forall|i: int| 0 <= i < category_rows.len() ==> is_category_row(#[trigger] category_rows[i])
    &&& forall|a: int, b: int|
        0 <= a <= b < category_rows.len() ==> (#[trigger] category_rows[a]).integers@[0] <= (
        #[trigger] category_rows[b]).integers@[0]
    &&& forall|i: int|
        0 <= i < category_rows.len() ==> hold_memos((#[trigger] memo_rows[i])@) && memos_in_order(
            category_rows[i].texts@[0]@,
            memos_of(memo_rows[i]@),
        )
}

/// The list that the rows read make: one entry for every category row, in
/// the order read, each with the category of its row and the memos of the
/// rows read for it; a failure where the rows make no list.
pub fn listed(category_rows: &Vec<Record>, memo_rows: &Vec<Vec<Record>>) -> (r: Result<
    Vec<CategoryWithMemos>,
    StoreError,
>)
    ensures
        listable(category_rows@, memo_rows@) ==> (r matches Ok(list) && list@.len()
            == category_rows@.len() && forall|i: int|
            0 <= i < list@.len() ==> (#[trigger] list@[i]).category == category_of(
                category_rows@[i],
            ) && list@[i].memos@ == memos_of(memo_rows@[i]@)),
        !listable(category_rows@, memo_rows@) ==> (r matches Err(e) && is_list_failure(e)),
        r matches Ok(list) ==> listed_in_order(list@),
{
    if memo_rows.len() != category_rows.len() {
        return Err(unreadable("read memo"));
    }
    let mut out: Vec<CategoryWithMemos> = Vec::new();
    let mut i: usize = 0;
    while i < category_rows.len()
        invariant
            i <= category_rows@.len(),
            memo_rows@.len() == category_rows@.len(),
            out@.len() == i,
            listed_in_order(out@),
            forall|k: int|
                0 <= k < i ==> is_category_row(#[trigger] category_rows@[k]) && out@[k].category
                    == category_of(category_rows@[k]),
            forall|k: int|
                0 <= k < i ==> hold_memos((#[trigger] memo_rows@[k])@) && memos_in_order(
                    category_rows@[k].texts@[0]@,
                    memos_of(memo_rows@[k]@),
                ) && out@[k].memos@ == memos_of(memo_rows@[k]@),
        decreases category_rows@.len() - i,
    {
        let category = match category_in_turn(last_position(&out), &category_rows[i]) {
            Ok(category) => category,
            Err(e) => {
                proof {
                    if is_category_row(category_rows@[i as int]) {
                        assert(out@[i - 1].category.position == category_rows@[i
                            - 1].integers@[0]);
                        assert(category_rows@[i - 1].integers@[0] > category_rows@[i as int].integers@[0]);
                    }
                }
                return Err(e);
            },
        };
        let entry = match listed_category(category, &memo_rows[i]) {
            Ok(entry) => entry,
            Err(e) => {
                assert(!(hold_memos(memo_rows@[i as int]@) && memos_in_order(
                    category_rows@[i as int].texts@[0]@,
                    memos_of(memo_rows@[i as int]@),
                )));
                return Err(e);
            },
        };
        let ghost before = out@;
        out.push(entry);
        proof {
            assert forall|a: int, b: int| 0 <= a <= b < out@.len() implies (
            #[trigger] out@[a]).category.position <= (#[trigger] out@[b]).category.position by {
                if b == i && a < i {
                    assert(before[a].category.position <= before[i - 1].category.position);
                    assert(out@[a] == before[a]);
                } else if b < i {
                    assert(out@[a] == before[a] && out@[b] == before[b]);
                }
            }
            assert forall|k: int| 0 <= k < out@.len() implies memos_in_order(
                (#[trigger] out@[k]).category.id@,
                out@[k].memos@,
            ) by {
                if k < i {
                    assert(out@[k] == before[k]);
                }
            }
            assert forall|k: int| 0 <= k < i + 1 implies is_category_row(
                #[trigger] category_rows@[k],
            ) && out@[k].category == category_of(category_rows@[k]) by {
                if k < i {
                    assert(out@[k] == before[k]);
                }
            }
            assert forall|k: int| 0 <= k < i + 1 implies hold_memos((#[trigger] memo_rows@[k])@)
                && memos_in_order(category_rows@[k].texts@[0]@, memos_of(memo_rows@[k]@))
                && out@[k].memos@ == memos_of(memo_rows@[k]@) by {
                if k < i {
                    assert(out@[k] == before[k]);
                }
            }
        }
        i += 1;
    }
    proof {
        assert forall|a: int, b: int| 0 <= a <= b < category_rows@.len() implies (
        #[trigger] category_rows@[a]).integers@[0] <= (
        #[trigger] category_rows@[b]).integers@[0] by {
            assert(out@[a].category.position <= out@[b].category.position);
            assert(is_category_row(category_rows@[a]) && is_category_row(category_rows@[b]));
        }
    }
    Ok(out)
}

/// All categories in the order of their positions, each with its memos in
/// the order of theirs: the list that the rows read make.
pub fn list_all(conn: &rusqlite::Connection) -> (r: Result<Vec<CategoryWithMemos>, StoreError>)
    ensures
        r matches Ok(list) ==> listed_in_order(list@),
        r matches Err(e) ==> is_list_failure(e),
{
    let request = all_categories_request();
    let rows = select(conn, "query categories", request.sql.as_str(), &request.args, 4, 6)?;
    let mut memo_rows: Vec<Vec<Record>> = Vec::new();
    let mut i: usize = 0;
    while i < rows.len()
        invariant
            i <= rows@.len(),
        decreases rows@.len() - i,
    {
        let id = listed_id(&rows[i])?;
        let of_category = memos_of_category_request(id.as_str());
        let read = select(
            conn,
            "query memos",
            of_category.sql.as_str(),
            &of_category.args,
            7,
            4,
        )?;
        memo_rows.push(read);
        i += 1;
    }
    listed(&rows, &memo_rows)
}

/// What creating a category writes: the category of `input` under `id`, at
/// the next position of the categories read, created at `ts`. A failure
/// where no position is left.
pub fn category_to_insert(scope: &Scope, input: &CreateCategoryInput, id: &str, ts: i64) -> (r:
    Result<Request, StoreError>)
    ensures
        next_position_of(scope@) <= i64::MAX ==> (r matches Ok(request) && holds(
            request,
            INSERT_CATEGORY@,
            seq![id@, optional_text(input.emoji), input.title@, input.color@],
            seq![next_position_of(scope@) as i64, flag_of(input.is_todo), ts, ts],
        )),
        next_position_of(scope@) > i64::MAX ==> (r matches Err(e) && is_transaction_failure(
            e,
            "next_position"@,
            "no position is left"@,
        )),
{
    let position = position_for_new_member(scope)?;
    Ok(insert_category_request(input, id, position, ts))
}

fn insert_category_in(
    conn: &rusqlite::Connection,
    input: &CreateCategoryInput,
    id: &str,
    ts: i64,
) -> (r: Result<Category, StoreError>)
    ensures
        r matches Ok(category) ==> is_created_category(
            category,
            *input,
            id@,
            category.position,
            ts,
        ),
        r matches Err(e) ==> is_insert_category_failure(e),
{
    let scope = load_scope(conn, "categories", None)?;
    let request = category_to_insert(&scope, input, id, ts)?;
    run(conn, "insert category", request.sql.as_str(), &request.args)?;
    let position = request.args.integers[0];
    confirm_created_category(fetch_category(conn, id)?, input, id, position, ts)
}

/// Creates a category under `id`, at the position after the last category,
/// and gives it back as the storage holds it.
pub fn insert_category(
    conn: &mut rusqlite::Connection,
    input: &CreateCategoryInput,
    id: &str,
    ts: i64,
) -> (r: Result<Category, StoreError>)
    ensures
        r matches Ok(category) ==> is_created_category(
            category,
            *input,
            id@,
            category.position,
            ts,
        ),
        r matches Err(e) ==> is_transaction_boundary_failure(e) || is_insert_category_failure(e),
{
    let tx = match begin(conn) {
        Ok(tx) => tx,
        Err(e) => {
            return Err(failure("tx begin", &e));
        },
    };
    let out = insert_category_in(connection_of(&tx), input, id, ts);
    conclude(tx, out)
}

/// Writes emoji, title and color of a category and gives the category back
/// as the storage holds it.
pub fn rewrite_category(conn: &rusqlite::Connection, input: &UpdateCategoryInput, ts: i64) -> (r:
    Result<Category, StoreError>)
    ensures
        r matches Ok(category) ==> is_updated_category(category, *input, ts),
        r matches Err(e) ==> e.is_failure_of("update category"@) || is_fetch_category_failure(e),
{
    let request = update_category_request(input, ts);
    run(conn, "update category", request.sql.as_str(), &request.args)?;
    confirm_updated_category(fetch_category(conn, input.id.as_str())?, input, ts)
}

/// Sets or clears the archived flag of a category and gives the category
/// back as the storage holds it.
pub fn archive_category(conn: &rusqlite::Connection, input: &SetCategoryArchivedInput, ts: i64) -> (r:
    Result<Category, StoreError>)
    ensures
        r matches Ok(category) ==> is_archived_as(category, input.id@, input.archived, ts),
        r matches Err(e) ==> e.is_failure_of("set archived"@) || is_fetch_category_failure(e),
{
    let request = set_archived_request(input, ts);
    run(conn, "set archived", request.sql.as_str(), &request.args)?;
    confirm_archived(fetch_category(conn, input.id.as_str())?, &input.id, input.archived, ts)
}

/// Sets or clears the collapsed flag of a category and gives the category
/// back as the storage holds it.
pub fn collapse_category(
    conn: &rusqlite::Connection,
    input: &SetCategoryCollapsedInput,
    ts: i64,
) -> (r: Result<Category, StoreError>)
    ensures
        r matches Ok(category) ==> is_collapsed_as(
            category,
            input.id@,
            input.is_collapsed,
            ts,
        ),
        r matches Err(e) ==> e.is_failure_of("set collapsed"@) || is_fetch_category_failure(e),
{
    let request = set_collapsed_request(input, ts);
    run(conn, "set collapsed", request.sql.as_str(), &request.args)?;
    confirm_collapsed(
        fetch_category(conn, input.id.as_str())?,
        &input.id,
        input.is_collapsed,
        ts,
    )
}

/// Closes the gap at `removed_position` among the categories.
fn compact_categories(conn: &rusqlite::Connection, removed_position: i64) -> (r: Result<
    (),
    StoreError,
>)
    ensures
        r matches Err(e) ==> is_compaction_failure(e),
{
    let scope = load_scope(conn, "categories", None)?;
    store_positions(
        conn,
        "compact positions",
        PLACE_CATEGORY,
        &scope.compaction_writes(removed_position),
    )
}

fn remove_category_in(conn: &rusqlite::Connection, id: &str) -> (r: Result<(), StoreError>)
    ensures
        r matches Err(e) ==> is_remove_category_failure(e),
{
    let asked = category_position_request(id);
    let rows = select(conn, "get category meta", asked.sql.as_str(), &asked.args, 0, 1)?;
    let position = category_position_or_missing(&rows)?;
    let request = delete_category_request(id);
    run(conn, "delete category", request.sql.as_str(), &request.args)?;
    compact_categories(conn, position)
}

/// Deletes a category and closes the gap it leaves among the categories;
/// the storage deletes its memos with it. Fails with `NotFound` where there
/// is no such category.
pub fn remove_category(conn: &mut rusqlite::Connection, id: &str) -> (r: Result<(), StoreError>)
    ensures
        r matches Err(e) ==> is_transaction_boundary_failure(e) || is_remove_category_failure(e),
{
    let tx = match begin(conn) {
        Ok(tx) => tx,
        Err(e) => {
            return Err(failure("tx begin", &e));
        },
    };
    let out = remove_category_in(connection_of(&tx), id);
    conclude(tx, out)
}

fn rank_categories_in(conn: &rusqlite::Connection, ordered_ids: &Vec<String>, ts: i64) -> (r:
    Result<(), StoreError>)
    requires
        ordered_ids@.len() <= i64::MAX,
    ensures
        r matches Err(e) ==> is_rank_categories_failure(e),
{
    let scope = load_scope(conn, "categories", None)?;
    store_ranks(conn, "reorder category", RANK_CATEGORY, &scope.reorder_writes(ordered_ids), ts)
}

/// Gives every category that the list names the index at which the list
/// names it as its position. A category that the list leaves out keeps its
/// position. A list too long for its indices to be positions is refused
/// before the storage is touched.
pub fn rank_categories(conn: &mut rusqlite::Connection, input: &ReorderCategoriesInput, ts: i64) -> (r:
    Result<(), StoreError>)
    ensures
        input.ordered_ids@.len() > i64::MAX ==> (r matches Err(e) && e.is_rejection_of(
            "reorder category"@,
            "too many ids"@,
        )),
        input.ordered_ids@.len() <= i64::MAX ==> (r matches Err(e)
            ==> is_transaction_boundary_failure(e) || is_rank_categories_failure(e)),
{
    accepted_order("reorder category", &input.ordered_ids)?;
    let tx = match begin(conn) {
        Ok(tx) => tx,
        Err(e) => {
            return Err(failure("tx begin", &e));
        },
    };
    let out = rank_categories_in(connection_of(&tx), &input.ordered_ids, ts);
    conclude(tx, out)
}

fn rank_memos_in(conn: &rusqlite::Connection, input: &ReorderMemosInput, ts: i64) -> (r: Result<
    (),
    StoreError,
>)
    requires
        input.ordered_ids@.len() <= i64::MAX,
    ensures
        r matches Err(e) ==> is_rank_memos_failure(e),
{
    let scope = load_scope(
        conn,
        "memos",
        Some(("category_id", input.category_id.as_str())),
    )?;
    store_ranks(conn, "reorder memos", RANK_MEMO, &scope.reorder_writes(&input.ordered_ids), ts)
}

/// Gives every memo of the category that the list names the index at which
/// the list names it as its position. A memo that the list leaves out, and
/// one of another category, keeps its position. A list too long for its
/// indices to be positions is refused before the storage is touched.
pub fn rank_memos(conn: &mut rusqlite::Connection, input: &ReorderMemosInput, ts: i64) -> (r: Result<
    (),
    StoreError,
>)
    ensures
        input.ordered_ids@.len() > i64::MAX ==> (r matches Err(e) && e.is_rejection_of(
            "reorder memos"@,
            "too many ids"@,
        )),
        input.ordered_ids@.len() <= i64::MAX ==> (r matches Err(e)
            ==> is_transaction_boundary_failure(e) || is_rank_memos_failure(e)),
{
    accepted_order("reorder memos", &input.ordered_ids)?;
    let tx = match begin(conn) {
        Ok(tx) => tx,
        Err(e) => {
            return Err(failure("tx begin", &e));
        },
    };
    let out = rank_memos_in(connection_of(&tx), input, ts);
    conclude(tx, out)
}

/// The stored settings; a background color that was never set is the empty
/// text.
pub fn read_settings(conn: &rusqlite::Connection) -> (r: Result<AppSettings, StoreError>)
    ensures
        r matches Err(e) ==> e.is_failure_of("get settings"@),
{
    let request = background_color_request();
    let rows = select(conn, "get settings", request.sql.as_str(), &request.args, 1, 0)?;
    Ok(settings_of(&rows))
}

/// Stores the background color, in place of one stored before.
pub fn write_background_color(conn: &rusqlite::Connection, input: &SetBackgroundColorInput) -> (r:
    Result<(), StoreError>)
    ensures
        r matches Err(e) ==> e.is_failure_of("set settings"@),
{
    let request = set_background_color_request(input);
    run(conn, "set settings", request.sql.as_str(), &request.args)?;
    Ok(())
}

/// What creating a memo writes: the memo of `input` under `id`, at the next
/// position of the memos read for its category, created at `ts`. A failure
/// where no position is left.
pub fn memo_to_insert(scope: &Scope, input: &CreateMemoInput, id: &str, ts: i64) -> (r: Result<
    Request,
    StoreError,
>)
    ensures
        next_position_of(scope@) <= i64::MAX ==> (r matches Ok(request) && holds(
            request,
            INSERT_MEMO@,
            seq![
                id@,
                input.category_id@,
                optional_text(input.emoji),
                input.title@,
                input.color@,
                optional_text(input.date_ymd),
                input.content_md@,
            ],
            seq![next_position_of(scope@) as i64, ts, ts],
        )),
        next_position_of(scope@) > i64::MAX ==> (r matches Err(e) && is_transaction_failure(
            e,
            "next_position"@,
            "no position is left"@,
        )),
{
    let position = position_for_new_member(scope)?;
    Ok(insert_memo_request(input, id, position, ts))
}

fn insert_memo_in(conn: &rusqlite::Connection, input: &CreateMemoInput, id: &str, ts: i64) -> (r:
    Result<Memo, StoreError>)
    ensures
        r matches Ok(memo) ==> is_created_memo(memo, *input, id@, memo.position, ts),
        r matches Err(e) ==> is_insert_memo_failure(e),
{
    let scope = load_scope(conn, "memos", Some(("category_id", input.category_id.as_str())))?;
    let request = memo_to_insert(&scope, input, id, ts)?;
    run(conn, "insert memo", request.sql.as_str(), &request.args)?;
    let position = request.args.integers[0];
    confirm_created_memo(fetch_memo(conn, id)?, input, id, position, ts)
}

/// Creates a memo under `id`, at the position after the last memo of its
/// category, and gives it back as the storage holds it. A memo without a
/// date, or with an empty one, gets the local date of `ts`.
pub fn insert_memo(conn: &mut rusqlite::Connection, input: &CreateMemoInput, id: &str, ts: i64) -> (r:
    Result<Memo, StoreError>)
    ensures
        r matches Ok(memo) ==> is_created_memo(memo, *input, id@, memo.position, ts),
        r matches Err(e) ==> is_transaction_boundary_failure(e) || is_insert_memo_failure(e),
{
    let tx = match begin(conn) {
        Ok(tx) => tx,
        Err(e) => {
            return Err(failure("tx begin", &e));
        },
    };
    let out = insert_memo_in(connection_of(&tx), input, id, ts);
    conclude(tx, out)
}

/// Writes the fields of a memo that a user edits and gives the memo back as
/// the storage holds it.
pub fn rewrite_memo(conn: &rusqlite::Connection, input: &UpdateMemoInput, ts: i64) -> (r: Result<
    Memo,
    StoreError,
>)
    ensures
        r matches Ok(memo) ==> is_updated_memo(memo, *input, ts),
        r matches Err(e) ==> e.is_failure_of("update memo"@) || is_fetch_memo_failure(e),
{
    let request = update_memo_request(input, ts);
    run(conn, "update memo", request.sql.as_str(), &request.args)?;
    confirm_updated_memo(fetch_memo(conn, input.id.as_str())?, input, ts)
}

/// Closes the gap at `removed_position` among the memos of a category.
fn compact_memos(conn: &rusqlite::Connection, category_id: &str, removed_position: i64) -> (r:
    Result<(), StoreError>)
    ensures
        r matches Err(e) ==> is_compaction_failure(e),
{
    let scope = load_scope(conn, "memos", Some(("category_id", category_id)))?;
    store_positions(conn, "compact positions", PLACE_MEMO, &scope.compaction_writes(removed_position))
}

/// Where the memo `id` stands; `NotFound` where there is no such memo.
fn find_memo(conn: &rusqlite::Connection, id: &str) -> (r: Result<(String, i64), StoreError>)
    ensures
        r matches Err(e) ==> e.is_failure_of("get memo meta"@) || is_not_found(e, "memo"@),
{
    let request = memo_placement_request(id);
    let rows = select(conn, "get memo meta", request.sql.as_str(), &request.args, 1, 1)?;
    placement_or_missing(&rows)
}

fn remove_memo_in(conn: &rusqlite::Connection, id: &str) -> (r: Result<(), StoreError>)
    ensures
        r matches Err(e) ==> is_remove_memo_failure(e),
{
    let (category_id, position) = find_memo(conn, id)?;
    let request = delete_memo_request(id);
    run(conn, "delete memo", request.sql.as_str(), &request.args)?;
    compact_memos(conn, category_id.as_str(), position)
}

/// Deletes a memo and closes the gap it leaves among the memos of its
/// category. Fails with `NotFound` where there is no such memo.
pub fn remove_memo(conn: &mut rusqlite::Connection, id: &str) -> (r: Result<(), StoreError>)
    ensures
        r matches Err(e) ==> is_transaction_boundary_failure(e) || is_remove_memo_failure(e),
{
    let tx = match begin(conn) {
        Ok(tx) => tx,
        Err(e) => {
            return Err(failure("tx begin", &e));
        },
    };
    let out = remove_memo_in(connection_of(&tx), id);
    conclude(tx, out)
}

/// What moving a memo writes for it: the category it moves to and, as its
/// position, the next position among the memos that `destination` holds
/// besides it, with `ts` as the time of the change. A failure where no
/// position is left.
pub fn memo_to_move(destination: &Scope, input: &MoveMemoInput, ts: i64) -> (r: Result<
    Request,
    StoreError,
>)
    ensures
        next_position_of(without(destination@, input.memo_id@)) <= i64::MAX ==> (r matches Ok(
            request,
        ) && holds(
            request,
            MOVE_MEMO@,
            seq![input.memo_id@, input.to_category_id@],
            seq![next_position_of(without(destination@, input.memo_id@)) as i64, ts],
        )),
        next_position_of(without(destination@, input.memo_id@)) > i64::MAX ==> (r matches Err(e)
            && is_transaction_failure(e, "next_position"@, "no position is left"@)),
{
    let others = destination.without(&input.memo_id);
    let position = position_for_new_member(&others)?;
    Ok(move_memo_request(input, position, ts))
}

fn relocate_memo_in(conn: &rusqlite::Connection, input: &MoveMemoInput, ts: i64) -> (r: Result<
    (),
    StoreError,
>)
    ensures
        r matches Err(e) ==> is_relocate_memo_failure(e),
{
    let (from_category_id, from_position) = find_memo(conn, input.memo_id.as_str())?;
    compact_memos(conn, from_category_id.as_str(), from_position)?;
    let destination = load_scope(
        conn,
        "memos",
        Some(("category_id", input.to_category_id.as_str())),
    )?;
    let request = memo_to_move(&destination, input, ts)?;
    run(conn, "move memo", request.sql.as_str(), &request.args)?;
    Ok(())
}

/// Moves a memo to the end of a category: closes the gap it leaves among
/// the memos of its category and places it after the last of the other
/// memos of the category it moves to, which may be its own. Fails with
/// `NotFound` where there is no such memo.
pub fn relocate_memo(conn: &mut rusqlite::Connection, input: &MoveMemoInput, ts: i64) -> (r: Result<
    (),
    StoreError,
>)
    ensures
        r matches Err(e) ==> is_transaction_boundary_failure(e) || is_relocate_memo_failure(e),
{
    let tx = match begin(conn) {
        Ok(tx) => tx,
        Err(e) => {
            return Err(failure("tx begin", &e));
        },
    };
    let out = relocate_memo_in(connection_of(&tx), input, ts);
    conclude(tx, out)
}

} // verus!
