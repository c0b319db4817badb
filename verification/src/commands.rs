//! The operations of the store as its users call them: each acquires the
//! guard of the connection, works on the storage, and releases the guard.

use crate::clock::now_timestamp_ms;
use crate::error::StoreError;
use crate::guard::{guarded, DbState};
use crate::migration::{is_run_failure, migrate};
use crate::models::{
    AppSettings, Category, CategoryWithMemos, CreateCategoryInput, CreateMemoInput, Memo,
    MoveMemoInput, ReorderCategoriesInput, ReorderMemosInput, SetBackgroundColorInput,
    SetCategoryArchivedInput, SetCategoryCollapsedInput, UpdateCategoryInput, UpdateMemoInput,
};
use crate::sqlite::{open_connection, run_batch};
use crate::statements::ENFORCE_REFERENCES;
use crate::store::{
    listed_in_order,
    archive_category, collapse_category, failure, insert_category, insert_memo,
    is_created_category, is_created_memo, is_updated_category, is_updated_memo,
    is_fetch_category_failure, is_fetch_memo_failure, is_insert_category_failure,
    is_insert_memo_failure, is_list_failure, is_rank_categories_failure, is_rank_memos_failure,
    is_relocate_memo_failure, is_remove_category_failure, is_remove_memo_failure, is_transaction_boundary_failure, list_all,
    rank_categories, rank_memos, read_settings, relocate_memo, remove_category, remove_memo,
    rewrite_category, rewrite_memo, write_background_color,
};
use vstd::prelude::*;

verus! {

/// `uuid::Uuid::new_v4`, in the hyphenated form that it displays: 36
/// characters. Which id comes is left open.
#[verifier::external_body]
fn random_uuid() -> (r: String)
    ensures
        r@.len() == 36,
{
    uuid::Uuid::new_v4().to_string()
}

/// A fresh id for a record.
pub fn new_id() -> (r: String)
    ensures
        r@.len() == 36,
{
    random_uuid()
}

/// Opens the storage at `path`, has it enforce references between records,
/// and brings its schema to the latest version. The storage is handed out,
/// behind its guard, only where all of this went through.
pub fn init_db(path: &std::path::PathBuf) -> (r: Result<DbState, StoreError>)
    ensures
        r matches Err(e) ==> e.is_failure_of("db open"@) || e.is_failure_of("pragma"@) || is_run_failure(e),
{
    let conn = match open_connection(path) {
        Ok(conn) => conn,
        Err(e) => {
            return Err(failure("db open", &e));
        },
    };
    match run_batch(&conn, ENFORCE_REFERENCES) {
        Ok(()) => {},
        Err(e) => {
            return Err(failure("pragma", &e));
        },
    }
    migrate(&conn)?;
    Ok(DbState::new(conn))
}

/// All categories in the order of their positions, each with its memos in
/// the order of theirs.
pub fn list_categories_with_memos(state: &DbState) -> (r: Result<
    Vec<CategoryWithMemos>,
    StoreError,
>)
    ensures
        r matches Ok(list) ==> listed_in_order(list@),
        r matches Err(e) ==> e is Unavailable || is_list_failure(e),
{
    let mut guard = state.acquire()?;
    list_all(guarded(&mut guard))
}

/// Creates a category at the position after the last category.
pub fn create_category(state: &DbState, input: CreateCategoryInput) -> (r: Result<
    Category,
    StoreError,
>)
    ensures
        r matches Ok(category) ==> category.id@.len() == 36 && is_created_category(
            category,
            input,
            category.id@,
            category.position,
            category.created_at,
        ),
        r matches Err(e) ==> e is Unavailable || is_transaction_boundary_failure(e) || is_insert_category_failure(e),
{
    let mut guard = state.acquire()?;
    let id = new_id();
    let ts = now_timestamp_ms();
    insert_category(guarded(&mut guard), &input, id.as_str(), ts)
}

/// Writes emoji, title and color of a category.
pub fn update_category(state: &DbState, input: UpdateCategoryInput) -> (r: Result<
    Category,
    StoreError,
>)
    ensures
        r matches Ok(category) ==> is_updated_category(category, input, category.updated_at),
        r matches Err(e) ==> e is Unavailable || e.is_failure_of("update category"@) || is_fetch_category_failure(e),
{
    let mut guard = state.acquire()?;
    let ts = now_timestamp_ms();
    rewrite_category(guarded(&mut guard), &input, ts)
}

/// Sets or clears the archived flag of a category.
pub fn set_category_archived(state: &DbState, input: SetCategoryArchivedInput) -> (r: Result<
    Category,
    StoreError,
>)
    ensures
        r matches Ok(category) ==> category.id@ == input.id@ && category.archived
            == input.archived,
        r matches Err(e) ==> e is Unavailable || e.is_failure_of("set archived"@) || is_fetch_category_failure(e),
{
    let mut guard = state.acquire()?;
    let ts = now_timestamp_ms();
    archive_category(guarded(&mut guard), &input, ts)
}

/// Sets or clears the collapsed flag of a category.
pub fn set_category_collapsed(state: &DbState, input: SetCategoryCollapsedInput) -> (r: Result<
    Category,
    StoreError,
>)
    ensures
        r matches Ok(category) ==> category.id@ == input.id@ && category.is_collapsed
            == input.is_collapsed,
        r matches Err(e) ==> e is Unavailable || e.is_failure_of("set collapsed"@) || is_fetch_category_failure(e),
{
    let mut guard = state.acquire()?;
    let ts = now_timestamp_ms();
    collapse_category(guarded(&mut guard), &input, ts)
}

/// Deletes a category and, with it, its memos, and closes the gap it leaves
/// among the categories.
pub fn delete_category(state: &DbState, id: String) -> (r: Result<(), StoreError>)
    ensures
        r matches Err(e) ==> e is Unavailable || is_transaction_boundary_failure(e)
            || is_remove_category_failure(e),
{
    let mut guard = state.acquire()?;
    remove_category(guarded(&mut guard), id.as_str())
}

/// Ranks the categories by a list of all their ids.
pub fn reorder_categories(state: &DbState, input: ReorderCategoriesInput) -> (r: Result<
    (),
    StoreError,
>)
    ensures
        input.ordered_ids@.len() > i64::MAX ==> (r matches Err(e) && (e is Unavailable
            || e.is_rejection_of("reorder category"@, "too many ids"@))),
        input.ordered_ids@.len() <= i64::MAX ==> (r matches Err(e) ==> e is Unavailable
            || is_transaction_boundary_failure(e) || is_rank_categories_failure(e)),
{
    let mut guard = state.acquire()?;
    let ts = now_timestamp_ms();
    rank_categories(guarded(&mut guard), &input, ts)
}

/// Ranks the memos of one category by a list of all their ids.
pub fn reorder_memos(state: &DbState, input: ReorderMemosInput) -> (r: Result<(), StoreError>)
    ensures
        input.ordered_ids@.len() > i64::MAX ==> (r matches Err(e) && (e is Unavailable
            || e.is_rejection_of("reorder memos"@, "too many ids"@))),
        input.ordered_ids@.len() <= i64::MAX ==> (r matches Err(e) ==> e is Unavailable
            || is_transaction_boundary_failure(e) || is_rank_memos_failure(e)),
{
    let mut guard = state.acquire()?;
    let ts = now_timestamp_ms();
    rank_memos(guarded(&mut guard), &input, ts)
}

/// The stored settings.
pub fn get_app_settings(state: &DbState) -> (r: Result<AppSettings, StoreError>)
    ensures
        r matches Err(e) ==> e is Unavailable || e.is_failure_of("get settings"@),
{
    let mut guard = state.acquire()?;
    read_settings(guarded(&mut guard))
}

/// Stores the background color.
pub fn set_background_color(state: &DbState, input: SetBackgroundColorInput) -> (r: Result<
    (),
    StoreError,
>)
    ensures
        r matches Err(e) ==> e is Unavailable || e.is_failure_of("set settings"@),
{
    let mut guard = state.acquire()?;
    write_background_color(guarded(&mut guard), &input)
}

/// Creates a memo at the position after the last memo of its category.
pub fn create_memo(state: &DbState, input: CreateMemoInput) -> (r: Result<Memo, StoreError>)
    ensures
        r matches Ok(memo) ==> memo.id@.len() == 36 && is_created_memo(
            memo,
            input,
            memo.id@,
            memo.position,
            memo.created_at,
        ),
        r matches Err(e) ==> e is Unavailable || is_transaction_boundary_failure(e) || is_insert_memo_failure(e),
{
    let mut guard = state.acquire()?;
    let id = new_id();
    let ts = now_timestamp_ms();
    insert_memo(guarded(&mut guard), &input, id.as_str(), ts)
}

/// Writes the fields of a memo that a user edits.
pub fn update_memo(state: &DbState, input: UpdateMemoInput) -> (r: Result<Memo, StoreError>)
    ensures
        r matches Ok(memo) ==> is_updated_memo(memo, input, memo.updated_at),
        r matches Err(e) ==> e is Unavailable || e.is_failure_of("update memo"@) || is_fetch_memo_failure(e),
{
    let mut guard = state.acquire()?;
    let ts = now_timestamp_ms();
    rewrite_memo(guarded(&mut guard), &input, ts)
}

/// Deletes a memo and closes the gap it leaves in its category. Fails with
/// `NotFound` where there is no such memo.
pub fn delete_memo(state: &DbState, id: String) -> (r: Result<(), StoreError>)
    ensures
        r matches Err(e) ==> e is Unavailable || is_transaction_boundary_failure(e) || is_remove_memo_failure(e),
{
    let mut guard = state.acquire()?;
    remove_memo(guarded(&mut guard), id.as_str())
}

/// Moves a memo to the end of a category.
pub fn move_memo(state: &DbState, input: MoveMemoInput) -> (r: Result<(), StoreError>)
    ensures
        r matches Err(e) ==> e is Unavailable || is_transaction_boundary_failure(e) || is_relocate_memo_failure(e),
{
    let mut guard = state.acquire()?;
    let ts = now_timestamp_ms();
    relocate_memo(guarded(&mut guard), &input, ts)
}

} // verus!
