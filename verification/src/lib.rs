//! An ordered store of categories and memos on SQLite.
//!
//! Every category has a position among all categories, and every memo has a
//! position among the memos of its category. The positions of each such
//! scope are meant to be dense: `0, 1, .., n - 1` for its `n` members.
//!
//! - `position` is the index that assigns positions: the next position of
//!   a scope, the closing of a gap, the ranking by a list of ids.
//! - `density` and `board` state and prove what these do to dense scopes,
//!   one change at a time and over any history of changes.
//! - `migration` is the engine that upgrades the schema step by step.
//! - `store` holds the operations on a connection, `commands` the same
//!   operations behind the guard of the one connection (`guard`).
//! - `statements` builds what is handed to SQLite, `sqlite` holds the calls
//!   into it, `rows` reads what they return.

pub mod board;
pub mod clock;
pub mod commands;
pub mod density;
pub mod error;
pub mod guard;
pub mod migration;
pub mod models;
pub mod position;
pub mod rows;
pub mod sqlite;
pub mod statements;
pub mod store;

pub use clock::{now_ms, now_timestamp_ms, timestamp_of};
pub use commands::{
    create_category, create_memo, delete_category, delete_memo, get_app_settings, init_db,
    list_categories_with_memos, move_memo, new_id, reorder_categories, reorder_memos,
    set_background_color, set_category_archived, set_category_collapsed, update_category,
    update_memo,
};
pub use error::StoreError;
pub use guard::{acquired, DbState};
pub use migration::{
    advance, first_integer, migrate, migration_failure, read_version, step_for, MigrationStep,
    LATEST_VERSION,
};
pub use models::{
    AppSettings, Category, CategoryWithMemos, CreateCategoryInput, CreateMemoInput, Memo,
    MoveMemoInput, ReorderCategoriesInput, ReorderMemosInput, SetBackgroundColorInput,
    SetCategoryArchivedInput, SetCategoryCollapsedInput, UpdateCategoryInput, UpdateMemoInput,
};
pub use position::{Member, Scope};
pub use rows::{
    first_placement, row_to_category, row_to_memo, rows_to_memos, rows_to_scope, settings_of,
};
pub use sqlite::Record;
pub use statements::{flag_column, text_or_empty, Request};
pub use store::{
    archive_category, collapse_category, fetched_category, fetched_memo,
    get_memo_category_and_position, insert_category, insert_memo, list_all, load_scope,
    next_position, position_for_new_member, rank_categories, rank_memos, read_settings,
    relocate_memo, remove_category, remove_memo, rewrite_category, rewrite_memo,
    touch_updated_at, touch_updated_at_with, write_background_color,
};
