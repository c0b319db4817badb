//! Records kept by the store and the requests that change them.

use vstd::prelude::*;

verus! {

/// A top-level collection. Its `position` ranks it among all groups.
#[derive(Debug, Clone, PartialEq, Eq)]
pub struct Category {
    pub id: String,
    pub emoji: String,
    pub title: String,
    pub color: String,
    pub position: i64,
    pub archived: bool,
    pub is_todo: bool,
    pub is_collapsed: bool,
    pub created_at: i64,
    pub updated_at: i64,
}

/// A note that belongs to exactly one category. Its `position` ranks it
/// among the memos of that category.
#[derive(Debug, Clone, PartialEq, Eq)]
pub struct Memo {
    pub id: String,
    pub category_id: String,
    pub emoji: String,
    pub title: String,
    pub color: String,
    pub date_ymd: String,
    pub content_md: String,
    pub todo_done: bool,
    pub position: i64,
    pub created_at: i64,
    pub updated_at: i64,
}

/// A category together with its memos, in position order.
#[derive(Debug, Clone, PartialEq, Eq)]
pub struct CategoryWithMemos {
    pub category: Category,
    pub memos: Vec<Memo>,
}

#[derive(Debug, Clone, PartialEq, Eq)]
pub struct CreateCategoryInput {
    pub emoji: Option<String>,
    pub title: String,
    pub color: String,
    pub is_todo: bool,
}

#[derive(Debug, Clone, PartialEq, Eq)]
pub struct UpdateCategoryInput {
    pub id: String,
    pub emoji: String,
    pub title: String,
    pub color: String,
}

#[derive(Debug, Clone, PartialEq, Eq)]
pub struct SetCategoryArchivedInput {
    pub id: String,
    pub archived: bool,
}

#[derive(Debug, Clone, PartialEq, Eq)]
pub struct SetCategoryCollapsedInput {
    pub id: String,
    pub is_collapsed: bool,
}

/// The ids of all categories, in the order they are to take.
#[derive(Debug, Clone, PartialEq, Eq)]
pub struct ReorderCategoriesInput {
    pub ordered_ids: Vec<String>,
}

/// The ids of all memos of one category, in the order they are to take.
#[derive(Debug, Clone, PartialEq, Eq)]
pub struct ReorderMemosInput {
    pub category_id: String,
    pub ordered_ids: Vec<String>,
}

#[derive(Debug, Clone, PartialEq, Eq)]
pub struct AppSettings {
    pub background_color: String,
}

#[derive(Debug, Clone, PartialEq, Eq)]
pub struct SetBackgroundColorInput {
    pub background_color: String,
}

/// A memo to create. Without a `date_ymd`, or with an empty one, the memo
/// gets the local calendar date of its creation.
#[derive(Debug, Clone, PartialEq, Eq)]
pub struct CreateMemoInput {
    pub category_id: String,
    pub emoji: Option<String>,
    pub title: String,
    pub color: String,
    pub date_ymd: Option<String>,
    pub content_md: String,
}

#[derive(Debug, Clone, PartialEq, Eq)]
pub struct UpdateMemoInput {
    pub id: String,
    pub emoji: String,
    pub title: String,
    pub color: String,
    pub date_ymd: String,
    pub content_md: String,
    pub todo_done: bool,
}

#[derive(Debug, Clone, PartialEq, Eq)]
pub struct MoveMemoInput {
    pub memo_id: String,
    pub to_category_id: String,
}

} // verus!
