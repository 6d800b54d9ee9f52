//! Task and category descriptions.

use vstd::prelude::*;

use crate::model::random::{hex_id, random_hex_32};

verus! {

/// Identifier of a task: a 32-character random hexadecimal string, unique
/// per user.
pub type TaskId = String;

/// Identifier of a task category, with the same shape as a task identifier.
pub type TaskCategoryId = String;

/// Draws a fresh random identifier: the lowercase hexadecimal encoding of
/// 16 random bytes, hence exactly 32 characters.
pub fn generate_random() -> (r: String)
    ensures
        r@.len() == 32,
        hex_id(r@),
{
    random_hex_32()
}

/// The mathematical content of a [`TaskDescription`].
pub struct TaskView {
    pub task_id: Seq<char>,
    pub label: Seq<char>,
    pub description: Seq<char>,
    pub category_id: Seq<char>,
}

/// A task as stored: its identifier, display label, free-form description,
/// and the category it belongs to.
#[derive(Debug)]
pub struct TaskDescription {
    pub task_id: TaskId,
    pub label: String,
    pub description: String,
    pub category_id: TaskCategoryId,
}

impl View for TaskDescription {
    type V = TaskView;

    open spec fn view(&self) -> TaskView {
        TaskView {
            task_id: self.task_id@,
            label: self.label@,
            description: self.description@,
            category_id: self.category_id@,
        }
    }
}

impl TaskDescription {
    pub fn clone(&self) -> (r: Self)
        ensures
            r@ == self@,
    {
        TaskDescription {
            task_id: self.task_id.clone(),
            label: self.label.clone(),
            description: self.description.clone(),
            category_id: self.category_id.clone(),
        }
    }
}

/// The mathematical content of a [`TaskCategoryDescription`].
pub struct CategoryView {
    pub category_id: Seq<char>,
    pub label: Seq<char>,
}

/// A task category as stored: its identifier and display label.
#[derive(Debug)]
pub struct TaskCategoryDescription {
    pub category_id: TaskCategoryId,
    pub label: String,
}

impl View for TaskCategoryDescription {
    type V = CategoryView;

    open spec fn view(&self) -> CategoryView {
        CategoryView { category_id: self.category_id@, label: self.label@ }
    }
}

impl TaskCategoryDescription {
    pub fn clone(&self) -> (r: Self)
        ensures
            r@ == self@,
    {
        TaskCategoryDescription {
            category_id: self.category_id.clone(),
            label: self.label.clone(),
        }
    }
}

} // verus!
