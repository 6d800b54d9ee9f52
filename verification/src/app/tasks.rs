//! The tasks service: thin orchestration over the tasks repository, plus
//! board assembly, which cross-references the independently fetched task
//! and category lists and must detect their mutual inconsistency.

use vstd::prelude::*;

use crate::app::repositories::{
    categories_of, has_task, tasks_of, CategoryRecord, RepoError, TaskRecord, TasksRepository,
};
use crate::model::tasks::{
    CategoryView, TaskCategoryDescription, TaskCategoryId, TaskDescription, TaskId, TaskView,
};
use crate::model::text::str_eq;
use crate::model::types::UserId;

verus! {

/// Thin orchestration over a tasks repository backend.
pub struct TasksService<T> {
    tasks: T,
}

impl<T: TasksRepository> TasksService<T> {
    /// The backend is well-formed.
    pub closed spec fn inv(&self) -> bool {
        self.tasks.inv()
    }

    /// The stored task rows.
    pub closed spec fn tasks_view(&self) -> Seq<TaskRecord> {
        self.tasks.tasks()
    }

    /// The stored category rows.
    pub closed spec fn categories_view(&self) -> Seq<CategoryRecord> {
        self.tasks.categories()
    }

    /// Builds the service over an explicitly injected repository.
    pub fn new(tasks: T) -> (s: Self)
        requires
            tasks.inv(),
        ensures
            s.inv(),
            s.tasks_view() == tasks.tasks(),
            s.categories_view() == tasks.categories(),
    {
        Self { tasks }
    }

    /// All tasks owned by the user, in storage order.
    pub fn fetch_tasks(&self, user_id: UserId) -> (r: Result<Vec<TaskDescription>, RepoError>)
        requires
            self.inv(),
        ensures
            match r {
                Ok(ts) => ts@.map_values(|t: TaskDescription| t@) == tasks_of(
                    self.tasks_view(),
                    user_id@,
                ),
                Err(_) => true,
            },
    {
        self.tasks.fetch_tasks(user_id)
    }

    /// Stores a new task under a fresh id for the user.
    pub fn create_task(
        &mut self,
        user_id: UserId,
        label: &str,
        description: &str,
        category_id: &str,
    ) -> (r: Result<TaskId, RepoError>)
        requires
            old(self).inv(),
        ensures
            final(self).inv(),
            final(self).categories_view() == old(self).categories_view(),
            match r {
                Ok(tid) => {
                    &&& !has_task(old(self).tasks_view(), user_id@, tid@)
                    &&& final(self).tasks_view() == old(self).tasks_view().push(
                        TaskRecord {
                            user_id: user_id@,
                            task: TaskView {
                                task_id: tid@,
                                label: label@,
                                description: description@,
                                category_id: category_id@,
                            },
                        },
                    )
                },
                Err(_) => final(self).tasks_view() == old(self).tasks_view(),
            },
    {
        self.tasks.create_task(user_id, label, description, category_id)
    }

    /// Replaces the content of the task matching (user, task id); fails
    /// with [`RepoError::NotFound`] if no task matches.
    pub fn modify_task(
        &mut self,
        user_id: UserId,
        task_id: &str,
        label: &str,
        description: &str,
        category_id: &str,
    ) -> (r: Result<(), RepoError>)
        requires
            old(self).inv(),
        ensures
            final(self).inv(),
            final(self).categories_view() == old(self).categories_view(),
            match r {
                Ok(_) => exists|i: int|
                    {
                        &&& 0 <= i < old(self).tasks_view().len()
                        &&& old(self).tasks_view()[i].user_id == user_id@
                        &&& old(self).tasks_view()[i].task.task_id == task_id@
                        &&& final(self).tasks_view() == old(self).tasks_view().update(
                            i,
                            TaskRecord {
                                user_id: user_id@,
                                task: TaskView {
                                    task_id: task_id@,
                                    label: label@,
                                    description: description@,
                                    category_id: category_id@,
                                },
                            },
                        )
                    },
                Err(e) => final(self).tasks_view() == old(self).tasks_view() && (e matches
                RepoError::NotFound ==> !has_task(old(self).tasks_view(), user_id@, task_id@)),
            },
    {
        let r = self.tasks.modify_task(user_id, task_id, label, description, category_id);
        proof {
            if r is Ok {
                let rec = TaskRecord {
                    user_id: user_id@,
                    task: TaskView {
                        task_id: task_id@,
                        label: label@,
                        description: description@,
                        category_id: category_id@,
                    },
                };
                let i = choose|i: int|
                    {
                        &&& 0 <= i < old(self).tasks.tasks().len()
                        &&& old(self).tasks.tasks()[i].user_id == user_id@
                        &&& old(self).tasks.tasks()[i].task.task_id == task_id@
                        &&& self.tasks.tasks() == old(self).tasks.tasks().update(i, rec)
                    };
                assert({
                    &&& 0 <= i < old(self).tasks_view().len()
                    &&& old(self).tasks_view()[i].user_id == user_id@
                    &&& old(self).tasks_view()[i].task.task_id == task_id@
                    &&& final(self).tasks_view() == old(self).tasks_view().update(i, rec)
                });
            }
        }
        r
    }

    /// Removes the task matching (user, task id); fails with
    /// [`RepoError::NotFound`] if no task matches.
    pub fn delete_task(&mut self, user_id: UserId, task_id: &str) -> (r: Result<(), RepoError>)
        requires
            old(self).inv(),
        ensures
            final(self).inv(),
            final(self).categories_view() == old(self).categories_view(),
            match r {
                Ok(_) => exists|i: int|
                    {
                        &&& 0 <= i < old(self).tasks_view().len()
                        &&& old(self).tasks_view()[i].user_id == user_id@
                        &&& old(self).tasks_view()[i].task.task_id == task_id@
                        &&& final(self).tasks_view() == old(self).tasks_view().remove(i)
                    },
                Err(e) => final(self).tasks_view() == old(self).tasks_view() && (e matches
                RepoError::NotFound ==> !has_task(old(self).tasks_view(), user_id@, task_id@)),
            },
    {
        let r = self.tasks.delete_task(user_id, task_id);
        proof {
            if r is Ok {
                let i = choose|i: int|
                    {
                        &&& 0 <= i < old(self).tasks.tasks().len()
                        &&& old(self).tasks.tasks()[i].user_id == user_id@
                        &&& old(self).tasks.tasks()[i].task.task_id == task_id@
                        &&& self.tasks.tasks() == old(self).tasks.tasks().remove(i)
                    };
                assert({
                    &&& 0 <= i < old(self).tasks_view().len()
                    &&& old(self).tasks_view()[i].user_id == user_id@
                    &&& old(self).tasks_view()[i].task.task_id == task_id@
                    &&& final(self).tasks_view() == old(self).tasks_view().remove(i)
                });
            }
        }
        r
    }

    /// All categories owned by the user, in storage order.
    pub fn fetch_categories(&self, user_id: UserId) -> (r: Result<
        Vec<TaskCategoryDescription>,
        RepoError,
    >)
        requires
            self.inv(),
        ensures
            match r {
                Ok(cs) => cs@.map_values(|c: TaskCategoryDescription| c@) == categories_of(
                    self.categories_view(),
                    user_id@,
                ),
                Err(_) => true,
            },
    {
        self.tasks.fetch_categories(user_id)
    }
}

/// A task as displayed on the board.
#[derive(Debug)]
pub struct Task {
    pub task_id: TaskId,
    pub label: String,
    pub description: String,
}

/// The mathematical content of a board [`Task`].
pub struct BoardTaskView {
    pub task_id: Seq<char>,
    pub label: Seq<char>,
    pub description: Seq<char>,
}

impl View for Task {
    type V = BoardTaskView;

    open spec fn view(&self) -> BoardTaskView {
        BoardTaskView {
            task_id: self.task_id@,
            label: self.label@,
            description: self.description@,
        }
    }
}

/// A category as displayed on the board, carrying its tasks in task-fetch
/// order.
#[derive(Debug)]
pub struct TaskCategory {
    pub category_id: TaskCategoryId,
    pub label: String,
    pub ordered_tasks: Vec<Task>,
}

/// The denormalized view joining a user's categories and tasks for display:
/// the categories in category-fetch order, each carrying its tasks.
#[derive(Debug)]
pub struct TasksBoard {
    pub ordered_categories: Vec<TaskCategory>,
}

/// The content of a request to create or modify a task.
#[allow(non_snake_case)]
#[derive(Debug)]
pub struct TaskInputData {
    pub categoryId: TaskCategoryId,
    pub label: String,
    pub description: String,
}

/// A task referencing a category that is absent from the fetched category
/// list: a consistency violation between the two repository reads.
#[derive(Debug)]
pub struct BoardInconsistency {
    pub task_id: String,
    pub category_id: String,
}

/// The board slot a category id selects: the index of the last category
/// row with that id, or -1 if there is none. (When ids repeat, the last
/// occurrence wins.)
pub open spec fn category_slot(cats: Seq<CategoryView>, cid: Seq<char>) -> int
    decreases cats.len(),
{
    if cats.len() == 0 {
        -1
    } else if cats.last().category_id == cid {
        cats.len() - 1
    } else {
        category_slot(cats.drop_last(), cid)
    }
}

/// What a task contributes to the board.
pub open spec fn task_summary(t: TaskView) -> BoardTaskView {
    BoardTaskView { task_id: t.task_id, label: t.label, description: t.description }
}

/// The tasks that end up in board slot `j`, in task order.
pub open spec fn slot_tasks(tasks: Seq<TaskView>, cats: Seq<CategoryView>, j: int) -> Seq<
    BoardTaskView,
>
    decreases tasks.len(),
{
    if tasks.len() == 0 {
        Seq::empty()
    } else {
        let init = slot_tasks(tasks.drop_last(), cats, j);
        if category_slot(cats, tasks.last().category_id) == j {
            init.push(task_summary(tasks.last()))
        } else {
            init
        }
    }
}

/// The views of a task list.
pub open spec fn task_views(ts: Seq<TaskDescription>) -> Seq<TaskView> {
    ts.map_values(|t: TaskDescription| t@)
}

/// The views of a category list.
pub open spec fn category_views(cs: Seq<TaskCategoryDescription>) -> Seq<CategoryView> {
    cs.map_values(|c: TaskCategoryDescription| c@)
}

/// The board mirrors the category list in order, and every slot carries
/// exactly the tasks it receives, in task order.
pub open spec fn board_matches(
    board: TasksBoard,
    tasks: Seq<TaskView>,
    cats: Seq<CategoryView>,
) -> bool {
    &&& board.ordered_categories@.len() == cats.len()
    &&& forall|j: int|
        0 <= j < cats.len() ==> ((#[trigger] board.ordered_categories@[j]).category_id@
            == cats[j].category_id && board.ordered_categories@[j].label@ == cats[j].label
            && board.ordered_categories@[j].ordered_tasks@.map_values(|t: Task| t@) == slot_tasks(
            tasks,
            cats,
            j,
        ))
}

/// The index of the last category with the given id, if any.
fn find_category_slot(categories: &[TaskCategoryDescription], category_id: &str) -> (r: Option<
    usize,
>)
    ensures
        match r {
            Some(j) => j < categories@.len() && category_slot(
                category_views(categories@),
                category_id@,
            ) == j as int,
            None => category_slot(category_views(categories@), category_id@) == -1,
        },
{
    let ghost cviews = category_views(categories@);
    let mut j = categories.len();
    proof {
        assert(cviews.take(j as int) =~= cviews);
    }
    while j > 0
        invariant
            j <= categories@.len(),
            cviews == category_views(categories@),
            category_slot(cviews, category_id@) == category_slot(
                cviews.take(j as int),
                category_id@,
            ),
        decreases j,
    {
        let jj = j - 1;
        proof {
            assert(cviews.take(j as int).last() == cviews[jj as int]);
            assert(cviews[jj as int] == categories@[jj as int]@);
        }
        if str_eq(categories[jj].category_id.as_str(), category_id) {
            return Some(jj);
        }
        proof {
            assert(cviews.take(j as int).drop_last() =~= cviews.take(jj as int));
        }
        j = jj;
    }
    proof {
        assert(cviews.take(0) =~= Seq::<CategoryView>::empty());
    }
    None
}

/// Assembles the board: one slot per fetched category, in order, each
/// carrying its tasks in task-fetch order. Fails on the first task whose
/// category is absent from the category list — such a task signals an
/// inconsistency between the two fetches and is never silently dropped.
pub fn make_tasks_board(
    tasks: &[TaskDescription],
    categories: &[TaskCategoryDescription],
) -> (r: Result<TasksBoard, BoardInconsistency>)
    ensures
        match r {
            Ok(board) => {
                &&& forall|k: int|
                    0 <= k < tasks@.len() ==> category_slot(
                        category_views(categories@),
                        (#[trigger] task_views(tasks@)[k]).category_id,
                    ) >= 0
                &&& board_matches(board, task_views(tasks@), category_views(categories@))
            },
            Err(e) => exists|k: int|
                {
                    &&& 0 <= k < tasks@.len()
                    &&& category_slot(
                        category_views(categories@),
                        (#[trigger] task_views(tasks@)[k]).category_id,
                    ) == -1
                    &&& forall|x: int|
                        0 <= x < k ==> category_slot(
                            category_views(categories@),
                            (#[trigger] task_views(tasks@)[x]).category_id,
                        ) >= 0
                    &&& e.task_id@ == task_views(tasks@)[k].task_id
                    &&& e.category_id@ == task_views(tasks@)[k].category_id
                },
        },
{
    let ghost tviews = task_views(tasks@);
    let ghost cviews = category_views(categories@);

    let n = tasks.len();
    let m = categories.len();

    // First pass: resolve every task to its board slot; the first task
    // whose category is missing makes the whole assembly fail.
    let mut slots: Vec<usize> = Vec::new();
    let mut k: usize = 0;
    while k < n
        invariant
            k <= n,
            n == tasks@.len(),
            tviews == task_views(tasks@),
            cviews == category_views(categories@),
            slots@.len() == k,
            forall|x: int|
                0 <= x < k ==> (#[trigger] slots@[x]) as int == category_slot(
                    cviews,
                    tviews[x].category_id,
                ),
        decreases n - k,
    {
        proof {
            assert(tviews[k as int] == tasks@[k as int]@);
        }
        match find_category_slot(categories, tasks[k].category_id.as_str()) {
            Some(j) => {
                slots.push(j);
            },
            None => {
                proof {
                    assert(category_slot(cviews, tviews[k as int].category_id) == -1);
                    assert forall|x: int|
                        0 <= x < k implies category_slot(
                        cviews,
                        (#[trigger] tviews[x]).category_id,
                    ) >= 0 by {
                        assert(slots@[x] as int == category_slot(cviews, tviews[x].category_id));
                    }
                }
                return Err(
                    BoardInconsistency {
                        task_id: tasks[k].task_id.clone(),
                        category_id: tasks[k].category_id.clone(),
                    },
                );
            },
        }
        k = k + 1;
    }

    // Second pass: one slot per category, in order, collecting its tasks
    // in task order.
    let mut ordered_categories: Vec<TaskCategory> = Vec::new();
    let mut j: usize = 0;
    while j < m
        invariant
            j <= m,
            n == tasks@.len(),
            m == categories@.len(),
            tviews == task_views(tasks@),
            cviews == category_views(categories@),
            slots@.len() == n,
            forall|x: int|
                0 <= x < n ==> (#[trigger] slots@[x]) as int == category_slot(
                    cviews,
                    tviews[x].category_id,
                ),
            ordered_categories@.len() == j,
            forall|x: int|
                0 <= x < j ==> ((#[trigger] ordered_categories@[x]).category_id@
                    == cviews[x].category_id && ordered_categories@[x].label@ == cviews[x].label
                    && ordered_categories@[x].ordered_tasks@.map_values(|t: Task| t@)
                    == slot_tasks(tviews, cviews, x)),
        decreases m - j,
    {
        let mut bucket: Vec<Task> = Vec::new();
        let mut k2: usize = 0;
        proof {
            assert(tviews.take(0) =~= Seq::<TaskView>::empty());
            assert(bucket@.map_values(|t: Task| t@) =~= Seq::<BoardTaskView>::empty());
        }
        while k2 < n
            invariant
                k2 <= n,
                n == tasks@.len(),
                tviews == task_views(tasks@),
                cviews == category_views(categories@),
                j < m,
                slots@.len() == n,
                forall|x: int|
                    0 <= x < n ==> (#[trigger] slots@[x]) as int == category_slot(
                        cviews,
                        tviews[x].category_id,
                    ),
                bucket@.map_values(|t: Task| t@) == slot_tasks(
                    tviews.take(k2 as int),
                    cviews,
                    j as int,
                ),
            decreases n - k2,
        {
            proof {
                assert(tviews.take(k2 as int + 1).drop_last() =~= tviews.take(k2 as int));
                assert(tviews.take(k2 as int + 1).last() == tviews[k2 as int]);
                assert(tviews[k2 as int] == tasks@[k2 as int]@);
            }
            if slots[k2] == j {
                let ghost prev = bucket@.map_values(|t: Task| t@);
                bucket.push(
                    Task {
                        task_id: tasks[k2].task_id.clone(),
                        label: tasks[k2].label.clone(),
                        description: tasks[k2].description.clone(),
                    },
                );
                proof {
                    assert(bucket@.map_values(|t: Task| t@) =~= prev.push(
                        task_summary(tviews[k2 as int]),
                    ));
                }
            }
            k2 = k2 + 1;
        }
        proof {
            assert(tviews.take(n as int) =~= tviews);
        }
        proof {
            assert(cviews[j as int] == categories@[j as int]@);
        }
        ordered_categories.push(
            TaskCategory {
                category_id: categories[j].category_id.clone(),
                label: categories[j].label.clone(),
                ordered_tasks: bucket,
            },
        );
        j = j + 1;
    }

    proof {
        assert forall|x: int|
            0 <= x < n implies category_slot(cviews, (#[trigger] tviews[x]).category_id) >= 0 by {
            assert(slots@[x] as int == category_slot(cviews, tviews[x].category_id));
        }
    }
    Ok(TasksBoard { ordered_categories })
}

} // verus!
