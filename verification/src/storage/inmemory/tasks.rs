//! The in-memory tasks and categories backend.

use vstd::prelude::*;

use crate::app::repositories::{
    categories_of, categories_wf, has_category, has_task, tasks_of, tasks_wf, CategoryRecord,
    RepoError, TaskRecord, TasksRepository,
};
use crate::model::random::hex_id;
use crate::model::tasks::{
    generate_random, TaskCategoryDescription, TaskDescription, TaskId, TaskView,
};
use crate::model::text::str_eq;
use crate::model::types::UserId;

verus! {

struct StoredTask {
    user_id: UserId,
    task_desc: TaskDescription,
}

struct StoredCategory {
    user_id: UserId,
    category_desc: TaskCategoryDescription,
}

/// Task and category storage backed by plain vectors of rows; no two rows
/// of either kind share both owner and identifier.
pub struct InMemoryTasks {
    tasks: Vec<StoredTask>,
    categories: Vec<StoredCategory>,
}

impl InMemoryTasks {
    pub fn new() -> (s: Self)
        ensures
            s.inv(),
            s.tasks() == Seq::<TaskRecord>::empty(),
            s.categories() == Seq::<CategoryRecord>::empty(),
    {
        let s = Self { tasks: Vec::new(), categories: Vec::new() };
        proof {
            assert(s.tasks() =~= Seq::<TaskRecord>::empty());
            assert(s.categories() =~= Seq::<CategoryRecord>::empty());
        }
        s
    }

    /// The index of the task matching (user, task id), scanning in storage
    /// order.
    fn find_task_index(&self, user_id: UserId, task_id: &str) -> (r: Option<usize>)
        ensures
            match r {
                Some(i) => {
                    &&& i < self.tasks().len()
                    &&& self.tasks()[i as int].user_id == user_id@
                    &&& self.tasks()[i as int].task.task_id == task_id@
                },
                None => !has_task(self.tasks(), user_id@, task_id@),
            },
    {
        let n = self.tasks.len();
        let mut i: usize = 0;
        while i < n
            invariant
                i <= n,
                n == self.tasks@.len(),
                forall|j: int|
                    0 <= j < i ==> !((#[trigger] self.tasks()[j]).user_id == user_id@
                        && self.tasks()[j].task.task_id == task_id@),
            decreases n - i,
        {
            proof {
                assert(self.tasks()[i as int].task == self.tasks@[i as int].task_desc@);
            }
            if self.tasks[i].user_id.raw() == user_id.raw()
                && str_eq(self.tasks[i].task_desc.task_id.as_str(), task_id) {
                return Some(i);
            }
            i = i + 1;
        }
        None
    }

    /// Whether the given user already owns a category with the given id.
    fn category_id_taken(&self, user_id: UserId, category_id: &str) -> (r: bool)
        ensures
            r == has_category(self.categories(), user_id@, category_id@),
    {
        let n = self.categories.len();
        let mut i: usize = 0;
        while i < n
            invariant
                i <= n,
                n == self.categories@.len(),
                forall|j: int|
                    0 <= j < i ==> !((#[trigger] self.categories()[j]).user_id == user_id@
                        && self.categories()[j].category.category_id == category_id@),
            decreases n - i,
        {
            proof {
                assert(self.categories()[i as int].category
                    == self.categories@[i as int].category_desc@);
            }
            if self.categories[i].user_id.raw() == user_id.raw()
                && str_eq(self.categories[i].category_desc.category_id.as_str(), category_id) {
                proof {
                    assert(self.categories()[i as int].user_id == user_id@
                        && self.categories()[i as int].category.category_id == category_id@);
                }
                return true;
            }
            i = i + 1;
        }
        false
    }

    /// Draws a fresh id for every label, failing if any id collides with a
    /// stored category of this user or with another drawn id. Nothing is
    /// stored here.
    fn generate_category_descriptions(&self, user_id: UserId, labels: &[&str]) -> (r: Result<
        Vec<TaskCategoryDescription>,
        RepoError,
    >)
        ensures
            match r {
                Ok(descs) => {
                    &&& descs@.len() == labels@.len()
                    &&& forall|i: int|
                        0 <= i < descs@.len() ==> (#[trigger] descs@[i])@.label == labels@[i]@
                    &&& forall|i: int|
                        0 <= i < descs@.len() ==> hex_id((#[trigger] descs@[i])@.category_id)
                    &&& forall|i: int|
                        0 <= i < descs@.len() ==> !has_category(
                            self.categories(),
                            user_id@,
                            (#[trigger] descs@[i])@.category_id,
                        )
                    &&& forall|i: int, j: int|
                        0 <= i < j < descs@.len() ==> (#[trigger] descs@[i])@.category_id != (
                        #[trigger] descs@[j])@.category_id
                },
                Err(e) => e matches RepoError::IdCollision,
            },
    {
        let m = labels.len();
        let mut descs: Vec<TaskCategoryDescription> = Vec::new();
        let mut k: usize = 0;
        while k < m
            invariant
                k <= m,
                m == labels@.len(),
                descs@.len() == k,
                forall|i: int| 0 <= i < k ==> (#[trigger] descs@[i])@.label == labels@[i]@,
                forall|i: int| 0 <= i < k ==> hex_id((#[trigger] descs@[i])@.category_id),
                forall|i: int|
                    0 <= i < k ==> !has_category(
                        self.categories(),
                        user_id@,
                        (#[trigger] descs@[i])@.category_id,
                    ),
                forall|i: int, j: int|
                    0 <= i < j < k ==> (#[trigger] descs@[i])@.category_id != (
                    #[trigger] descs@[j])@.category_id,
            decreases m - k,
        {
            let category_id = generate_random();
            if self.category_id_taken(user_id, category_id.as_str()) {
                return Err(RepoError::IdCollision);
            }
            if Self::description_id_taken(&descs, category_id.as_str()) {
                return Err(RepoError::IdCollision);
            }
            descs.push(
                TaskCategoryDescription { category_id, label: labels[k].to_owned() },
            );
            k = k + 1;
        }
        Ok(descs)
    }

    /// Whether one of the drawn descriptions already uses the given id.
    fn description_id_taken(descs: &Vec<TaskCategoryDescription>, category_id: &str) -> (r: bool)
        ensures
            r == exists|i: int|
                0 <= i < descs@.len() && (#[trigger] descs@[i])@.category_id == category_id@,
    {
        let n = descs.len();
        let mut i: usize = 0;
        while i < n
            invariant
                i <= n,
                n == descs@.len(),
                forall|j: int| 0 <= j < i ==> (#[trigger] descs@[j])@.category_id != category_id@,
            decreases n - i,
        {
            if str_eq(descs[i].category_id.as_str(), category_id) {
                proof {
                    assert((descs@[i as int])@.category_id == category_id@);
                }
                return true;
            }
            i = i + 1;
        }
        false
    }
}

impl TasksRepository for InMemoryTasks {
    closed spec fn tasks(&self) -> Seq<TaskRecord> {
        Seq::new(
            self.tasks@.len(),
            |i: int| TaskRecord { user_id: self.tasks@[i].user_id@, task: self.tasks@[i].task_desc@ },
        )
    }

    closed spec fn categories(&self) -> Seq<CategoryRecord> {
        Seq::new(
            self.categories@.len(),
            |i: int|
                CategoryRecord {
                    user_id: self.categories@[i].user_id@,
                    category: self.categories@[i].category_desc@,
                },
        )
    }

    open spec fn inv(&self) -> bool {
        tasks_wf(self.tasks()) && categories_wf(self.categories())
    }

    /// The in-memory fetch never fails.
    fn fetch_tasks(&self, user_id: UserId) -> (r: Result<Vec<TaskDescription>, RepoError>)
        ensures
            r is Ok,
    {
        let n = self.tasks.len();
        let mut out: Vec<TaskDescription> = Vec::new();
        let mut i: usize = 0;
        proof {
            assert(self.tasks().take(0) =~= Seq::<TaskRecord>::empty());
            assert(out@.map_values(|t: TaskDescription| t@) =~= Seq::<TaskView>::empty());
        }
        while i < n
            invariant
                i <= n,
                n == self.tasks@.len(),
                out@.map_values(|t: TaskDescription| t@) == tasks_of(
                    self.tasks().take(i as int),
                    user_id@,
                ),
            decreases n - i,
        {
            proof {
                assert(self.tasks().take(i as int + 1).drop_last() =~= self.tasks().take(i as int));
                assert(self.tasks().take(i as int + 1).last() == self.tasks()[i as int]);
            }
            if self.tasks[i].user_id.raw() == user_id.raw() {
                let ghost prev = out@.map_values(|t: TaskDescription| t@);
                out.push(self.tasks[i].task_desc.clone());
                proof {
                    assert(out@.map_values(|t: TaskDescription| t@) =~= prev.push(
                        self.tasks()[i as int].task,
                    ));
                }
            }
            i = i + 1;
        }
        proof {
            assert(self.tasks().take(n as int) =~= self.tasks());
        }
        Ok(out)
    }

    fn create_task(
        &mut self,
        user_id: UserId,
        label: &str,
        description: &str,
        category_id: &str,
    ) -> (r: Result<TaskId, RepoError>)
        ensures
            r matches Err(e) ==> e matches RepoError::IdCollision,
    {
        let task_id = generate_random();

        if let Some(_) = self.find_task_index(user_id, task_id.as_str()) {
            return Err(RepoError::IdCollision);
        }

        let task_desc = TaskDescription {
            task_id: task_id.clone(),
            label: label.to_owned(),
            description: description.to_owned(),
            category_id: category_id.to_owned(),
        };
        self.tasks.push(StoredTask { user_id, task_desc });

        proof {
            assert(self.tasks() =~= old(self).tasks().push(
                TaskRecord {
                    user_id: user_id@,
                    task: TaskView {
                        task_id: task_id@,
                        label: label@,
                        description: description@,
                        category_id: category_id@,
                    },
                },
            ));
            assert(self.categories() =~= old(self).categories());
        }
        Ok(task_id)
    }

    fn modify_task(
        &mut self,
        user_id: UserId,
        task_id: &str,
        label: &str,
        description: &str,
        category_id: &str,
    ) -> (r: Result<(), RepoError>)
        ensures
            r matches Err(e) ==> e matches RepoError::NotFound && !has_task(
                old(self).tasks(),
                user_id@,
                task_id@,
            ),
    {
        let Some(i) = self.find_task_index(user_id, task_id) else {
            return Err(RepoError::NotFound);
        };

        let task_desc = TaskDescription {
            task_id: task_id.to_owned(),
            label: label.to_owned(),
            description: description.to_owned(),
            category_id: category_id.to_owned(),
        };
        self.tasks.remove(i);
        self.tasks.insert(i, StoredTask { user_id, task_desc });

        proof {
            let rec = TaskRecord {
                user_id: user_id@,
                task: TaskView {
                    task_id: task_id@,
                    label: label@,
                    description: description@,
                    category_id: category_id@,
                },
            };
            assert(self.tasks() =~= old(self).tasks().update(i as int, rec));
            assert(self.categories() =~= old(self).categories());
        }
        Ok(())
    }

    fn delete_task(&mut self, user_id: UserId, task_id: &str) -> (r: Result<(), RepoError>)
        ensures
            r matches Err(e) ==> e matches RepoError::NotFound && !has_task(
                old(self).tasks(),
                user_id@,
                task_id@,
            ),
    {
        let Some(i) = self.find_task_index(user_id, task_id) else {
            return Err(RepoError::NotFound);
        };

        self.tasks.remove(i);

        proof {
            let oldt = old(self).tasks();
            let newt = self.tasks();
            assert(newt =~= oldt.remove(i as int));
            assert forall|a: int, b: int| 0 <= a < b < newt.len() implies !((
            #[trigger] newt[a]).user_id == (#[trigger] newt[b]).user_id && newt[a].task.task_id
                == newt[b].task.task_id) by {
                let a0: int = if a < i { a } else { a + 1 };
                let b0: int = if b < i { b } else { b + 1 };
                assert(newt[a] == oldt[a0]);
                assert(newt[b] == oldt[b0]);
            }
            assert(self.categories() =~= old(self).categories());
        }
        Ok(())
    }

    /// The in-memory fetch never fails.
    fn fetch_categories(&self, user_id: UserId) -> (r: Result<
        Vec<TaskCategoryDescription>,
        RepoError,
    >)
        ensures
            r is Ok,
    {
        let n = self.categories.len();
        let mut out: Vec<TaskCategoryDescription> = Vec::new();
        let mut i: usize = 0;
        proof {
            assert(self.categories().take(0) =~= Seq::<CategoryRecord>::empty());
            assert(out@.map_values(|c: TaskCategoryDescription| c@) =~= Seq::empty());
        }
        while i < n
            invariant
                i <= n,
                n == self.categories@.len(),
                out@.map_values(|c: TaskCategoryDescription| c@) == categories_of(
                    self.categories().take(i as int),
                    user_id@,
                ),
            decreases n - i,
        {
            proof {
                assert(self.categories().take(i as int + 1).drop_last() =~= self.categories().take(
                    i as int,
                ));
                assert(self.categories().take(i as int + 1).last() == self.categories()[i as int]);
            }
            if self.categories[i].user_id.raw() == user_id.raw() {
                let ghost prev = out@.map_values(|c: TaskCategoryDescription| c@);
                out.push(self.categories[i].category_desc.clone());
                proof {
                    assert(out@.map_values(|c: TaskCategoryDescription| c@) =~= prev.push(
                        self.categories()[i as int].category,
                    ));
                }
            }
            i = i + 1;
        }
        proof {
            assert(self.categories().take(n as int) =~= self.categories());
        }
        Ok(out)
    }

    fn add_categories(&mut self, user_id: UserId, labels: &[&str]) -> (r: Result<
        Vec<TaskCategoryDescription>,
        RepoError,
    >)
        ensures
            r matches Err(e) ==> e matches RepoError::IdCollision,
    {
        let descs = match self.generate_category_descriptions(user_id, labels) {
            Ok(descs) => descs,
            Err(e) => {
                return Err(e);
            },
        };

        let m = descs.len();
        let ghost target = old(self).categories() + Seq::new(
            descs@.len(),
            |i: int| CategoryRecord { user_id: user_id@, category: descs@[i]@ },
        );
        let mut k: usize = 0;
        proof {
            assert(self.categories() =~= target.take(old(self).categories().len() as int));
        }
        while k < m
            invariant
                k <= m,
                m == descs@.len(),
                self.tasks() == old(self).tasks(),
                self.categories() == target.take(old(self).categories().len() + k),
                target == old(self).categories() + Seq::new(
                    descs@.len(),
                    |i: int| CategoryRecord { user_id: user_id@, category: descs@[i]@ },
                ),
                tasks_wf(self.tasks()),
                categories_wf(self.categories()),
                forall|i: int|
                    0 <= i < descs@.len() ==> !has_category(
                        old(self).categories(),
                        user_id@,
                        (#[trigger] descs@[i])@.category_id,
                    ),
                forall|i: int, j: int|
                    0 <= i < j < descs@.len() ==> (#[trigger] descs@[i])@.category_id != (
                    #[trigger] descs@[j])@.category_id,
            decreases m - k,
        {
            let ghost before = self.categories();
            self.categories.push(
                StoredCategory { user_id, category_desc: descs[k].clone() },
            );
            proof {
                assert(self.categories() =~= before.push(
                    CategoryRecord { user_id: user_id@, category: descs@[k as int]@ },
                ));
                assert(self.categories() =~= target.take(
                    old(self).categories().len() + k as int + 1,
                ));
                assert(before =~= old(self).categories() + Seq::new(
                    descs@.len(),
                    |i: int| CategoryRecord { user_id: user_id@, category: descs@[i]@ },
                ).take(k as int));
                lemma_push_fresh_category_keeps_wf(
                    before,
                    old(self).categories(),
                    descs@,
                    user_id@,
                    k as int,
                );
            }
            k = k + 1;
        }
        proof {
            assert(self.categories() =~= target);
        }
        Ok(descs)
    }
}

/// Appending the next freshly drawn category keeps rows pairwise distinct:
/// the new id collides neither with the rows present before the batch (it
/// was drawn fresh) nor with the earlier rows of the batch (the drawn ids
/// are pairwise distinct).
proof fn lemma_push_fresh_category_keeps_wf(
    cats: Seq<CategoryRecord>,
    orig: Seq<CategoryRecord>,
    descs: Seq<TaskCategoryDescription>,
    uid: int,
    k: int,
)
    requires
        0 <= k < descs.len(),
        cats == orig + Seq::new(descs.len(), |i: int| CategoryRecord { user_id: uid, category: descs[i]@ }).take(k),
        categories_wf(cats),
        forall|i: int|
            0 <= i < descs.len() ==> !has_category(orig, uid, (#[trigger] descs[i])@.category_id),
        forall|i: int, j: int|
            0 <= i < j < descs.len() ==> (#[trigger] descs[i])@.category_id != (
            #[trigger] descs[j])@.category_id,
    ensures
        categories_wf(cats.push(CategoryRecord { user_id: uid, category: descs[k]@ })),
{
    let new = cats.push(CategoryRecord { user_id: uid, category: descs[k]@ });
    assert forall|a: int, b: int| 0 <= a < b < new.len() implies !((#[trigger] new[a]).user_id == (
    #[trigger] new[b]).user_id && new[a].category.category_id == new[b].category.category_id) by {
        if b == new.len() - 1 {
            if a < orig.len() {
                assert(new[a] == orig[a]);
                if new[a].user_id == uid && new[a].category.category_id == descs[k]@.category_id {
                    assert(has_category(orig, uid, descs[k]@.category_id));
                }
            } else {
                let i = a - orig.len();
                assert(new[a] == CategoryRecord { user_id: uid, category: descs[i]@ });
            }
        } else {
            assert(new[a] == cats[a] && new[b] == cats[b]);
        }
    }
}

} // verus!
