//! The completion resolution engine: records and removes completion edges
//! of the mode that matches each task, and computes, on demand, the
//! finished/unfinished partitions for a task, a member, or a group.

use vstd::prelude::*;
use crate::group::{GroupModel, GroupResponse};
use crate::group_tasks::{FinishedGroupTask, GroupTasksResponse};
use crate::seq_facts::{
    lemma_filter_membership, lemma_filter_partition, lemma_filter_push, lemma_map_values_add,
    lemma_map_values_singleton,
};
use crate::status::ApiError;
use crate::store::{Store, StoreModel};
use crate::tasks::{
    CompletionModel, FinishedTaskResponse, TaskModel, TaskStatus, UserTaskStatusResponse,
    GroupTaskStatusResponse, INDIVIDUAL_MODE, GROUP_MODE,
};
use crate::user_tasks::{
    FinishedDetailModel, FinishedTaskDetail, UnfinishedDetailModel, UnfinishedTaskDetail,
    UserTasksResponse,
};
use crate::users::UserModel;

verus! {

impl StoreModel {
    /// The store after appending a direct completion edge.
    pub open spec fn with_user_done(self, c: CompletionModel) -> StoreModel {
        StoreModel { user_done: self.user_done.push(c), ..self }
    }

    /// The store after appending a group completion edge.
    pub open spec fn with_group_done(self, c: CompletionModel) -> StoreModel {
        StoreModel { group_done: self.group_done.push(c), ..self }
    }

    /// The outcome of marking a task finished for one member: a missing
    /// task is not found; a task whose mode is not individual, or a missing
    /// member, is a referential violation; a second mark for the same pair
    /// is a conflict, so at most one edge per pair ever exists.
    pub open spec fn spec_mark_finished_member(self, user: int, task: int, at: int) -> Result<
        StoreModel,
        ApiError,
    > {
        if !self.contains_task(task) {
            Err(ApiError::NotFound)
        } else if self.task_of(task).mode != INDIVIDUAL_MODE {
            Err(ApiError::Unprocessable)
        } else if !self.contains_user(user) {
            Err(ApiError::Unprocessable)
        } else if self.has_direct(user, task) {
            Err(ApiError::Conflict)
        } else {
            Ok(self.with_user_done(CompletionModel { actor: user, task: task, at: at }))
        }
    }

    /// The outcome of unmarking a member's completion: the edge is removed;
    /// an absent edge is not found, with zero side effects.
    pub open spec fn spec_mark_unfinished_member(self, user: int, task: int) -> Result<
        StoreModel,
        ApiError,
    > {
        if !self.has_direct(user, task) {
            Err(ApiError::NotFound)
        } else {
            Ok(
                StoreModel {
                    user_done: self.user_done.remove(self.direct_index_of(user, task)),
                    ..self
                },
            )
        }
    }

    /// The outcome of marking a task finished for one group, symmetric to
    /// the member case with the group mode.
    pub open spec fn spec_mark_finished_group(self, group: int, task: int, at: int) -> Result<
        StoreModel,
        ApiError,
    > {
        if !self.contains_task(task) {
            Err(ApiError::NotFound)
        } else if self.task_of(task).mode != GROUP_MODE {
            Err(ApiError::Unprocessable)
        } else if !self.contains_group(group) {
            Err(ApiError::Unprocessable)
        } else if self.has_group_done(group, task) {
            Err(ApiError::Conflict)
        } else {
            Ok(self.with_group_done(CompletionModel { actor: group, task: task, at: at }))
        }
    }

    /// The outcome of unmarking a group's completion: the edge is removed;
    /// an absent edge is not found, with zero side effects.
    pub open spec fn spec_mark_unfinished_group(self, group: int, task: int) -> Result<
        StoreModel,
        ApiError,
    > {
        if !self.has_group_done(group, task) {
            Err(ApiError::NotFound)
        } else {
            Ok(
                StoreModel {
                    group_done: self.group_done.remove(self.group_done_index_of(group, task)),
                    ..self
                },
            )
        }
    }
}

impl Store {
    /// Marks a task finished for a member at the given timestamp. The task
    /// must exist with the individual mode and the member must exist; a
    /// duplicate mark is a conflict and changes nothing.
    pub fn add_finished_user_task(&mut self, user_id: i32, task_id: i32, finished_at: i64) -> (r:
        Result<(), ApiError>)
        requires
            old(self)@.wf(),
        ensures
            final(self)@.wf(),
            match r {
                Ok(_) => old(self)@.spec_mark_finished_member(
                    user_id as int,
                    task_id as int,
                    finished_at as int,
                ) == Ok::<StoreModel, ApiError>(final(self)@),
                Err(e) => old(self)@.spec_mark_finished_member(
                    user_id as int,
                    task_id as int,
                    finished_at as int,
                ) == Err::<StoreModel, ApiError>(e) && final(self)@ == old(self)@,
            },
    {
        let t = match self.task_pos(task_id) {
            Some(t) => t,
            None => {
                return Err(ApiError::NotFound);
            },
        };
        proof {
            let s = self@;
            let k0 = s.task_index_of(task_id as int);
            assert(s.tasks[k0].id == task_id as int);
            if k0 != t as int {
                assert(s.tasks[k0].id != s.tasks[t as int].id);
            }
        }
        if self.tasks[t].task_type != INDIVIDUAL_MODE {
            return Err(ApiError::Unprocessable);
        }
        if self.user_pos(user_id).is_none() {
            return Err(ApiError::Unprocessable);
        }
        if self.direct_pos(user_id, task_id).is_some() {
            return Err(ApiError::Conflict);
        }
        self.finished_user_tasks.push(
            FinishedTaskResponse { user_id: user_id, task_id: task_id, finished_at: finished_at },
        );
        proof {
            let s0 = old(self)@;
            let s1 = self@;
            let c = CompletionModel {
                actor: user_id as int,
                task: task_id as int,
                at: finished_at as int,
            };
            assert(s1 =~= s0.with_user_done(c)) by {
                assert(s1.user_done =~= s0.user_done.push(c));
            }
            assert(s1.users == s0.users);
            assert(s1.groups == s0.groups);
            assert(s1.group_members == s0.group_members);
            assert(s1.tasks == s0.tasks);
            assert(s1.subjects == s0.subjects);
            assert(s1.group_done == s0.group_done);
            assert(forall|i: int|
                0 <= i < s0.user_done.len() ==> s1.user_done[i] == #[trigger] s0.user_done[i]);
            assert(s1.user_done[s0.user_done.len() as int] == c);
            assert(s1.user_done_wf()) by {
                assert forall|i: int, j: int| 0 <= i < j < s1.user_done.len() implies !((
                #[trigger] s1.user_done[i]).actor == (#[trigger] s1.user_done[j]).actor
                    && s1.user_done[i].task == s1.user_done[j].task) by {
                    if j < s0.user_done.len() {
                        assert(!(s0.user_done[i].actor == s0.user_done[j].actor && s0.user_done[
                        i
                        ].task == s0.user_done[j].task));
                    } else {
                        if s1.user_done[i].actor == c.actor && s1.user_done[i].task == c.task {
                            assert(s0.has_direct(user_id as int, task_id as int));
                        }
                    }
                }
                assert forall|i: int| 0 <= i < s1.user_done.len() implies s1.contains_user(
                    (#[trigger] s1.user_done[i]).actor,
                ) && s1.contains_task(s1.user_done[i].task) && s1.task_of(s1.user_done[i].task).mode
                    == INDIVIDUAL_MODE by {
                    if i < s0.user_done.len() {
                        assert(s0.contains_user(s0.user_done[i].actor));
                        assert(s0.contains_task(s0.user_done[i].task));
                    } else {
                        assert(s0.contains_task(task_id as int));
                        assert(s0.contains_user(user_id as int));
                    }
                }
            }
            assert(s1.wf());
        }
        Ok(())
    }

    /// Unmarks a member's completion. Deleting an edge that does not exist
    /// is not found and changes nothing.
    pub fn remove_finished_user_task(&mut self, user_id: i32, task_id: i32) -> (r: Result<
        (),
        ApiError,
    >)
        requires
            old(self)@.wf(),
        ensures
            final(self)@.wf(),
            match r {
                Ok(_) => old(self)@.spec_mark_unfinished_member(user_id as int, task_id as int)
                    == Ok::<StoreModel, ApiError>(final(self)@),
                Err(e) => old(self)@.spec_mark_unfinished_member(user_id as int, task_id as int)
                    == Err::<StoreModel, ApiError>(e) && final(self)@ == old(self)@,
            },
    {
        let k = match self.direct_pos(user_id, task_id) {
            Some(k) => k,
            None => {
                return Err(ApiError::NotFound);
            },
        };
        proof {
            let s = self@;
            let k0 = s.direct_index_of(user_id as int, task_id as int);
            assert(s.user_done[k0].actor == user_id as int && s.user_done[k0].task
                == task_id as int);
            if k0 != k as int {
                assert(!(s.user_done[k0].actor == s.user_done[k as int].actor && s.user_done[
                k0
                ].task == s.user_done[k as int].task));
            }
        }
        self.finished_user_tasks.remove(k);
        proof {
            let s0 = old(self)@;
            let s1 = self@;
            let ki = s0.direct_index_of(user_id as int, task_id as int);
            assert(s1 =~= StoreModel { user_done: s0.user_done.remove(ki), ..s0 }) by {
                assert(s1.user_done =~= s0.user_done.remove(ki));
            }
            assert(s1.users == s0.users);
            assert(s1.groups == s0.groups);
            assert(s1.group_members == s0.group_members);
            assert(s1.tasks == s0.tasks);
            assert(s1.subjects == s0.subjects);
            assert(s1.group_done == s0.group_done);
            assert(s1.user_done.len() == s0.user_done.len() - 1);
            assert(forall|x: int| 0 <= x < ki ==> s1.user_done[x] == #[trigger] s0.user_done[x]);
            assert(forall|x: int|
                ki <= x < s1.user_done.len() ==> #[trigger] s1.user_done[x] == s0.user_done[x + 1]);
            assert(s1.user_done_wf()) by {
                assert forall|i: int, j: int| 0 <= i < j < s1.user_done.len() implies !((
                #[trigger] s1.user_done[i]).actor == (#[trigger] s1.user_done[j]).actor
                    && s1.user_done[i].task == s1.user_done[j].task) by {
                    let i0: int = if i < ki { i } else { i + 1 };
                    let j0: int = if j < ki { j } else { j + 1 };
                    assert(s1.user_done[i] == s0.user_done[i0]);
                    assert(s1.user_done[j] == s0.user_done[j0]);
                    assert(!(s0.user_done[i0].actor == s0.user_done[j0].actor && s0.user_done[
                    i0
                    ].task == s0.user_done[j0].task));
                }
                assert forall|i: int| 0 <= i < s1.user_done.len() implies s1.contains_user(
                    (#[trigger] s1.user_done[i]).actor,
                ) && s1.contains_task(s1.user_done[i].task) && s1.task_of(s1.user_done[i].task).mode
                    == INDIVIDUAL_MODE by {
                    let i0: int = if i < ki { i } else { i + 1 };
                    assert(s1.user_done[i] == s0.user_done[i0]);
                    assert(s0.contains_user(s0.user_done[i0].actor));
                    assert(s0.contains_task(s0.user_done[i0].task));
                }
            }
            assert(s1.wf());
        }
        Ok(())
    }

    /// Marks a task finished for a group at the given timestamp. The task
    /// must exist with the group mode and the group must exist; a
    /// duplicate mark is a conflict and changes nothing.
    pub fn add_finished_group_task(&mut self, group_id: i32, task_id: i32, finished_at: i64) -> (r:
        Result<(), ApiError>)
        requires
            old(self)@.wf(),
        ensures
            final(self)@.wf(),
            match r {
                Ok(_) => old(self)@.spec_mark_finished_group(
                    group_id as int,
                    task_id as int,
                    finished_at as int,
                ) == Ok::<StoreModel, ApiError>(final(self)@),
                Err(e) => old(self)@.spec_mark_finished_group(
                    group_id as int,
                    task_id as int,
                    finished_at as int,
                ) == Err::<StoreModel, ApiError>(e) && final(self)@ == old(self)@,
            },
    {
        let t = match self.task_pos(task_id) {
            Some(t) => t,
            None => {
                return Err(ApiError::NotFound);
            },
        };
        proof {
            let s = self@;
            let k0 = s.task_index_of(task_id as int);
            assert(s.tasks[k0].id == task_id as int);
            if k0 != t as int {
                assert(s.tasks[k0].id != s.tasks[t as int].id);
            }
        }
        if self.tasks[t].task_type != GROUP_MODE {
            return Err(ApiError::Unprocessable);
        }
        if self.group_pos(group_id).is_none() {
            return Err(ApiError::Unprocessable);
        }
        if self.group_done_pos(group_id, task_id).is_some() {
            return Err(ApiError::Conflict);
        }
        self.finished_group_tasks.push(
            FinishedGroupTask { group_id: group_id, task_id: task_id, finished_at: finished_at },
        );
        proof {
            let s0 = old(self)@;
            let s1 = self@;
            let c = CompletionModel {
                actor: group_id as int,
                task: task_id as int,
                at: finished_at as int,
            };
            assert(s1 =~= s0.with_group_done(c)) by {
                assert(s1.group_done =~= s0.group_done.push(c));
            }
            assert(s1.users == s0.users);
            assert(s1.groups == s0.groups);
            assert(s1.group_members == s0.group_members);
            assert(s1.tasks == s0.tasks);
            assert(s1.subjects == s0.subjects);
            assert(s1.user_done == s0.user_done);
            assert(forall|i: int|
                0 <= i < s0.group_done.len() ==> s1.group_done[i] == #[trigger] s0.group_done[i]);
            assert(s1.group_done[s0.group_done.len() as int] == c);
            assert(s1.group_done_wf()) by {
                assert forall|i: int, j: int| 0 <= i < j < s1.group_done.len() implies !((
                #[trigger] s1.group_done[i]).actor == (#[trigger] s1.group_done[j]).actor
                    && s1.group_done[i].task == s1.group_done[j].task) by {
                    if j < s0.group_done.len() {
                        assert(!(s0.group_done[i].actor == s0.group_done[j].actor && s0.group_done[
                        i
                        ].task == s0.group_done[j].task));
                    } else {
                        if s1.group_done[i].actor == c.actor && s1.group_done[i].task == c.task {
                            assert(s0.has_group_done(group_id as int, task_id as int));
                        }
                    }
                }
                assert forall|i: int| 0 <= i < s1.group_done.len() implies s1.contains_group(
                    (#[trigger] s1.group_done[i]).actor,
                ) && s1.contains_task(s1.group_done[i].task) && s1.task_of(
                    s1.group_done[i].task,
                ).mode == GROUP_MODE by {
                    if i < s0.group_done.len() {
                        assert(s0.contains_group(s0.group_done[i].actor));
                        assert(s0.contains_task(s0.group_done[i].task));
                    } else {
                        assert(s0.contains_task(task_id as int));
                        assert(s0.contains_group(group_id as int));
                    }
                }
            }
            assert(s1.wf());
        }
        Ok(())
    }

    /// Unmarks a group's completion. Deleting an edge that does not exist
    /// is not found and changes nothing.
    pub fn remove_finished_group_task(&mut self, group_id: i32, task_id: i32) -> (r: Result<
        (),
        ApiError,
    >)
        requires
            old(self)@.wf(),
        ensures
            final(self)@.wf(),
            match r {
                Ok(_) => old(self)@.spec_mark_unfinished_group(group_id as int, task_id as int)
                    == Ok::<StoreModel, ApiError>(final(self)@),
                Err(e) => old(self)@.spec_mark_unfinished_group(group_id as int, task_id as int)
                    == Err::<StoreModel, ApiError>(e) && final(self)@ == old(self)@,
            },
    {
        let k = match self.group_done_pos(group_id, task_id) {
            Some(k) => k,
            None => {
                return Err(ApiError::NotFound);
            },
        };
        proof {
            let s = self@;
            let k0 = s.group_done_index_of(group_id as int, task_id as int);
            assert(s.group_done[k0].actor == group_id as int && s.group_done[k0].task
                == task_id as int);
            if k0 != k as int {
                assert(!(s.group_done[k0].actor == s.group_done[k as int].actor && s.group_done[
                k0
                ].task == s.group_done[k as int].task));
            }
        }
        self.finished_group_tasks.remove(k);
        proof {
            let s0 = old(self)@;
            let s1 = self@;
            let ki = s0.group_done_index_of(group_id as int, task_id as int);
            assert(s1 =~= StoreModel { group_done: s0.group_done.remove(ki), ..s0 }) by {
                assert(s1.group_done =~= s0.group_done.remove(ki));
            }
            assert(s1.users == s0.users);
            assert(s1.groups == s0.groups);
            assert(s1.group_members == s0.group_members);
            assert(s1.tasks == s0.tasks);
            assert(s1.subjects == s0.subjects);
            assert(s1.user_done == s0.user_done);
            assert(s1.group_done.len() == s0.group_done.len() - 1);
            assert(forall|x: int| 0 <= x < ki ==> s1.group_done[x] == #[trigger] s0.group_done[x]);
            assert(forall|x: int|
                ki <= x < s1.group_done.len() ==> #[trigger] s1.group_done[x] == s0.group_done[x
                    + 1]);
            assert(s1.group_done_wf()) by {
                assert forall|i: int, j: int| 0 <= i < j < s1.group_done.len() implies !((
                #[trigger] s1.group_done[i]).actor == (#[trigger] s1.group_done[j]).actor
                    && s1.group_done[i].task == s1.group_done[j].task) by {
                    let i0: int = if i < ki { i } else { i + 1 };
                    let j0: int = if j < ki { j } else { j + 1 };
                    assert(s1.group_done[i] == s0.group_done[i0]);
                    assert(s1.group_done[j] == s0.group_done[j0]);
                    assert(!(s0.group_done[i0].actor == s0.group_done[j0].actor && s0.group_done[
                    i0
                    ].task == s0.group_done[j0].task));
                }
                assert forall|i: int| 0 <= i < s1.group_done.len() implies s1.contains_group(
                    (#[trigger] s1.group_done[i]).actor,
                ) && s1.contains_task(s1.group_done[i].task) && s1.task_of(
                    s1.group_done[i].task,
                ).mode == GROUP_MODE by {
                    let i0: int = if i < ki { i } else { i + 1 };
                    assert(s1.group_done[i] == s0.group_done[i0]);
                    assert(s0.contains_group(s0.group_done[i0].actor));
                    assert(s0.contains_task(s0.group_done[i0].task));
                }
            }
            assert(s1.wf());
        }
        Ok(())
    }
}

} // verus!

verus! {

/// One finished-task entry: the task's attributes with a completion time.
pub open spec fn finished_detail(t: TaskModel, at: int) -> FinishedDetailModel {
    FinishedDetailModel {
        task_id: t.id,
        title: t.title,
        description: t.description,
        course: t.course,
        due_date: t.due_date,
        finished_at: at,
    }
}

/// One unfinished-task entry: the task's attributes.
pub open spec fn unfinished_detail(t: TaskModel) -> UnfinishedDetailModel {
    UnfinishedDetailModel {
        task_id: t.id,
        title: t.title,
        description: t.description,
        course: t.course,
        due_date: t.due_date,
    }
}

/// Unfinished-entry building as a function value.
pub open spec fn unfinished_detail_fn() -> spec_fn(TaskModel) -> UnfinishedDetailModel {
    |t: TaskModel| unfinished_detail(t)
}

/// The completion edges recorded by one actor.
pub open spec fn done_by_actor(actor: int) -> spec_fn(CompletionModel) -> bool {
    |d: CompletionModel| d.actor == actor
}

/// The timestamp carried by a known-present optional time.
pub open spec fn opt_time(o: Option<int>) -> int {
    match o {
        Some(x) => x,
        None => 0,
    }
}

impl StoreModel {
    /// A completion edge resolved to a finished-task entry.
    pub open spec fn completion_detail_fn(self) -> spec_fn(CompletionModel) -> FinishedDetailModel {
        |d: CompletionModel| finished_detail(self.task_of(d.task), d.at)
    }

    /// The finished-task entries a member recorded directly, in record
    /// order.
    pub open spec fn direct_details_of(self, m: int) -> Seq<FinishedDetailModel> {
        self.user_done.filter(done_by_actor(m)).map_values(self.completion_detail_fn())
    }

    /// The finished-task entries a group recorded, in record order.
    pub open spec fn group_details_of(self, g: int) -> Seq<FinishedDetailModel> {
        self.group_done.filter(done_by_actor(g)).map_values(self.completion_detail_fn())
    }

    /// The earliest completion time a member inherits for a task through
    /// the first `n` group completion edges, or nothing if none of them
    /// names that task and one of the member's groups.
    pub open spec fn inherited_at_upto(self, m: int, t: int, n: int) -> Option<int>
        decreases n,
    {
        if n <= 0 {
            None
        } else {
            let rest = self.inherited_at_upto(m, t, n - 1);
            let e = self.group_done[n - 1];
            if e.task == t && self.has_membership(e.actor, m) {
                match rest {
                    Some(x) => if e.at < x {
                        Some(e.at)
                    } else {
                        Some(x)
                    },
                    None => Some(e.at),
                }
            } else {
                rest
            }
        }
    }

    /// The earliest completion time a member inherits for a task from any
    /// of its groups, or nothing if no group of the member completed it.
    pub open spec fn inherited_at(self, m: int, t: int) -> Option<int> {
        self.inherited_at_upto(m, t, self.group_done.len() as int)
    }

    /// Whether a member inherits a completion of a given task: some group the
    /// member belongs to has recorded one.
    pub open spec fn inherits(self, m: int, t: int) -> bool {
        self.inherited_at(m, t) is Some
    }

    /// Whether a member belongs to any group of this course.
    pub open spec fn member_in_course(self, m: int, course: Seq<char>) -> bool {
        exists|i: int|
            0 <= i < self.groups.len() && (#[trigger] self.groups[i]).course == course
                && self.has_membership(self.groups[i].id, m)
    }

    /// The group-mode tasks a member inherits a completion for.
    pub open spec fn inherited_pred(self, m: int) -> spec_fn(TaskModel) -> bool {
        |t: TaskModel| t.mode == GROUP_MODE && self.inherits(m, t.id)
    }

    /// A group-mode task resolved to a finished-task entry with the
    /// earliest inherited time.
    pub open spec fn inherited_detail_fn(self, m: int) -> spec_fn(TaskModel) -> FinishedDetailModel {
        |t: TaskModel| finished_detail(t, opt_time(self.inherited_at(m, t.id)))
    }

    /// The finished-task entries a member inherits, in task creation order.
    pub open spec fn inherited_details_of(self, m: int) -> Seq<FinishedDetailModel> {
        self.tasks.filter(self.inherited_pred(m)).map_values(self.inherited_detail_fn(m))
    }

    /// Whether a member has finished a task, directly or by inheritance.
    pub open spec fn member_finished(self, m: int, t: TaskModel) -> bool {
        self.has_direct(m, t.id) || self.inherits(m, t.id)
    }

    /// Whether a task applies to a member: every individual-mode task
    /// applies system-wide; a group-mode task applies when the member
    /// belongs to a group of the task's course.
    pub open spec fn applicable(self, m: int, t: TaskModel) -> bool {
        t.mode == INDIVIDUAL_MODE || (t.mode == GROUP_MODE && self.member_in_course(m, t.course))
    }

    /// The tasks that apply to a member and are not finished.
    pub open spec fn member_unfinished_pred(self, m: int) -> spec_fn(TaskModel) -> bool {
        |t: TaskModel| self.applicable(m, t) && !self.member_finished(m, t)
    }

    /// The unfinished entries of one member, in task creation order.
    pub open spec fn member_unfinished_of(self, m: int) -> Seq<UnfinishedDetailModel> {
        self.tasks.filter(self.member_unfinished_pred(m)).map_values(unfinished_detail_fn())
    }

    /// The tasks a group has no recorded completion for.
    pub open spec fn group_unfinished_pred(self, g: int) -> spec_fn(TaskModel) -> bool {
        |t: TaskModel| !self.has_group_done(g, t.id)
    }

    /// The unfinished entries of one group, in task creation order.
    pub open spec fn group_unfinished_of(self, g: int) -> Seq<UnfinishedDetailModel> {
        self.tasks.filter(self.group_unfinished_pred(g)).map_values(unfinished_detail_fn())
    }
}

impl Store {
    /// The earliest completion time the member inherits for the named task
    /// through any of its groups, if any group of the member completed it.
    pub fn inherited_finish_at(&self, user_id: i32, task_id: i32) -> (r: Option<i64>)
        ensures
            r matches Some(x) ==> self@.inherited_at(user_id as int, task_id as int) == Some(
                x as int,
            ),
            r is None ==> self@.inherited_at(user_id as int, task_id as int) is None,
    {
        let mut best: Option<i64> = None;
        let n = self.finished_group_tasks.len();
        for i in 0..n
            invariant
                n == self.finished_group_tasks.len(),
                best matches Some(x) ==> self@.inherited_at_upto(
                    user_id as int,
                    task_id as int,
                    i as int,
                ) == Some(x as int),
                best is None ==> self@.inherited_at_upto(
                    user_id as int,
                    task_id as int,
                    i as int,
                ) is None,
        {
            assert(self@.group_done[i as int] == self.finished_group_tasks@[i as int]@);
            let row = &self.finished_group_tasks[i];
            if row.task_id == task_id && self.membership_pos(row.group_id, user_id).is_some() {
                best = match best {
                    Some(x) => if row.finished_at < x {
                        Some(row.finished_at)
                    } else {
                        Some(x)
                    },
                    None => Some(row.finished_at),
                };
            } else {
                proof {
                    let e = self@.group_done[i as int];
                    assert(!(e.task == task_id as int && self@.has_membership(
                        e.actor,
                        user_id as int,
                    )));
                }
            }
        }
        best
    }

    /// Whether this member belongs to any group of this course.
    pub fn member_in_course_check(&self, user_id: i32, course: &String) -> (r: bool)
        ensures
            r == self@.member_in_course(user_id as int, course@),
    {
        let n = self.groups.len();
        for i in 0..n
            invariant
                n == self.groups.len(),
                forall|j: int|
                    0 <= j < i ==> !((#[trigger] self@.groups[j]).course == course@
                        && self@.has_membership(self@.groups[j].id, user_id as int)),
        {
            assert(self@.groups[i as int] == self.groups@[i as int]@);
            if self.groups[i].course == *course && self.membership_pos(
                self.groups[i].id,
                user_id,
            ).is_some() {
                proof {
                    assert(self@.groups[i as int].course == course@ && self@.has_membership(
                        self@.groups[i as int].id,
                        user_id as int,
                    ));
                }
                return true;
            }
        }
        false
    }

    /// One group's task partition: the tasks it recorded completions for,
    /// with their timestamps, and every task it has no completion for.
    pub fn get_group_tasks(&self, group_id: i32) -> (r: GroupTasksResponse)
        requires
            self@.wf(),
        ensures
            r.group_id == group_id,
            r@.finished_tasks == self@.group_details_of(group_id as int),
            r@.unfinished_tasks == self@.group_unfinished_of(group_id as int),
    {
        let mut fin: Vec<FinishedTaskDetail> = Vec::new();
        let n = self.finished_group_tasks.len();
        for i in 0..n
            invariant
                n == self.finished_group_tasks.len(),
                self@.wf(),
                fin@.map_values(|d: FinishedTaskDetail| d@) =~= self@.group_done.take(
                    i as int,
                ).filter(done_by_actor(group_id as int)).map_values(self@.completion_detail_fn()),
        {
            assert(self@.group_done[i as int] == self.finished_group_tasks@[i as int]@);
            let ghost e = self@.group_done[i as int];
            let ghost taken = self@.group_done.take(i as int);
            let row = &self.finished_group_tasks[i];
            if row.group_id == group_id {
                proof {
                    assert(self@.contains_task(e.task));
                }
                let k = match self.task_pos(row.task_id) {
                    Some(k) => k,
                    None => {
                        proof {
                            assert(false);
                        }
                        return GroupTasksResponse {
                            group_id: group_id,
                            finished_tasks: Vec::new(),
                            unfinished_tasks: Vec::new(),
                        };
                    },
                };
                let task = &self.tasks[k];
                let ghost prev = fin@;
                fin.push(
                    FinishedTaskDetail {
                        task_id: task.task_id,
                        title: task.title.clone(),
                        description: task.description.clone(),
                        course: task.course.clone(),
                        due_date: task.due_date,
                        finished_at: row.finished_at,
                    },
                );
                proof {
                    let s = self@;
                    let w = s.task_index_of(e.task);
                    assert(s.tasks[w].id == e.task);
                    if w != k as int {
                        assert(s.tasks[w].id != s.tasks[k as int].id);
                    }
                    assert(s.tasks[k as int] == s.task_of(e.task));
                    assert(fin@.last()@ == s.completion_detail_fn()(e));
                    assert(fin@.map_values(|d: FinishedTaskDetail| d@) =~= prev.map_values(
                        |d: FinishedTaskDetail| d@,
                    ).push(fin@.last()@));
                }
            }
            proof {
                let s = self@;
                assert(s.group_done.take(i + 1) =~= taken + seq![e]);
                lemma_filter_push(taken, e, done_by_actor(group_id as int));
                if done_by_actor(group_id as int)(e) {
                    lemma_map_values_add(
                        taken.filter(done_by_actor(group_id as int)),
                        seq![e],
                        s.completion_detail_fn(),
                    );
                    lemma_map_values_singleton(e, s.completion_detail_fn());
                    assert(fin@.map_values(|d: FinishedTaskDetail| d@) =~= s.group_done.take(
                        i + 1,
                    ).filter(done_by_actor(group_id as int)).map_values(s.completion_detail_fn()));
                } else {
                    assert(taken.filter(done_by_actor(group_id as int)) + Seq::<
                        CompletionModel,
                    >::empty() =~= taken.filter(done_by_actor(group_id as int)));
                    assert(fin@.map_values(|d: FinishedTaskDetail| d@) =~= s.group_done.take(
                        i + 1,
                    ).filter(done_by_actor(group_id as int)).map_values(s.completion_detail_fn()));
                }
            }
        }
        proof {
            assert(self@.group_done.take(n as int) =~= self@.group_done);
        }
        let mut unfin: Vec<UnfinishedTaskDetail> = Vec::new();
        let m = self.tasks.len();
        for i in 0..m
            invariant
                m == self.tasks.len(),
                self@.wf(),
                unfin@.map_values(|d: UnfinishedTaskDetail| d@) =~= self@.tasks.take(
                    i as int,
                ).filter(self@.group_unfinished_pred(group_id as int)).map_values(
                    unfinished_detail_fn(),
                ),
        {
            assert(self@.tasks[i as int] == self.tasks@[i as int]@);
            let ghost t = self@.tasks[i as int];
            let ghost taken = self@.tasks.take(i as int);
            let task = &self.tasks[i];
            if self.group_done_pos(group_id, task.task_id).is_none() {
                let ghost prev = unfin@;
                unfin.push(
                    UnfinishedTaskDetail {
                        task_id: task.task_id,
                        title: task.title.clone(),
                        description: task.description.clone(),
                        course: task.course.clone(),
                        due_date: task.due_date,
                    },
                );
                proof {
                    assert(unfin@.last()@ == unfinished_detail_fn()(t));
                    assert(unfin@.map_values(|d: UnfinishedTaskDetail| d@) =~= prev.map_values(
                        |d: UnfinishedTaskDetail| d@,
                    ).push(unfin@.last()@));
                }
            }
            proof {
                let s = self@;
                assert(s.tasks.take(i + 1) =~= taken + seq![t]);
                lemma_filter_push(taken, t, s.group_unfinished_pred(group_id as int));
                if s.group_unfinished_pred(group_id as int)(t) {
                    lemma_map_values_add(
                        taken.filter(s.group_unfinished_pred(group_id as int)),
                        seq![t],
                        unfinished_detail_fn(),
                    );
                    lemma_map_values_singleton(t, unfinished_detail_fn());
                    assert(unfin@.map_values(|d: UnfinishedTaskDetail| d@) =~= s.tasks.take(
                        i + 1,
                    ).filter(s.group_unfinished_pred(group_id as int)).map_values(
                        unfinished_detail_fn(),
                    ));
                } else {
                    assert(taken.filter(s.group_unfinished_pred(group_id as int)) + Seq::<
                        TaskModel,
                    >::empty() =~= taken.filter(s.group_unfinished_pred(group_id as int)));
                    assert(unfin@.map_values(|d: UnfinishedTaskDetail| d@) =~= s.tasks.take(
                        i + 1,
                    ).filter(s.group_unfinished_pred(group_id as int)).map_values(
                        unfinished_detail_fn(),
                    ));
                }
            }
        }
        proof {
            assert(self@.tasks.take(m as int) =~= self@.tasks);
        }
        GroupTasksResponse { group_id: group_id, finished_tasks: fin, unfinished_tasks: unfin }
    }
}

} // verus!

verus! {

impl Store {
    /// One member's task partition. Finished holds the tasks the member
    /// completed directly, then the group-mode tasks a group of the member
    /// completed (earliest group timestamp). Unfinished holds every
    /// applicable task not finished: individual-mode tasks system-wide,
    /// group-mode tasks of the member's own courses.
    pub fn get_user_tasks(&self, user_id: i32) -> (r: UserTasksResponse)
        requires
            self@.wf(),
        ensures
            r.user_id == user_id,
            r@.finished_tasks == self@.direct_details_of(user_id as int)
                + self@.inherited_details_of(user_id as int),
            r@.unfinished_tasks == self@.member_unfinished_of(user_id as int),
    {
        let mut fin: Vec<FinishedTaskDetail> = Vec::new();
        let n = self.finished_user_tasks.len();
        for i in 0..n
            invariant
                n == self.finished_user_tasks.len(),
                self@.wf(),
                fin@.map_values(|d: FinishedTaskDetail| d@) =~= self@.user_done.take(
                    i as int,
                ).filter(done_by_actor(user_id as int)).map_values(self@.completion_detail_fn()),
        {
            assert(self@.user_done[i as int] == self.finished_user_tasks@[i as int]@);
            let ghost e = self@.user_done[i as int];
            let ghost taken = self@.user_done.take(i as int);
            let row = &self.finished_user_tasks[i];
            if row.user_id == user_id {
                proof {
                    assert(self@.contains_task(e.task));
                }
                let k = match self.task_pos(row.task_id) {
                    Some(k) => k,
                    None => {
                        proof {
                            assert(false);
                        }
                        return UserTasksResponse {
                            user_id: user_id,
                            finished_tasks: Vec::new(),
                            unfinished_tasks: Vec::new(),
                        };
                    },
                };
                let task = &self.tasks[k];
                let ghost prev = fin@;
                fin.push(
                    FinishedTaskDetail {
                        task_id: task.task_id,
                        title: task.title.clone(),
                        description: task.description.clone(),
                        course: task.course.clone(),
                        due_date: task.due_date,
                        finished_at: row.finished_at,
                    },
                );
                proof {
                    let s = self@;
                    let w = s.task_index_of(e.task);
                    assert(s.tasks[w].id == e.task);
                    if w != k as int {
                        assert(s.tasks[w].id != s.tasks[k as int].id);
                    }
                    assert(s.tasks[k as int] == s.task_of(e.task));
                    assert(fin@.last()@ == s.completion_detail_fn()(e));
                    assert(fin@.map_values(|d: FinishedTaskDetail| d@) =~= prev.map_values(
                        |d: FinishedTaskDetail| d@,
                    ).push(fin@.last()@));
                }
            }
            proof {
                let s = self@;
                assert(s.user_done.take(i + 1) =~= taken + seq![e]);
                lemma_filter_push(taken, e, done_by_actor(user_id as int));
                if done_by_actor(user_id as int)(e) {
                    lemma_map_values_add(
                        taken.filter(done_by_actor(user_id as int)),
                        seq![e],
                        s.completion_detail_fn(),
                    );
                    lemma_map_values_singleton(e, s.completion_detail_fn());
                    assert(fin@.map_values(|d: FinishedTaskDetail| d@) =~= s.user_done.take(
                        i + 1,
                    ).filter(done_by_actor(user_id as int)).map_values(s.completion_detail_fn()));
                } else {
                    assert(taken.filter(done_by_actor(user_id as int)) + Seq::<
                        CompletionModel,
                    >::empty() =~= taken.filter(done_by_actor(user_id as int)));
                    assert(fin@.map_values(|d: FinishedTaskDetail| d@) =~= s.user_done.take(
                        i + 1,
                    ).filter(done_by_actor(user_id as int)).map_values(s.completion_detail_fn()));
                }
            }
        }
        proof {
            assert(self@.user_done.take(n as int) =~= self@.user_done);
        }
        let mut inh: Vec<FinishedTaskDetail> = Vec::new();
        let m = self.tasks.len();
        for i in 0..m
            invariant
                m == self.tasks.len(),
                self@.wf(),
                inh@.map_values(|d: FinishedTaskDetail| d@) =~= self@.tasks.take(i as int).filter(
                    self@.inherited_pred(user_id as int),
                ).map_values(self@.inherited_detail_fn(user_id as int)),
        {
            assert(self@.tasks[i as int] == self.tasks@[i as int]@);
            let ghost t = self@.tasks[i as int];
            let ghost taken = self@.tasks.take(i as int);
            let task = &self.tasks[i];
            let mut hit = false;
            if task.task_type == GROUP_MODE {
                match self.inherited_finish_at(user_id, task.task_id) {
                    Some(at) => {
                        hit = true;
                        let ghost prev = inh@;
                        inh.push(
                            FinishedTaskDetail {
                                task_id: task.task_id,
                                title: task.title.clone(),
                                description: task.description.clone(),
                                course: task.course.clone(),
                                due_date: task.due_date,
                                finished_at: at,
                            },
                        );
                        proof {
                            let s = self@;
                            assert(s.inherited_at(user_id as int, t.id) == Some(at as int));
                            assert(inh@.last()@ == s.inherited_detail_fn(user_id as int)(t));
                            assert(inh@.map_values(|d: FinishedTaskDetail| d@) =~= prev.map_values(
                                |d: FinishedTaskDetail| d@,
                            ).push(inh@.last()@));
                        }
                    },
                    None => {},
                }
            }
            proof {
                let s = self@;
                assert(hit == s.inherited_pred(user_id as int)(t));
                assert(s.tasks.take(i + 1) =~= taken + seq![t]);
                lemma_filter_push(taken, t, s.inherited_pred(user_id as int));
                if hit {
                    lemma_map_values_add(
                        taken.filter(s.inherited_pred(user_id as int)),
                        seq![t],
                        s.inherited_detail_fn(user_id as int),
                    );
                    lemma_map_values_singleton(t, s.inherited_detail_fn(user_id as int));
                    assert(inh@.map_values(|d: FinishedTaskDetail| d@) =~= s.tasks.take(
                        i + 1,
                    ).filter(s.inherited_pred(user_id as int)).map_values(
                        s.inherited_detail_fn(user_id as int),
                    ));
                } else {
                    assert(taken.filter(s.inherited_pred(user_id as int)) + Seq::<
                        TaskModel,
                    >::empty() =~= taken.filter(s.inherited_pred(user_id as int)));
                    assert(inh@.map_values(|d: FinishedTaskDetail| d@) =~= s.tasks.take(
                        i + 1,
                    ).filter(s.inherited_pred(user_id as int)).map_values(
                        s.inherited_detail_fn(user_id as int),
                    ));
                }
            }
        }
        proof {
            assert(self@.tasks.take(m as int) =~= self@.tasks);
        }
        let ghost fin_before = fin@;
        let ghost inh_full = inh@;
        fin.append(&mut inh);
        proof {
            lemma_map_values_add(fin_before, inh_full, |d: FinishedTaskDetail| d@);
            assert(fin@.map_values(|d: FinishedTaskDetail| d@) =~= self@.direct_details_of(
                user_id as int,
            ) + self@.inherited_details_of(user_id as int));
        }
        let mut unfin: Vec<UnfinishedTaskDetail> = Vec::new();
        for i in 0..m
            invariant
                m == self.tasks.len(),
                self@.wf(),
                unfin@.map_values(|d: UnfinishedTaskDetail| d@) =~= self@.tasks.take(
                    i as int,
                ).filter(self@.member_unfinished_pred(user_id as int)).map_values(
                    unfinished_detail_fn(),
                ),
        {
            assert(self@.tasks[i as int] == self.tasks@[i as int]@);
            let ghost t = self@.tasks[i as int];
            let ghost taken = self@.tasks.take(i as int);
            let task = &self.tasks[i];
            let applicable: bool = task.task_type == INDIVIDUAL_MODE || (task.task_type
                == GROUP_MODE && self.member_in_course_check(user_id, &task.course));
            let not_direct: bool = self.direct_pos(user_id, task.task_id).is_none();
            let not_inherited: bool = self.inherited_finish_at(user_id, task.task_id).is_none();
            let keep: bool = applicable && not_direct && not_inherited;
            proof {
                let s = self@;
                assert(applicable == s.applicable(user_id as int, t));
                assert(not_direct == !s.has_direct(user_id as int, t.id));
                assert(not_inherited == !s.inherits(user_id as int, t.id));
                assert(keep == s.member_unfinished_pred(user_id as int)(t));
            }
            if keep {
                let ghost prev = unfin@;
                unfin.push(
                    UnfinishedTaskDetail {
                        task_id: task.task_id,
                        title: task.title.clone(),
                        description: task.description.clone(),
                        course: task.course.clone(),
                        due_date: task.due_date,
                    },
                );
                proof {
                    assert(unfin@.last()@ == unfinished_detail_fn()(t));
                    assert(unfin@.map_values(|d: UnfinishedTaskDetail| d@) =~= prev.map_values(
                        |d: UnfinishedTaskDetail| d@,
                    ).push(unfin@.last()@));
                }
            }
            proof {
                let s = self@;
                assert(s.tasks.take(i + 1) =~= taken + seq![t]);
                lemma_filter_push(taken, t, s.member_unfinished_pred(user_id as int));
                if keep {
                    lemma_map_values_add(
                        taken.filter(s.member_unfinished_pred(user_id as int)),
                        seq![t],
                        unfinished_detail_fn(),
                    );
                    lemma_map_values_singleton(t, unfinished_detail_fn());
                    assert(unfin@.map_values(|d: UnfinishedTaskDetail| d@) =~= s.tasks.take(
                        i + 1,
                    ).filter(s.member_unfinished_pred(user_id as int)).map_values(
                        unfinished_detail_fn(),
                    ));
                } else {
                    assert(taken.filter(s.member_unfinished_pred(user_id as int)) + Seq::<
                        TaskModel,
                    >::empty() =~= taken.filter(s.member_unfinished_pred(user_id as int)));
                    assert(unfin@.map_values(|d: UnfinishedTaskDetail| d@) =~= s.tasks.take(
                        i + 1,
                    ).filter(s.member_unfinished_pred(user_id as int)).map_values(
                        unfinished_detail_fn(),
                    ));
                }
            }
        }
        proof {
            assert(self@.tasks.take(m as int) =~= self@.tasks);
        }
        UserTasksResponse { user_id: user_id, finished_tasks: fin, unfinished_tasks: unfin }
    }
}

} // verus!

verus! {

impl StoreModel {
    /// The members who recorded a direct completion of the named task.
    pub open spec fn user_finished_pred(self, t: int) -> spec_fn(UserModel) -> bool {
        |u: UserModel| self.has_direct(u.id, t)
    }

    /// The members without a direct completion of the named task.
    pub open spec fn user_unfinished_pred(self, t: int) -> spec_fn(UserModel) -> bool {
        |u: UserModel| !self.has_direct(u.id, t)
    }

    /// The finished side of an individual-mode partition: every member with
    /// a direct completion, in member creation order.
    pub open spec fn finished_users_of(self, t: int) -> Seq<UserModel> {
        self.users.filter(self.user_finished_pred(t))
    }

    /// The unfinished side of an individual-mode partition: every member
    /// without a direct completion, in member creation order.
    pub open spec fn unfinished_users_of(self, t: int) -> Seq<UserModel> {
        self.users.filter(self.user_unfinished_pred(t))
    }

    /// The groups of a course that recorded a completion of the named task.
    pub open spec fn group_finished_pred(self, t: int, course: Seq<char>) -> spec_fn(
        GroupModel,
    ) -> bool {
        |g: GroupModel| g.course == course && self.has_group_done(g.id, t)
    }

    /// The groups of a course without a completion of the named task.
    pub open spec fn group_not_done_pred(self, t: int, course: Seq<char>) -> spec_fn(
        GroupModel,
    ) -> bool {
        |g: GroupModel| g.course == course && !self.has_group_done(g.id, t)
    }

    /// The finished side of a group-mode partition: every group of the
    /// task's course with a completion, hydrated, in creation order.
    pub open spec fn finished_groups_of(self, t: int, course: Seq<char>) -> Seq<
        crate::group::GroupHydratedModel,
    > {
        self.groups.filter(self.group_finished_pred(t, course)).map_values(self.hydrate_fn())
    }

    /// The unfinished side of a group-mode partition: every group of the
    /// task's course without a completion, hydrated, in creation order.
    pub open spec fn unfinished_groups_of(self, t: int, course: Seq<char>) -> Seq<
        crate::group::GroupHydratedModel,
    > {
        self.groups.filter(self.group_not_done_pred(t, course)).map_values(self.hydrate_fn())
    }
}

impl Store {
    /// The typed status of one task. An unknown identifier, or a stored
    /// mode outside the closed set, is not found. An individual-mode task
    /// partitions the entire member set by direct completion; a group-mode
    /// task partitions the groups of its course by group completion, each
    /// hydrated with its roster.
    pub fn get_task_status(&self, task_id: i32) -> (r: Result<TaskStatus, ApiError>)
        requires
            self@.wf(),
        ensures
            !self@.contains_task(task_id as int) ==> r == Err::<TaskStatus, ApiError>(
                ApiError::NotFound,
            ),
            self@.contains_task(task_id as int) && self@.task_of(task_id as int).mode
                == INDIVIDUAL_MODE ==> (r matches Ok(TaskStatus::Individual(resp))
                && resp@.task == self@.task_of(task_id as int) && resp@.finished_users
                == self@.finished_users_of(task_id as int) && resp@.unfinished_users
                == self@.unfinished_users_of(task_id as int)),
            self@.contains_task(task_id as int) && self@.task_of(task_id as int).mode == GROUP_MODE
                ==> (r matches Ok(TaskStatus::Group(resp)) && resp@.task == self@.task_of(
                task_id as int,
            ) && resp@.finished_groups == self@.finished_groups_of(
                task_id as int,
                self@.task_of(task_id as int).course,
            ) && resp@.unfinished_groups == self@.unfinished_groups_of(
                task_id as int,
                self@.task_of(task_id as int).course,
            )),
            self@.contains_task(task_id as int) && self@.task_of(task_id as int).mode
                != INDIVIDUAL_MODE && self@.task_of(task_id as int).mode != GROUP_MODE ==> r
                == Err::<TaskStatus, ApiError>(ApiError::NotFound),
    {
        let k = match self.task_pos(task_id) {
            Some(k) => k,
            None => {
                return Err(ApiError::NotFound);
            },
        };
        proof {
            let s = self@;
            let k0 = s.task_index_of(task_id as int);
            assert(s.tasks[k0].id == task_id as int);
            if k0 != k as int {
                assert(s.tasks[k0].id != s.tasks[k as int].id);
            }
            assert(self@.tasks[k as int] == self@.task_of(task_id as int));
            assert(self@.tasks[k as int] == self.tasks@[k as int]@);
        }
        let task = self.tasks[k].duplicate();
        let ghost tid = task_id as int;
        if task.task_type == INDIVIDUAL_MODE {
            let mut fin: Vec<crate::users::UserResponse> = Vec::new();
            let mut unfin: Vec<crate::users::UserResponse> = Vec::new();
            let n = self.users.len();
            for i in 0..n
                invariant
                    n == self.users.len(),
                    self@.wf(),
                    tid == task_id as int,
                    fin@.map_values(|u: crate::users::UserResponse| u@) =~= self@.users.take(
                        i as int,
                    ).filter(self@.user_finished_pred(tid)),
                    unfin@.map_values(|u: crate::users::UserResponse| u@) =~= self@.users.take(
                        i as int,
                    ).filter(self@.user_unfinished_pred(tid)),
            {
                assert(self@.users[i as int] == self.users@[i as int]@);
                let ghost u = self@.users[i as int];
                let ghost taken = self@.users.take(i as int);
                let ghost prev_fin = fin@;
                let ghost prev_unfin = unfin@;
                let done = self.direct_pos(self.users[i].id, task_id).is_some();
                if done {
                    fin.push(self.users[i].duplicate());
                } else {
                    unfin.push(self.users[i].duplicate());
                }
                proof {
                    let s = self@;
                    assert(done == s.user_finished_pred(tid)(u));
                    assert(s.users.take(i + 1) =~= taken + seq![u]);
                    lemma_filter_push(taken, u, s.user_finished_pred(tid));
                    lemma_filter_push(taken, u, s.user_unfinished_pred(tid));
                    if done {
                        assert(fin@.map_values(|x: crate::users::UserResponse| x@)
                            =~= prev_fin.map_values(|x: crate::users::UserResponse| x@).push(u));
                        assert(taken.filter(s.user_finished_pred(tid)) + seq![u] =~= taken.filter(
                            s.user_finished_pred(tid),
                        ).push(u));
                        assert(taken.filter(s.user_unfinished_pred(tid)) + Seq::<
                            UserModel,
                        >::empty() =~= taken.filter(s.user_unfinished_pred(tid)));
                    } else {
                        assert(unfin@.map_values(|x: crate::users::UserResponse| x@)
                            =~= prev_unfin.map_values(|x: crate::users::UserResponse| x@).push(u));
                        assert(taken.filter(s.user_unfinished_pred(tid)) + seq![u] =~= taken.filter(
                            s.user_unfinished_pred(tid),
                        ).push(u));
                        assert(taken.filter(s.user_finished_pred(tid)) + Seq::<UserModel>::empty()
                            =~= taken.filter(s.user_finished_pred(tid)));
                    }
                    assert(fin@.map_values(|x: crate::users::UserResponse| x@) =~= s.users.take(
                        i + 1,
                    ).filter(s.user_finished_pred(tid)));
                    assert(unfin@.map_values(|x: crate::users::UserResponse| x@) =~= s.users.take(
                        i + 1,
                    ).filter(s.user_unfinished_pred(tid)));
                }
            }
            proof {
                assert(self@.users.take(n as int) =~= self@.users);
            }
            let resp = UserTaskStatusResponse {
                task_id: task.task_id,
                course: task.course,
                title: task.title,
                description: task.description,
                task_type: task.task_type,
                due_date: task.due_date,
                finished_users: fin,
                unfinished_users: unfin,
            };
            Ok(TaskStatus::Individual(resp))
        } else if task.task_type == GROUP_MODE {
            let mut fin: Vec<GroupResponse> = Vec::new();
            let mut unfin: Vec<GroupResponse> = Vec::new();
            let ghost course = self@.task_of(tid).course;
            let n = self.groups.len();
            for i in 0..n
                invariant
                    n == self.groups.len(),
                    self@.wf(),
                    tid == task_id as int,
                    course == self@.task_of(tid).course,
                    task.course@ == course,
                    fin@.map_values(|g: GroupResponse| g@) =~= self@.groups.take(i as int).filter(
                        self@.group_finished_pred(tid, course),
                    ).map_values(self@.hydrate_fn()),
                    unfin@.map_values(|g: GroupResponse| g@) =~= self@.groups.take(i as int).filter(
                        self@.group_not_done_pred(tid, course),
                    ).map_values(self@.hydrate_fn()),
            {
                assert(self@.groups[i as int] == self.groups@[i as int]@);
                let ghost g = self@.groups[i as int];
                let ghost taken = self@.groups.take(i as int);
                let ghost prev_fin = fin@;
                let ghost prev_unfin = unfin@;
                let row = &self.groups[i];
                let in_course = row.course == task.course;
                let mut done = false;
                if in_course {
                    let members = self.group_roster(row.id);
                    let hydrated = GroupResponse {
                        id: row.id,
                        group_number: row.group_number,
                        course: row.course.clone(),
                        members: members,
                        created_at: row.created_at,
                    };
                    proof {
                        assert(hydrated@ == self@.hydrate_fn()(g)) by {
                            assert(hydrated@.members =~= self@.roster_of(g.id));
                        }
                    }
                    if self.group_done_pos(row.id, task_id).is_some() {
                        done = true;
                        fin.push(hydrated);
                    } else {
                        unfin.push(hydrated);
                    }
                }
                proof {
                    let s = self@;
                    assert(in_course == (g.course == course));
                    assert(s.groups.take(i + 1) =~= taken + seq![g]);
                    lemma_filter_push(taken, g, s.group_finished_pred(tid, course));
                    lemma_filter_push(taken, g, s.group_not_done_pred(tid, course));
                    if in_course && done {
                        assert(s.group_finished_pred(tid, course)(g));
                        assert(!s.group_not_done_pred(tid, course)(g));
                        assert(fin@.map_values(|x: GroupResponse| x@) =~= prev_fin.map_values(
                            |x: GroupResponse| x@,
                        ).push(s.hydrate_fn()(g)));
                        lemma_map_values_add(
                            taken.filter(s.group_finished_pred(tid, course)),
                            seq![g],
                            s.hydrate_fn(),
                        );
                        lemma_map_values_singleton(g, s.hydrate_fn());
                    } else if in_course {
                        assert(!s.group_finished_pred(tid, course)(g));
                        assert(s.group_not_done_pred(tid, course)(g));
                        assert(unfin@.map_values(|x: GroupResponse| x@) =~= prev_unfin.map_values(
                            |x: GroupResponse| x@,
                        ).push(s.hydrate_fn()(g)));
                        lemma_map_values_add(
                            taken.filter(s.group_not_done_pred(tid, course)),
                            seq![g],
                            s.hydrate_fn(),
                        );
                        lemma_map_values_singleton(g, s.hydrate_fn());
                    } else {
                        assert(!s.group_finished_pred(tid, course)(g));
                        assert(!s.group_not_done_pred(tid, course)(g));
                    }
                    assert(taken.filter(s.group_finished_pred(tid, course)) + Seq::<
                        GroupModel,
                    >::empty() =~= taken.filter(s.group_finished_pred(tid, course)));
                    assert(taken.filter(s.group_not_done_pred(tid, course)) + Seq::<
                        GroupModel,
                    >::empty() =~= taken.filter(s.group_not_done_pred(tid, course)));
                    assert(fin@.map_values(|x: GroupResponse| x@) =~= s.groups.take(i + 1).filter(
                        s.group_finished_pred(tid, course),
                    ).map_values(s.hydrate_fn()));
                    assert(unfin@.map_values(|x: GroupResponse| x@) =~= s.groups.take(i + 1).filter(
                        s.group_not_done_pred(tid, course),
                    ).map_values(s.hydrate_fn()));
                }
            }
            proof {
                assert(self@.groups.take(n as int) =~= self@.groups);
            }
            let resp = GroupTaskStatusResponse {
                task_id: task.task_id,
                course: task.course,
                title: task.title,
                description: task.description,
                task_type: task.task_type,
                due_date: task.due_date,
                finished_groups: fin,
                unfinished_groups: unfin,
            };
            Ok(TaskStatus::Group(resp))
        } else {
            Err(ApiError::NotFound)
        }
    }
}

} // verus!

verus! {

/// The groups belonging to one course.
pub open spec fn in_course_pred(course: Seq<char>) -> spec_fn(GroupModel) -> bool {
    |g: GroupModel| g.course == course
}

impl StoreModel {
    /// The groups scoped to one course, in creation order.
    pub open spec fn course_groups_of(self, course: Seq<char>) -> Seq<GroupModel> {
        self.groups.filter(in_course_pred(course))
    }

    /// The groups holding a completion of one task.
    pub open spec fn group_done_pred(self, t: int) -> spec_fn(GroupModel) -> bool {
        |g: GroupModel| self.has_group_done(g.id, t)
    }
}

/// Partition totality for an individual-mode task: the finished and
/// unfinished member lists split the entire member set, each member
/// landing in exactly one side, decided by its direct completion edge.
pub proof fn lemma_individual_partition(s: StoreModel, t: int)
    ensures
        s.finished_users_of(t).len() + s.unfinished_users_of(t).len() == s.users.len(),
        s.finished_users_of(t).to_multiset().add(s.unfinished_users_of(t).to_multiset())
            == s.users.to_multiset(),
        forall|u: UserModel|
            s.users.contains(u) ==> (#[trigger] s.finished_users_of(t).contains(u) <==> s.has_direct(
                u.id,
                t,
            )),
        forall|u: UserModel|
            s.users.contains(u) ==> (#[trigger] s.unfinished_users_of(t).contains(u)
                <==> !s.has_direct(u.id, t)),
        forall|u: UserModel| #[trigger] s.finished_users_of(t).contains(u) ==> s.users.contains(u),
        forall|u: UserModel| #[trigger] s.unfinished_users_of(t).contains(u) ==> s.users.contains(
            u,
        ),
{
    let p = s.user_finished_pred(t);
    assert(s.user_unfinished_pred(t) =~= (|a: UserModel| !p(a)));
    lemma_filter_partition(s.users, p);
    assert forall|u: UserModel| s.users.contains(u) implies (#[trigger] s.finished_users_of(
        t,
    ).contains(u) <==> s.has_direct(u.id, t)) && (s.unfinished_users_of(t).contains(u)
        <==> !s.has_direct(u.id, t)) by {
        lemma_filter_membership(s.users, p, u);
    }
    assert forall|u: UserModel| #[trigger] s.finished_users_of(t).contains(u) implies
        s.users.contains(u) by {
        crate::seq_facts::lemma_filter_subset(s.users, p, u);
    }
    assert forall|u: UserModel| #[trigger] s.unfinished_users_of(t).contains(u) implies
        s.users.contains(u) by {
        crate::seq_facts::lemma_filter_subset(s.users, s.user_unfinished_pred(t), u);
    }
}

/// Partition totality for a group-mode task: the finished and unfinished
/// group lists split exactly the groups of the task's course, each group
/// landing in exactly one side, decided by its completion edge. The
/// hydrated lists mirror the row lists one for one.
pub proof fn lemma_group_partition(s: StoreModel, t: int, course: Seq<char>)
    ensures
        s.groups.filter(s.group_finished_pred(t, course)).len() + s.groups.filter(
            s.group_not_done_pred(t, course),
        ).len() == s.course_groups_of(course).len(),
        s.groups.filter(s.group_finished_pred(t, course)).to_multiset().add(
            s.groups.filter(s.group_not_done_pred(t, course)).to_multiset(),
        ) == s.course_groups_of(course).to_multiset(),
        s.finished_groups_of(t, course).len() + s.unfinished_groups_of(t, course).len()
            == s.course_groups_of(course).len(),
        forall|g: GroupModel|
            s.course_groups_of(course).contains(g) ==> (#[trigger] s.groups.filter(
                s.group_finished_pred(t, course),
            ).contains(g) <==> s.has_group_done(g.id, t)),
        forall|g: GroupModel|
            s.course_groups_of(course).contains(g) ==> (#[trigger] s.groups.filter(
                s.group_not_done_pred(t, course),
            ).contains(g) <==> !s.has_group_done(g.id, t)),
{
    let p = in_course_pred(course);
    let q = s.group_done_pred(t);
    crate::seq_facts::lemma_filter_refine(s.groups, p, q);
    assert(s.group_finished_pred(t, course) =~= (|a: GroupModel| p(a) && q(a)));
    assert(s.group_not_done_pred(t, course) =~= (|a: GroupModel| p(a) && !q(a)));
    assert(s.groups.filter(s.group_finished_pred(t, course)) == s.groups.filter(
        |a: GroupModel| p(a) && q(a),
    ));
    assert(s.groups.filter(s.group_not_done_pred(t, course)) == s.groups.filter(
        |a: GroupModel| p(a) && !q(a),
    ));
    assert forall|g: GroupModel| s.course_groups_of(course).contains(g) implies (
    #[trigger] s.groups.filter(s.group_finished_pred(t, course)).contains(g) <==> s.has_group_done(
        g.id,
        t,
    )) by {
        crate::seq_facts::lemma_filter_subset(s.groups, p, g);
        lemma_filter_membership(s.groups, p, g);
        lemma_filter_membership(s.groups, s.group_finished_pred(t, course), g);
        assert(p(g));
        if s.has_group_done(g.id, t) {
            assert(s.group_finished_pred(t, course)(g));
        }
    }
    assert forall|g: GroupModel| s.course_groups_of(course).contains(g) implies (
    #[trigger] s.groups.filter(s.group_not_done_pred(t, course)).contains(g) <==> !s.has_group_done(
        g.id,
        t,
    )) by {
        crate::seq_facts::lemma_filter_subset(s.groups, p, g);
        lemma_filter_membership(s.groups, p, g);
        lemma_filter_membership(s.groups, s.group_not_done_pred(t, course), g);
        assert(p(g));
        if !s.has_group_done(g.id, t) {
            assert(s.group_not_done_pred(t, course)(g));
        }
    }
}

/// A recorded matching edge below the prefix bound forces an inherited
/// completion time to exist.
proof fn lemma_inherited_at_upto_some(s: StoreModel, m: int, t: int, j: int, n: int)
    requires
        0 <= j < n <= s.group_done.len(),
        s.group_done[j].task == t,
        s.has_membership(s.group_done[j].actor, m),
    ensures
        s.inherited_at_upto(m, t, n) is Some,
    decreases n,
{
    if n - 1 > j {
        lemma_inherited_at_upto_some(s, m, t, j, n - 1);
    }
}

/// Inheritance: if a member belongs to a group and that group recorded a
/// completion of a task, the member's resolved finished list carries an
/// entry for that task, even with no direct completion of the member's
/// own.
pub proof fn lemma_inheritance(s: StoreModel, m: int, g: int, t: int)
    requires
        s.wf(),
        s.has_membership(g, m),
        s.has_group_done(g, t),
    ensures
        s.inherits(m, t),
        exists|i: int|
            0 <= i < s.inherited_details_of(m).len() && (#[trigger] s.inherited_details_of(m)[
                i
            ]).task_id == t,
        exists|i: int|
            0 <= i < (s.direct_details_of(m) + s.inherited_details_of(m)).len() && (#[trigger] (
            s.direct_details_of(m) + s.inherited_details_of(m))[i]).task_id == t,
{
    broadcast use vstd::seq_lib::group_seq_properties;

    let j = s.group_done_index_of(g, t);
    assert(0 <= j < s.group_done.len() && s.group_done[j].actor == g && s.group_done[j].task == t);
    lemma_inherited_at_upto_some(s, m, t, j, s.group_done.len() as int);
    assert(s.inherits(m, t));
    assert(s.contains_task(t) && s.task_of(t).mode == GROUP_MODE);
    let w = s.task_index_of(t);
    assert(s.tasks[w].id == t);
    assert(s.inherited_pred(m)(s.tasks[w]));
    s.tasks.lemma_filter_contains(s.inherited_pred(m), w);
    let fs = s.tasks.filter(s.inherited_pred(m));
    assert(fs.contains(s.tasks[w]));
    let fi = choose|fi: int| 0 <= fi < fs.len() && #[trigger] fs[fi] == s.tasks[w];
    assert(s.inherited_details_of(m)[fi] == s.inherited_detail_fn(m)(s.tasks[w]));
    assert(s.inherited_details_of(m)[fi].task_id == t);
    let d = s.direct_details_of(m);
    let whole = d + s.inherited_details_of(m);
    assert(whole[d.len() + fi] == s.inherited_details_of(m)[fi]);
}

/// Marking the same (member, task) pair finished twice: the second mark is
/// a conflict and leaves the store unchanged, and the store never holds
/// two completion edges for one pair.
pub proof fn lemma_mark_finished_twice(s: StoreModel, u: int, t: int, at1: int, at2: int)
    requires
        s.wf(),
    ensures
        s.spec_mark_finished_member(u, t, at1) matches Ok(s2) ==> {
            &&& s2.has_direct(u, t)
            &&& s2.spec_mark_finished_member(u, t, at2) == Err::<StoreModel, ApiError>(
                ApiError::Conflict,
            )
            &&& forall|i: int, j: int|
                0 <= i < j < s2.user_done.len() ==> !((#[trigger] s2.user_done[i]).actor == (
                #[trigger] s2.user_done[j]).actor && s2.user_done[i].task == s2.user_done[j].task)
        },
{
    if s.spec_mark_finished_member(u, t, at1) is Ok {
        let s2 = s.with_user_done(CompletionModel { actor: u, task: t, at: at1 });
        let len = s.user_done.len() as int;
        assert(s2.user_done[len] == CompletionModel { actor: u, task: t, at: at1 });
        assert(s2.has_direct(u, t));
        assert(forall|i: int|
            0 <= i < s.user_done.len() ==> s2.user_done[i] == #[trigger] s.user_done[i]);
        assert forall|i: int, j: int| 0 <= i < j < s2.user_done.len() implies !((
        #[trigger] s2.user_done[i]).actor == (#[trigger] s2.user_done[j]).actor && s2.user_done[
        i
        ].task == s2.user_done[j].task) by {
            if j < len {
                assert(!(s.user_done[i].actor == s.user_done[j].actor && s.user_done[i].task
                    == s.user_done[j].task));
            } else {
                if s2.user_done[i].actor == u && s2.user_done[i].task == t {
                    assert(s.has_direct(u, t));
                }
            }
        }
        assert(s2.contains_task(t) && s2.task_of(t).mode == INDIVIDUAL_MODE) by {
            assert(s2.tasks == s.tasks);
            let w = s.task_index_of(t);
            assert(s2.tasks[w].id == t);
            assert(s2.contains_task(t));
            let w2 = s2.task_index_of(t);
            assert(s2.tasks[w2].id == t);
            if w2 != w {
                assert(s.tasks[w2].id != s.tasks[w].id);
            }
        }
        assert(s2.spec_mark_finished_member(u, t, at2) == Err::<StoreModel, ApiError>(
            ApiError::Conflict,
        ));
    }
}

} // verus!

verus! {

/// Marking the same (group, task) pair finished twice: the second mark is
/// a conflict and leaves the store unchanged, and the store never holds
/// two completion edges for one pair.
pub proof fn lemma_mark_group_finished_twice(s: StoreModel, g: int, t: int, at1: int, at2: int)
    requires
        s.wf(),
    ensures
        s.spec_mark_finished_group(g, t, at1) matches Ok(s2) ==> {
            &&& s2.has_group_done(g, t)
            &&& s2.spec_mark_finished_group(g, t, at2) == Err::<StoreModel, ApiError>(
                ApiError::Conflict,
            )
            &&& forall|i: int, j: int|
                0 <= i < j < s2.group_done.len() ==> !((#[trigger] s2.group_done[i]).actor == (
                #[trigger] s2.group_done[j]).actor && s2.group_done[i].task == s2.group_done[
                j
                ].task)
        },
{
    if s.spec_mark_finished_group(g, t, at1) is Ok {
        let s2 = s.with_group_done(CompletionModel { actor: g, task: t, at: at1 });
        let len = s.group_done.len() as int;
        assert(s2.group_done[len] == CompletionModel { actor: g, task: t, at: at1 });
        assert(s2.has_group_done(g, t));
        assert(forall|i: int|
            0 <= i < s.group_done.len() ==> s2.group_done[i] == #[trigger] s.group_done[i]);
        assert forall|i: int, j: int| 0 <= i < j < s2.group_done.len() implies !((
        #[trigger] s2.group_done[i]).actor == (#[trigger] s2.group_done[j]).actor && s2.group_done[
        i
        ].task == s2.group_done[j].task) by {
            if j < len {
                assert(!(s.group_done[i].actor == s.group_done[j].actor && s.group_done[i].task
                    == s.group_done[j].task));
            } else {
                if s2.group_done[i].actor == g && s2.group_done[i].task == t {
                    assert(s.has_group_done(g, t));
                }
            }
        }
        assert(s2.contains_task(t) && s2.task_of(t).mode == GROUP_MODE) by {
            assert(s2.tasks == s.tasks);
            let w = s.task_index_of(t);
            assert(s2.tasks[w].id == t);
            assert(s2.contains_task(t));
            let w2 = s2.task_index_of(t);
            assert(s2.tasks[w2].id == t);
            if w2 != w {
                assert(s.tasks[w2].id != s.tasks[w].id);
            }
        }
        assert(s2.contains_group(g)) by {
            assert(s2.groups == s.groups);
            let w = s.group_index_of(g);
            assert(s2.groups[w].id == g);
        }
        assert(s2.spec_mark_finished_group(g, t, at2) == Err::<StoreModel, ApiError>(
            ApiError::Conflict,
        ));
    }
}

} // verus!
