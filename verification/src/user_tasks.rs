//! The per-member task partition view: what a member has finished, directly
//! or through a group, and what remains.

use vstd::prelude::*;

verus! {

/// A request naming one (member, task) completion edge.
pub struct UpdateUserTasksRequest {
    pub task_id: i32,
    pub user_id: i32,
}

/// The mathematical value of one finished-task entry.
pub struct FinishedDetailModel {
    pub task_id: int,
    pub title: Seq<char>,
    pub description: Seq<char>,
    pub course: Seq<char>,
    pub due_date: int,
    pub finished_at: int,
}

/// One finished task with its completion timestamp: the member's own
/// timestamp for a direct completion, the group's for an inherited one.
pub struct FinishedTaskDetail {
    pub task_id: i32,
    pub title: String,
    pub description: String,
    pub course: String,
    pub due_date: i64,
    pub finished_at: i64,
}

impl View for FinishedTaskDetail {
    type V = FinishedDetailModel;

    open spec fn view(&self) -> FinishedDetailModel {
        FinishedDetailModel {
            task_id: self.task_id as int,
            title: self.title@,
            description: self.description@,
            course: self.course@,
            due_date: self.due_date as int,
            finished_at: self.finished_at as int,
        }
    }
}

/// The mathematical value of one unfinished-task entry.
pub struct UnfinishedDetailModel {
    pub task_id: int,
    pub title: Seq<char>,
    pub description: Seq<char>,
    pub course: Seq<char>,
    pub due_date: int,
}

/// One unfinished task.
pub struct UnfinishedTaskDetail {
    pub task_id: i32,
    pub title: String,
    pub description: String,
    pub course: String,
    pub due_date: i64,
}

impl View for UnfinishedTaskDetail {
    type V = UnfinishedDetailModel;

    open spec fn view(&self) -> UnfinishedDetailModel {
        UnfinishedDetailModel {
            task_id: self.task_id as int,
            title: self.title@,
            description: self.description@,
            course: self.course@,
            due_date: self.due_date as int,
        }
    }
}

/// A member's tasks partitioned into finished and unfinished.
pub struct UserTasksResponse {
    pub user_id: i32,
    pub finished_tasks: Vec<FinishedTaskDetail>,
    pub unfinished_tasks: Vec<UnfinishedTaskDetail>,
}

} // verus!

verus! {

/// The mathematical value of a member's task partition.
pub struct UserTasksModel {
    pub user_id: int,
    pub finished_tasks: Seq<FinishedDetailModel>,
    pub unfinished_tasks: Seq<UnfinishedDetailModel>,
}

impl View for UserTasksResponse {
    type V = UserTasksModel;

    open spec fn view(&self) -> UserTasksModel {
        UserTasksModel {
            user_id: self.user_id as int,
            finished_tasks: self.finished_tasks@.map_values(|d: FinishedTaskDetail| d@),
            unfinished_tasks: self.unfinished_tasks@.map_values(|d: UnfinishedTaskDetail| d@),
        }
    }
}

} // verus!
