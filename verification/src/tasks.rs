//! Tasks, their assignment mode, and the status views that the resolution
//! engine returns for one task.

use vstd::prelude::*;
use crate::users::{UserModel, UserResponse};
use crate::group::GroupResponse;

verus! {

/// The assignment mode of a task: its completion unit is either one member
/// or one group. The mode is immutable after creation.
#[derive(Clone, Copy, Debug, PartialEq, Eq, Structural)]
pub enum TaskType {
    Individual,
    Group,
}

/// The stored code of the individual assignment mode.
pub const INDIVIDUAL_MODE: i32 = 0;

/// The stored code of the group assignment mode.
pub const GROUP_MODE: i32 = 1;

impl TaskType {
    /// Decodes a stored mode value; any value outside the closed set is
    /// rejected as invalid.
    pub fn try_from(value: i32) -> (r: Result<TaskType, &'static str>)
        ensures
            value == INDIVIDUAL_MODE ==> r == Ok::<TaskType, &'static str>(TaskType::Individual),
            value == GROUP_MODE ==> r == Ok::<TaskType, &'static str>(TaskType::Group),
            value != INDIVIDUAL_MODE && value != GROUP_MODE ==> r is Err,
    {
        match value {
            0 => Ok(TaskType::Individual),
            1 => Ok(TaskType::Group),
            _ => Err("Invalid task type"),
        }
    }

    /// The stored code of this mode.
    pub fn code(&self) -> (r: i32)
        ensures
            r == self.spec_code(),
    {
        match self {
            TaskType::Individual => INDIVIDUAL_MODE,
            TaskType::Group => GROUP_MODE,
        }
    }

    /// The stored code of each mode.
    pub open spec fn spec_code(&self) -> i32 {
        match self {
            TaskType::Individual => INDIVIDUAL_MODE,
            TaskType::Group => GROUP_MODE,
        }
    }
}

/// The mathematical value of one task row.
pub struct TaskModel {
    pub id: int,
    pub course: Seq<char>,
    pub title: Seq<char>,
    pub description: Seq<char>,
    pub mode: int,
    pub due_date: int,
}

/// A request to create a task. The due date is a plain timestamp,
/// seconds since the epoch.
pub struct CreateTaskRequest {
    pub course: String,
    pub title: String,
    pub description: String,
    pub task_type: i32,
    pub due_date: i64,
}

/// A request to update a task's title and description.
pub struct UpdateTaskRequest {
    pub task_id: i32,
    pub title: String,
    pub description: String,
}

/// One task row as responses carry it.
pub struct TaskResponse {
    pub task_id: i32,
    pub course: String,
    pub title: String,
    pub description: String,
    pub task_type: i32,
    pub due_date: i64,
}

impl View for TaskResponse {
    type V = TaskModel;

    open spec fn view(&self) -> TaskModel {
        TaskModel {
            id: self.task_id as int,
            course: self.course@,
            title: self.title@,
            description: self.description@,
            mode: self.task_type as int,
            due_date: self.due_date as int,
        }
    }
}

impl TaskResponse {
    /// Copies this row.
    pub fn duplicate(&self) -> (r: TaskResponse)
        ensures
            r@ == self@,
    {
        TaskResponse {
            task_id: self.task_id,
            course: self.course.clone(),
            title: self.title.clone(),
            description: self.description.clone(),
            task_type: self.task_type,
            due_date: self.due_date,
        }
    }
}

/// A request naming one (member, task) completion edge.
pub struct FinishedTaskRequest {
    pub user_id: i32,
    pub task_id: i32,
}

/// The mathematical value of one completion edge: the finishing actor
/// (a member or a group), the task, and the completion timestamp.
pub struct CompletionModel {
    pub actor: int,
    pub task: int,
    pub at: int,
}

/// One direct (member, task) completion row with its timestamp.
pub struct FinishedTaskResponse {
    pub user_id: i32,
    pub task_id: i32,
    pub finished_at: i64,
}

impl View for FinishedTaskResponse {
    type V = CompletionModel;

    open spec fn view(&self) -> CompletionModel {
        CompletionModel {
            actor: self.user_id as int,
            task: self.task_id as int,
            at: self.finished_at as int,
        }
    }
}

/// One member's standing on one task.
pub struct UserTaskStatus {
    pub user_id: i32,
    pub username: String,
    pub name: String,
    pub task_finished: bool,
    pub finished_at: Option<i64>,
}

/// The status of an individual-mode task: the whole member set partitioned
/// into those who finished it and those who did not.
pub struct UserTaskStatusResponse {
    pub task_id: i32,
    pub course: String,
    pub title: String,
    pub description: String,
    pub task_type: i32,
    pub due_date: i64,
    pub finished_users: Vec<UserResponse>,
    pub unfinished_users: Vec<UserResponse>,
}

/// The mathematical value of an individual-mode task status.
pub struct UserTaskStatusModel {
    pub task: TaskModel,
    pub finished_users: Seq<UserModel>,
    pub unfinished_users: Seq<UserModel>,
}

impl View for UserTaskStatusResponse {
    type V = UserTaskStatusModel;

    open spec fn view(&self) -> UserTaskStatusModel {
        UserTaskStatusModel {
            task: TaskModel {
                id: self.task_id as int,
                course: self.course@,
                title: self.title@,
                description: self.description@,
                mode: self.task_type as int,
                due_date: self.due_date as int,
            },
            finished_users: self.finished_users@.map_values(|u: UserResponse| u@),
            unfinished_users: self.unfinished_users@.map_values(|u: UserResponse| u@),
        }
    }
}

/// The status of a group-mode task: the groups of the task's course
/// partitioned into those that finished it and those that did not, each
/// hydrated with its member roster.
pub struct GroupTaskStatusResponse {
    pub task_id: i32,
    pub course: String,
    pub title: String,
    pub description: String,
    pub task_type: i32,
    pub due_date: i64,
    pub finished_groups: Vec<GroupResponse>,
    pub unfinished_groups: Vec<GroupResponse>,
}

/// The mathematical value of a group-mode task status.
pub struct GroupTaskStatusModel {
    pub task: TaskModel,
    pub finished_groups: Seq<crate::group::GroupHydratedModel>,
    pub unfinished_groups: Seq<crate::group::GroupHydratedModel>,
}

impl View for GroupTaskStatusResponse {
    type V = GroupTaskStatusModel;

    open spec fn view(&self) -> GroupTaskStatusModel {
        GroupTaskStatusModel {
            task: TaskModel {
                id: self.task_id as int,
                course: self.course@,
                title: self.title@,
                description: self.description@,
                mode: self.task_type as int,
                due_date: self.due_date as int,
            },
            finished_groups: self.finished_groups@.map_values(|g: GroupResponse| g@),
            unfinished_groups: self.unfinished_groups@.map_values(|g: GroupResponse| g@),
        }
    }
}

/// The typed status of one task, shaped by its assignment mode.
pub enum TaskStatus {
    Individual(UserTaskStatusResponse),
    Group(GroupTaskStatusResponse),
}

} // verus!

verus! {

/// The mathematical value of a typed task status.
pub enum TaskStatusModel {
    Individual(UserTaskStatusModel),
    Group(GroupTaskStatusModel),
}

impl View for TaskStatus {
    type V = TaskStatusModel;

    open spec fn view(&self) -> TaskStatusModel {
        match self {
            TaskStatus::Individual(resp) => TaskStatusModel::Individual(resp@),
            TaskStatus::Group(resp) => TaskStatusModel::Group(resp@),
        }
    }
}

} // verus!
