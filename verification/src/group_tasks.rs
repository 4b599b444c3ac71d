//! Group completion edges and the per-group task partition view.

use vstd::prelude::*;
use crate::tasks::CompletionModel;
use crate::user_tasks::{FinishedTaskDetail, UnfinishedTaskDetail};

verus! {

/// A request naming one (group, task) completion edge.
pub struct UpdateGroupTasksRequest {
    pub task_id: i32,
    pub group_id: i32,
}

/// One (group, task) completion row with its timestamp.
pub struct FinishedGroupTask {
    pub group_id: i32,
    pub task_id: i32,
    pub finished_at: i64,
}

impl View for FinishedGroupTask {
    type V = CompletionModel;

    open spec fn view(&self) -> CompletionModel {
        CompletionModel {
            actor: self.group_id as int,
            task: self.task_id as int,
            at: self.finished_at as int,
        }
    }
}

/// One group's tasks partitioned into finished and unfinished.
pub struct GroupTasksResponse {
    pub group_id: i32,
    pub finished_tasks: Vec<FinishedTaskDetail>,
    pub unfinished_tasks: Vec<UnfinishedTaskDetail>,
}

} // verus!

verus! {

/// The mathematical value of a group's task partition.
pub struct GroupTasksModel {
    pub group_id: int,
    pub finished_tasks: Seq<crate::user_tasks::FinishedDetailModel>,
    pub unfinished_tasks: Seq<crate::user_tasks::UnfinishedDetailModel>,
}

impl View for GroupTasksResponse {
    type V = GroupTasksModel;

    open spec fn view(&self) -> GroupTasksModel {
        GroupTasksModel {
            group_id: self.group_id as int,
            finished_tasks: self.finished_tasks@.map_values(|d: FinishedTaskDetail| d@),
            unfinished_tasks: self.unfinished_tasks@.map_values(|d: UnfinishedTaskDetail| d@),
        }
    }
}

} // verus!
