//! The relational store: five collections (members, groups, membership
//! edges, tasks, completion edges by member and by group) plus the course
//! registry, with the schema's uniqueness and referential-integrity
//! invariants, and the typed read/write operations over them.

use vstd::prelude::*;
use crate::course::{AllCourseResponse, CreateCourseRequest};
use crate::group::{GroupMember, GroupModel, GroupRow, MembershipModel};
use crate::group_tasks::FinishedGroupTask;
use crate::status::ApiError;
use crate::tasks::{
    CompletionModel, CreateTaskRequest, FinishedTaskResponse, TaskModel, TaskResponse,
    TaskType, UpdateTaskRequest, INDIVIDUAL_MODE, GROUP_MODE,
};
use crate::users::{CreateUserRequest, Role, UpdateUserRequest, UserModel, UserResponse};

verus! {

/// The mathematical value of the whole store.
#[verifier::ext_equal]
pub struct StoreModel {
    pub users: Seq<UserModel>,
    pub groups: Seq<GroupModel>,
    pub group_members: Seq<MembershipModel>,
    pub tasks: Seq<TaskModel>,
    pub subjects: Seq<Seq<char>>,
    pub user_done: Seq<CompletionModel>,
    pub group_done: Seq<CompletionModel>,
    pub next_user_id: int,
    pub next_group_id: int,
    pub next_task_id: int,
}

impl StoreModel {
    /// Whether a member row with this identifier exists.
    pub open spec fn contains_user(self, id: int) -> bool {
        exists|i: int| 0 <= i < self.users.len() && #[trigger] self.users[i].id == id
    }

    /// The index of the member row with this identifier.
    pub open spec fn user_index_of(self, id: int) -> int {
        choose|i: int| 0 <= i < self.users.len() && #[trigger] self.users[i].id == id
    }

    /// The member row with this identifier.
    pub open spec fn user_of(self, id: int) -> UserModel {
        self.users[self.user_index_of(id)]
    }

    /// Whether a member row with this username exists.
    pub open spec fn contains_username(self, username: Seq<char>) -> bool {
        exists|i: int| 0 <= i < self.users.len() && #[trigger] self.users[i].username == username
    }

    /// Whether a group row with this identifier exists.
    pub open spec fn contains_group(self, id: int) -> bool {
        exists|i: int| 0 <= i < self.groups.len() && #[trigger] self.groups[i].id == id
    }

    /// The index of the group row with this identifier.
    pub open spec fn group_index_of(self, id: int) -> int {
        choose|i: int| 0 <= i < self.groups.len() && #[trigger] self.groups[i].id == id
    }

    /// The group row with this identifier.
    pub open spec fn group_of(self, id: int) -> GroupModel {
        self.groups[self.group_index_of(id)]
    }

    /// Whether a task row with this identifier exists.
    pub open spec fn contains_task(self, id: int) -> bool {
        exists|i: int| 0 <= i < self.tasks.len() && #[trigger] self.tasks[i].id == id
    }

    /// The index of the task row with this identifier.
    pub open spec fn task_index_of(self, id: int) -> int {
        choose|i: int| 0 <= i < self.tasks.len() && #[trigger] self.tasks[i].id == id
    }

    /// The task row with this identifier.
    pub open spec fn task_of(self, id: int) -> TaskModel {
        self.tasks[self.task_index_of(id)]
    }

    /// Whether this course label is registered.
    pub open spec fn contains_subject(self, course: Seq<char>) -> bool {
        exists|i: int| 0 <= i < self.subjects.len() && #[trigger] self.subjects[i] == course
    }

    /// Whether the member belongs to the group.
    pub open spec fn has_membership(self, group: int, user: int) -> bool {
        exists|i: int|
            0 <= i < self.group_members.len() && (#[trigger] self.group_members[i]).group == group
                && self.group_members[i].user == user
    }

    /// Whether a direct completion edge for this (member, task) pair exists.
    pub open spec fn has_direct(self, user: int, task: int) -> bool {
        exists|i: int|
            0 <= i < self.user_done.len() && (#[trigger] self.user_done[i]).actor == user
                && self.user_done[i].task == task
    }

    /// The index of the direct completion edge for this pair.
    pub open spec fn direct_index_of(self, user: int, task: int) -> int {
        choose|i: int|
            0 <= i < self.user_done.len() && (#[trigger] self.user_done[i]).actor == user
                && self.user_done[i].task == task
    }

    /// Whether a group completion edge for this (group, task) pair exists.
    pub open spec fn has_group_done(self, group: int, task: int) -> bool {
        exists|i: int|
            0 <= i < self.group_done.len() && (#[trigger] self.group_done[i]).actor == group
                && self.group_done[i].task == task
    }

    /// The index of the group completion edge for this pair.
    pub open spec fn group_done_index_of(self, group: int, task: int) -> int {
        choose|i: int|
            0 <= i < self.group_done.len() && (#[trigger] self.group_done[i]).actor == group
                && self.group_done[i].task == task
    }

    /// Member rows: identifiers unique and allocated below the counter,
    /// usernames unique.
    pub open spec fn users_wf(self) -> bool {
        &&& forall|i: int, j: int|
            0 <= i < j < self.users.len() ==> #[trigger] self.users[i].id
                != #[trigger] self.users[j].id
        &&& forall|i: int, j: int|
            0 <= i < j < self.users.len() ==> #[trigger] self.users[i].username
                != #[trigger] self.users[j].username
        &&& forall|i: int| 0 <= i < self.users.len() ==> 1 <= (#[trigger] self.users[i]).id
            < self.next_user_id
    }

    /// Group rows: identifiers unique and allocated below the counter,
    /// numbers at least 1 and unique within each course.
    pub open spec fn groups_wf(self) -> bool {
        &&& forall|i: int, j: int|
            0 <= i < j < self.groups.len() ==> #[trigger] self.groups[i].id
                != #[trigger] self.groups[j].id
        &&& forall|i: int, j: int|
            0 <= i < j < self.groups.len() ==> !((#[trigger] self.groups[i]).course
                == (#[trigger] self.groups[j]).course && self.groups[i].number
                == self.groups[j].number)
        &&& forall|i: int| 0 <= i < self.groups.len() ==> 1 <= (#[trigger] self.groups[i]).id
            < self.next_group_id
        &&& forall|i: int| 0 <= i < self.groups.len() ==> 1 <= (#[trigger] self.groups[i]).number
            <= i32::MAX
    }

    /// Membership edges: pairs unique, both endpoints present.
    pub open spec fn group_members_wf(self) -> bool {
        &&& forall|i: int, j: int|
            0 <= i < j < self.group_members.len() ==> !((#[trigger] self.group_members[i]).group
                == (#[trigger] self.group_members[j]).group && self.group_members[i].user
                == self.group_members[j].user)
        &&& forall|i: int|
            0 <= i < self.group_members.len() ==> self.contains_group(
                (#[trigger] self.group_members[i]).group,
            ) && self.contains_user(self.group_members[i].user)
    }

    /// Task rows: identifiers unique and allocated below the counter.
    pub open spec fn tasks_wf(self) -> bool {
        &&& forall|i: int, j: int|
            0 <= i < j < self.tasks.len() ==> #[trigger] self.tasks[i].id
                != #[trigger] self.tasks[j].id
        &&& forall|i: int| 0 <= i < self.tasks.len() ==> 1 <= (#[trigger] self.tasks[i]).id
            < self.next_task_id
    }

    /// Course labels: unique.
    pub open spec fn subjects_wf(self) -> bool {
        forall|i: int, j: int|
            0 <= i < j < self.subjects.len() ==> #[trigger] self.subjects[i]
                != #[trigger] self.subjects[j]
    }

    /// Direct completions: at most one edge per (member, task) pair, the
    /// member exists, and the task exists with the individual mode.
    pub open spec fn user_done_wf(self) -> bool {
        &&& forall|i: int, j: int|
            0 <= i < j < self.user_done.len() ==> !((#[trigger] self.user_done[i]).actor
                == (#[trigger] self.user_done[j]).actor && self.user_done[i].task
                == self.user_done[j].task)
        &&& forall|i: int|
            0 <= i < self.user_done.len() ==> self.contains_user(
                (#[trigger] self.user_done[i]).actor,
            ) && self.contains_task(self.user_done[i].task) && self.task_of(
                self.user_done[i].task,
            ).mode == INDIVIDUAL_MODE
    }

    /// Group completions: at most one edge per (group, task) pair, the
    /// group exists, and the task exists with the group mode.
    pub open spec fn group_done_wf(self) -> bool {
        &&& forall|i: int, j: int|
            0 <= i < j < self.group_done.len() ==> !((#[trigger] self.group_done[i]).actor
                == (#[trigger] self.group_done[j]).actor && self.group_done[i].task
                == self.group_done[j].task)
        &&& forall|i: int|
            0 <= i < self.group_done.len() ==> self.contains_group(
                (#[trigger] self.group_done[i]).actor,
            ) && self.contains_task(self.group_done[i].task) && self.task_of(
                self.group_done[i].task,
            ).mode == GROUP_MODE
    }

    /// The store's full invariant: every constructor establishes it and
    /// every operation preserves it.
    pub open spec fn wf(self) -> bool {
        &&& self.users_wf()
        &&& self.groups_wf()
        &&& self.group_members_wf()
        &&& self.tasks_wf()
        &&& self.subjects_wf()
        &&& self.user_done_wf()
        &&& self.group_done_wf()
        &&& 1 <= self.next_user_id <= i32::MAX
        &&& 1 <= self.next_group_id <= i32::MAX
        &&& 1 <= self.next_task_id <= i32::MAX
    }
}

/// The store itself. All state the engine and the roster service consult
/// lives here; the operations below are its only sanctioned mutators.
pub struct Store {
    pub users: Vec<UserResponse>,
    pub groups: Vec<GroupRow>,
    pub group_members: Vec<GroupMember>,
    pub tasks: Vec<TaskResponse>,
    pub subjects: Vec<String>,
    pub finished_user_tasks: Vec<FinishedTaskResponse>,
    pub finished_group_tasks: Vec<FinishedGroupTask>,
    pub next_user_id: i32,
    pub next_group_id: i32,
    pub next_task_id: i32,
}

impl View for Store {
    type V = StoreModel;

    open spec fn view(&self) -> StoreModel {
        StoreModel {
            users: self.users@.map_values(|u: UserResponse| u@),
            groups: self.groups@.map_values(|g: GroupRow| g@),
            group_members: self.group_members@.map_values(|m: GroupMember| m@),
            tasks: self.tasks@.map_values(|t: TaskResponse| t@),
            subjects: self.subjects@.map_values(|s: String| s@),
            user_done: self.finished_user_tasks@.map_values(|d: FinishedTaskResponse| d@),
            group_done: self.finished_group_tasks@.map_values(|d: FinishedGroupTask| d@),
            next_user_id: self.next_user_id as int,
            next_group_id: self.next_group_id as int,
            next_task_id: self.next_task_id as int,
        }
    }
}

impl Store {
    /// An empty store: no rows, counters at 1.
    pub fn new() -> (r: Store)
        ensures
            r@.wf(),
            r@.users.len() == 0,
            r@.groups.len() == 0,
            r@.group_members.len() == 0,
            r@.tasks.len() == 0,
            r@.subjects.len() == 0,
            r@.user_done.len() == 0,
            r@.group_done.len() == 0,
    {
        Store {
            users: Vec::new(),
            groups: Vec::new(),
            group_members: Vec::new(),
            tasks: Vec::new(),
            subjects: Vec::new(),
            finished_user_tasks: Vec::new(),
            finished_group_tasks: Vec::new(),
            next_user_id: 1,
            next_group_id: 1,
            next_task_id: 1,
        }
    }

    /// The position of the member row with this identifier.
    pub fn user_pos(&self, id: i32) -> (r: Option<usize>)
        ensures
            r matches Some(i) ==> i < self.users.len() && self@.users[i as int].id == id as int
                && self@.contains_user(id as int),
            r is None ==> !self@.contains_user(id as int),
    {
        let n = self.users.len();
        for i in 0..n
            invariant
                n == self.users.len(),
                forall|j: int| 0 <= j < i ==> #[trigger] self@.users[j].id != id as int,
        {
            assert(self@.users[i as int] == self.users@[i as int]@);
            if self.users[i].id == id {
                proof {
                    assert(self@.users[i as int].id == id as int);
                    assert(self@.contains_user(id as int));
                }
                return Some(i);
            }
        }
        None
    }

    /// The position of the member row with this username.
    pub fn username_pos(&self, username: &String) -> (r: Option<usize>)
        ensures
            r matches Some(i) ==> i < self.users.len() && self@.users[i as int].username
                == username@ && self@.contains_username(username@),
            r is None ==> !self@.contains_username(username@),
    {
        let n = self.users.len();
        for i in 0..n
            invariant
                n == self.users.len(),
                forall|j: int| 0 <= j < i ==> #[trigger] self@.users[j].username != username@,
        {
            assert(self@.users[i as int] == self.users@[i as int]@);
            if self.users[i].username == *username {
                proof {
                    assert(self@.users[i as int].username == username@);
                    assert(self@.contains_username(username@));
                }
                return Some(i);
            }
        }
        None
    }

    /// The position of the group row with this identifier.
    pub fn group_pos(&self, id: i32) -> (r: Option<usize>)
        ensures
            r matches Some(i) ==> i < self.groups.len() && self@.groups[i as int].id == id as int
                && self@.contains_group(id as int),
            r is None ==> !self@.contains_group(id as int),
    {
        let n = self.groups.len();
        for i in 0..n
            invariant
                n == self.groups.len(),
                forall|j: int| 0 <= j < i ==> #[trigger] self@.groups[j].id != id as int,
        {
            assert(self@.groups[i as int] == self.groups@[i as int]@);
            if self.groups[i].id == id {
                proof {
                    assert(self@.groups[i as int].id == id as int);
                    assert(self@.contains_group(id as int));
                }
                return Some(i);
            }
        }
        None
    }

    /// The position of the task row with this identifier.
    pub fn task_pos(&self, id: i32) -> (r: Option<usize>)
        ensures
            r matches Some(i) ==> i < self.tasks.len() && self@.tasks[i as int].id == id as int
                && self@.contains_task(id as int),
            r is None ==> !self@.contains_task(id as int),
    {
        let n = self.tasks.len();
        for i in 0..n
            invariant
                n == self.tasks.len(),
                forall|j: int| 0 <= j < i ==> #[trigger] self@.tasks[j].id != id as int,
        {
            assert(self@.tasks[i as int] == self.tasks@[i as int]@);
            if self.tasks[i].task_id == id {
                proof {
                    assert(self@.tasks[i as int].id == id as int);
                    assert(self@.contains_task(id as int));
                }
                return Some(i);
            }
        }
        None
    }

    /// The position of this course label.
    pub fn subject_pos(&self, course: &String) -> (r: Option<usize>)
        ensures
            r matches Some(i) ==> i < self.subjects.len() && self@.subjects[i as int] == course@
                && self@.contains_subject(course@),
            r is None ==> !self@.contains_subject(course@),
    {
        let n = self.subjects.len();
        for i in 0..n
            invariant
                n == self.subjects.len(),
                forall|j: int| 0 <= j < i ==> #[trigger] self@.subjects[j] != course@,
        {
            assert(self@.subjects[i as int] == self.subjects@[i as int]@);
            if self.subjects[i] == *course {
                proof {
                    assert(self@.subjects[i as int] == course@);
                    assert(self@.contains_subject(course@));
                }
                return Some(i);
            }
        }
        None
    }

    /// The position of the membership edge for this (group, member) pair.
    pub fn membership_pos(&self, group_id: i32, user_id: i32) -> (r: Option<usize>)
        ensures
            r matches Some(i) ==> i < self.group_members.len() && self@.group_members[
                i as int
            ].group == group_id as int && self@.group_members[i as int].user == user_id as int
                && self@.has_membership(group_id as int, user_id as int),
            r is None ==> !self@.has_membership(group_id as int, user_id as int),
    {
        let n = self.group_members.len();
        for i in 0..n
            invariant
                n == self.group_members.len(),
                forall|j: int|
                    0 <= j < i ==> !((#[trigger] self@.group_members[j]).group == group_id as int
                        && self@.group_members[j].user == user_id as int),
        {
            assert(self@.group_members[i as int] == self.group_members@[i as int]@);
            if self.group_members[i].group_id == group_id && self.group_members[i].user_id
                == user_id {
                proof {
                    assert(self@.group_members[i as int].group == group_id as int);
                    assert(self@.has_membership(group_id as int, user_id as int));
                }
                return Some(i);
            }
        }
        None
    }

    /// The position of the direct completion edge for this (member, task)
    /// pair.
    pub fn direct_pos(&self, user_id: i32, task_id: i32) -> (r: Option<usize>)
        ensures
            r matches Some(i) ==> i < self.finished_user_tasks.len() && self@.user_done[
                i as int
            ].actor == user_id as int && self@.user_done[i as int].task == task_id as int
                && self@.has_direct(user_id as int, task_id as int),
            r is None ==> !self@.has_direct(user_id as int, task_id as int),
    {
        let n = self.finished_user_tasks.len();
        for i in 0..n
            invariant
                n == self.finished_user_tasks.len(),
                forall|j: int|
                    0 <= j < i ==> !((#[trigger] self@.user_done[j]).actor == user_id as int
                        && self@.user_done[j].task == task_id as int),
        {
            assert(self@.user_done[i as int] == self.finished_user_tasks@[i as int]@);
            if self.finished_user_tasks[i].user_id == user_id && self.finished_user_tasks[i].task_id
                == task_id {
                proof {
                    assert(self@.user_done[i as int].actor == user_id as int);
                    assert(self@.has_direct(user_id as int, task_id as int));
                }
                return Some(i);
            }
        }
        None
    }

    /// The position of the group completion edge for this (group, task)
    /// pair.
    pub fn group_done_pos(&self, group_id: i32, task_id: i32) -> (r: Option<usize>)
        ensures
            r matches Some(i) ==> i < self.finished_group_tasks.len() && self@.group_done[
                i as int
            ].actor == group_id as int && self@.group_done[i as int].task == task_id as int
                && self@.has_group_done(group_id as int, task_id as int),
            r is None ==> !self@.has_group_done(group_id as int, task_id as int),
    {
        let n = self.finished_group_tasks.len();
        for i in 0..n
            invariant
                n == self.finished_group_tasks.len(),
                forall|j: int|
                    0 <= j < i ==> !((#[trigger] self@.group_done[j]).actor == group_id as int
                        && self@.group_done[j].task == task_id as int),
        {
            assert(self@.group_done[i as int] == self.finished_group_tasks@[i as int]@);
            if self.finished_group_tasks[i].group_id == group_id
                && self.finished_group_tasks[i].task_id == task_id {
                proof {
                    assert(self@.group_done[i as int].actor == group_id as int);
                    assert(self@.has_group_done(group_id as int, task_id as int));
                }
                return Some(i);
            }
        }
        None
    }
}

} // verus!

verus! {

impl StoreModel {
    /// The store after registering a course label.
    pub open spec fn with_subject(self, course: Seq<char>) -> StoreModel {
        StoreModel { subjects: self.subjects.push(course), ..self }
    }

    /// The outcome of registering a course label: rejected without an
    /// elevated role, refused on a duplicate label, appended otherwise.
    pub open spec fn spec_create_subject(self, role: Role, course: Seq<char>) -> Result<
        StoreModel,
        ApiError,
    > {
        if !role.spec_has_permission() {
            Err(ApiError::Unauthorized)
        } else if self.contains_subject(course) {
            Err(ApiError::Conflict)
        } else {
            Ok(self.with_subject(course))
        }
    }
}

impl Store {
    /// Every registered course label, in registration order.
    pub fn list_subjects(&self) -> (r: Vec<AllCourseResponse>)
        ensures
            r@.map_values(|c: AllCourseResponse| c.course@) == self@.subjects,
    {
        let mut out: Vec<AllCourseResponse> = Vec::new();
        let n = self.subjects.len();
        for i in 0..n
            invariant
                n == self.subjects.len(),
                out@.map_values(|c: AllCourseResponse| c.course@) =~= self@.subjects.take(i as int),
        {
            assert(self@.subjects[i as int] == self.subjects@[i as int]@);
            out.push(AllCourseResponse { course: self.subjects[i].clone() });
            proof {
                assert(self@.subjects.take(i + 1) =~= self@.subjects.take(i as int).push(
                    self@.subjects[i as int],
                ));
            }
        }
        proof {
            assert(self@.subjects.take(n as int) =~= self@.subjects);
        }
        out
    }

    /// Registers a course label. Only an elevated role may register one; a
    /// duplicate label is refused as a conflict.
    pub fn create_subject(&mut self, role: &Role, data: &CreateCourseRequest) -> (r: Result<
        (),
        ApiError,
    >)
        requires
            old(self)@.wf(),
        ensures
            final(self)@.wf(),
            match r {
                Ok(_) => old(self)@.spec_create_subject(*role, data.course@) == Ok::<
                    StoreModel,
                    ApiError,
                >(final(self)@),
                Err(e) => old(self)@.spec_create_subject(*role, data.course@) == Err::<
                    StoreModel,
                    ApiError,
                >(e) && final(self)@ == old(self)@,
            },
    {
        if !role.has_permission() {
            return Err(ApiError::Unauthorized);
        }
        if self.subject_pos(&data.course).is_some() {
            return Err(ApiError::Conflict);
        }
        self.subjects.push(data.course.clone());
        proof {
            assert(self@ =~= old(self)@.with_subject(data.course@)) by {
                assert(self@.subjects =~= old(self)@.subjects.push(data.course@));
            }
            assert(self@.wf()) by {
                let s0 = old(self)@;
                let s1 = self@;
                assert(forall|i: int|
                    0 <= i < s0.subjects.len() ==> s1.subjects[i] == #[trigger] s0.subjects[i]);
                assert(forall|i: int|
                    0 <= i < s0.subjects.len() ==> #[trigger] s0.subjects[i] != data.course@);
                assert forall|i: int, j: int|
                    0 <= i < j < s1.subjects.len() implies #[trigger] s1.subjects[i]
                    != #[trigger] s1.subjects[j] by {
                    if j < s0.subjects.len() {
                        assert(s0.subjects[i] != s0.subjects[j]);
                    } else {
                        assert(s1.subjects[j] == data.course@);
                    }
                }
                assert(s1.users == s0.users);
                assert(s1.groups == s0.groups);
                assert(s1.group_members == s0.group_members);
                assert(s1.tasks == s0.tasks);
                assert(s1.user_done == s0.user_done);
                assert(s1.group_done == s0.group_done);
            }
        }
        Ok(())
    }
}

} // verus!

verus! {

impl StoreModel {
    /// The index of the member row with this username.
    pub open spec fn username_index_of(self, username: Seq<char>) -> int {
        choose|i: int| 0 <= i < self.users.len() && self.users[i].username == username
    }

    /// The member row with this username.
    pub open spec fn user_by_username(self, username: Seq<char>) -> UserModel {
        self.users[self.username_index_of(username)]
    }

    /// Whether any membership edge or direct completion references this
    /// member.
    pub open spec fn user_referenced(self, id: int) -> bool {
        ||| exists|i: int|
            0 <= i < self.group_members.len() && (#[trigger] self.group_members[i]).user == id
        ||| exists|i: int|
            0 <= i < self.user_done.len() && (#[trigger] self.user_done[i]).actor == id
    }

    /// The store after appending a member row and advancing the counter.
    pub open spec fn with_user(self, u: UserModel) -> StoreModel {
        StoreModel { users: self.users.push(u), next_user_id: self.next_user_id + 1, ..self }
    }

    /// The outcome of creating a member: rejected without an elevated role,
    /// refused on identifier exhaustion or a duplicate username, otherwise
    /// the row is appended with the next identifier and no avatar.
    pub open spec fn spec_create_user(
        self,
        role: Role,
        username: Seq<char>,
        name: Seq<char>,
        role_name: Seq<char>,
    ) -> Result<(StoreModel, UserModel), ApiError> {
        if !role.spec_has_permission() {
            Err(ApiError::Unauthorized)
        } else if self.next_user_id >= i32::MAX {
            Err(ApiError::Internal)
        } else if self.contains_username(username) {
            Err(ApiError::Conflict)
        } else {
            let u = UserModel {
                id: self.next_user_id,
                username: username,
                name: name,
                role: role_name,
                profile_picture: None,
            };
            Ok((self.with_user(u), u))
        }
    }

    /// The outcome of updating a member's name and avatar, keyed by
    /// username. Permitted to an elevated role or to the member itself;
    /// a username that matches no row changes nothing and still succeeds.
    pub open spec fn spec_update_user(
        self,
        actor_role: Role,
        actor_id: int,
        target_id: int,
        username: Seq<char>,
        name: Seq<char>,
        avatar: Option<Seq<char>>,
    ) -> Result<StoreModel, ApiError> {
        if !(actor_role.spec_has_permission() || actor_id == target_id) {
            Err(ApiError::Unauthorized)
        } else if !self.contains_username(username) {
            Ok(self)
        } else {
            let k = self.username_index_of(username);
            let row = UserModel { name: name, profile_picture: avatar, ..self.users[k] };
            Ok(StoreModel { users: self.users.update(k, row), ..self })
        }
    }

    /// The outcome of deleting a member, keyed by username: rejected
    /// without an elevated role, a missing row is not found, and a row
    /// still referenced by a membership or a completion is refused rather
    /// than orphaning its dependents.
    pub open spec fn spec_delete_user(self, role: Role, username: Seq<char>) -> Result<
        StoreModel,
        ApiError,
    > {
        if !role.spec_has_permission() {
            Err(ApiError::Unauthorized)
        } else if !self.contains_username(username) {
            Err(ApiError::NotFound)
        } else if self.user_referenced(self.user_by_username(username).id) {
            Err(ApiError::Unprocessable)
        } else {
            Ok(StoreModel { users: self.users.remove(self.username_index_of(username)), ..self })
        }
    }
}

impl Store {
    /// The position of any membership edge referencing this member.
    fn membership_user_pos(&self, user_id: i32) -> (r: Option<usize>)
        ensures
            r is Some ==> exists|i: int|
                0 <= i < self@.group_members.len() && (#[trigger] self@.group_members[i]).user
                    == user_id as int,
            r is None ==> forall|i: int|
                0 <= i < self@.group_members.len() ==> (#[trigger] self@.group_members[i]).user
                    != user_id as int,
    {
        let n = self.group_members.len();
        for i in 0..n
            invariant
                n == self.group_members.len(),
                forall|j: int|
                    0 <= j < i ==> (#[trigger] self@.group_members[j]).user != user_id as int,
        {
            assert(self@.group_members[i as int] == self.group_members@[i as int]@);
            if self.group_members[i].user_id == user_id {
                proof {
                    assert(self@.group_members[i as int].user == user_id as int);
                }
                return Some(i);
            }
        }
        None
    }

    /// The position of any direct completion referencing this member.
    fn direct_user_pos(&self, user_id: i32) -> (r: Option<usize>)
        ensures
            r is Some ==> exists|i: int|
                0 <= i < self@.user_done.len() && (#[trigger] self@.user_done[i]).actor
                    == user_id as int,
            r is None ==> forall|i: int|
                0 <= i < self@.user_done.len() ==> (#[trigger] self@.user_done[i]).actor
                    != user_id as int,
    {
        let n = self.finished_user_tasks.len();
        for i in 0..n
            invariant
                n == self.finished_user_tasks.len(),
                forall|j: int| 0 <= j < i ==> (#[trigger] self@.user_done[j]).actor != user_id as int,
        {
            assert(self@.user_done[i as int] == self.finished_user_tasks@[i as int]@);
            if self.finished_user_tasks[i].user_id == user_id {
                proof {
                    assert(self@.user_done[i as int].actor == user_id as int);
                }
                return Some(i);
            }
        }
        None
    }

    /// Every member row, in creation order. Any role of the closed set may
    /// read the member list.
    pub fn list_users(&self, role: &Role) -> (r: Result<Vec<UserResponse>, ApiError>)
        ensures
            match r {
                Ok(v) => role.spec_valid_permission() && v@.map_values(|u: UserResponse| u@)
                    == self@.users,
                Err(e) => !role.spec_valid_permission() && e == ApiError::Unauthorized,
            },
    {
        if !role.valid_permission() {
            return Err(ApiError::Unauthorized);
        }
        let mut out: Vec<UserResponse> = Vec::new();
        let n = self.users.len();
        for i in 0..n
            invariant
                n == self.users.len(),
                out@.map_values(|u: UserResponse| u@) =~= self@.users.take(i as int),
        {
            assert(self@.users[i as int] == self.users@[i as int]@);
            out.push(self.users[i].duplicate());
            proof {
                assert(self@.users.take(i + 1) =~= self@.users.take(i as int).push(
                    self@.users[i as int],
                ));
            }
        }
        proof {
            assert(self@.users.take(n as int) =~= self@.users);
        }
        Ok(out)
    }

    /// The member row with this username, or not found.
    pub fn find_user(&self, username: &String) -> (r: Result<UserResponse, ApiError>)
        requires
            self@.wf(),
        ensures
            match r {
                Ok(u) => self@.contains_username(username@) && u@ == self@.user_by_username(
                    username@,
                ),
                Err(e) => !self@.contains_username(username@) && e == ApiError::NotFound,
            },
    {
        match self.username_pos(username) {
            Some(i) => {
                let u = self.users[i].duplicate();
                proof {
                    let s = self@;
                    let k = s.username_index_of(username@);
                    assert(s.users[k].username == username@);
                    if k != i as int {
                        assert(s.users[k].username != s.users[i as int].username);
                    }
                }
                Ok(u)
            },
            None => Err(ApiError::NotFound),
        }
    }

    /// Creates a member. Only an elevated role may create one; the username
    /// must be new; the identifier is allocated from the monotonic counter.
    /// The caller's credential store keeps the password; the row never
    /// holds it.
    pub fn create_user(&mut self, role: &Role, data: &CreateUserRequest) -> (r: Result<
        UserResponse,
        ApiError,
    >)
        requires
            old(self)@.wf(),
        ensures
            final(self)@.wf(),
            match r {
                Ok(u) => old(self)@.spec_create_user(
                    *role,
                    data.username@,
                    data.name@,
                    data.role.spec_text(),
                ) == Ok::<(StoreModel, UserModel), ApiError>((final(self)@, u@)),
                Err(e) => old(self)@.spec_create_user(
                    *role,
                    data.username@,
                    data.name@,
                    data.role.spec_text(),
                ) == Err::<(StoreModel, UserModel), ApiError>(e) && final(self)@ == old(self)@,
            },
    {
        if !role.has_permission() {
            return Err(ApiError::Unauthorized);
        }
        if self.next_user_id >= i32::MAX {
            return Err(ApiError::Internal);
        }
        if self.username_pos(&data.username).is_some() {
            return Err(ApiError::Conflict);
        }
        let row = UserResponse {
            id: self.next_user_id,
            username: data.username.clone(),
            name: data.name.clone(),
            role: data.role.text(),
            profile_picture: None,
        };
        let out = row.duplicate();
        self.users.push(row);
        self.next_user_id = self.next_user_id + 1;
        proof {
            let s0 = old(self)@;
            let s1 = self@;
            let u = UserModel {
                id: s0.next_user_id,
                username: data.username@,
                name: data.name@,
                role: data.role.spec_text(),
                profile_picture: None,
            };
            assert(s1 =~= s0.with_user(u)) by {
                assert(s1.users =~= s0.users.push(u));
            }
            assert(s1.groups == s0.groups);
            assert(s1.group_members == s0.group_members);
            assert(s1.tasks == s0.tasks);
            assert(s1.subjects == s0.subjects);
            assert(s1.user_done == s0.user_done);
            assert(s1.group_done == s0.group_done);
            assert(forall|i: int|
                0 <= i < s0.users.len() ==> s1.users[i] == #[trigger] s0.users[i]);
            assert(s1.users[s0.users.len() as int] == u);
            assert(forall|i: int|
                0 <= i < s0.users.len() ==> #[trigger] s0.users[i].username != data.username@);
            assert(s1.users_wf()) by {
                assert forall|i: int, j: int| 0 <= i < j < s1.users.len() implies
                    #[trigger] s1.users[i].id != #[trigger] s1.users[j].id && s1.users[i].username
                    != s1.users[j].username by {
                    if j < s0.users.len() {
                        assert(s0.users[i].id != s0.users[j].id);
                        assert(s0.users[i].username != s0.users[j].username);
                    }
                }
            }
            assert forall|id: int| s0.contains_user(id) implies s1.contains_user(id) by {
                let w = s0.user_index_of(id);
                assert(s1.users[w].id == id);
            }
            assert(s1.wf());
        }
        Ok(out)
    }
}

} // verus!

verus! {

impl Store {
    /// Updates a member's display name and avatar, keyed by username.
    /// Permitted to an elevated role or to the member acting on itself; a
    /// username that matches no row changes nothing and still succeeds.
    pub fn update_data_user(&mut self, actor_role: &Role, actor_id: i32, data: &UpdateUserRequest)
        -> (r: Result<(), ApiError>)
        requires
            old(self)@.wf(),
        ensures
            final(self)@.wf(),
            match r {
                Ok(_) => old(self)@.spec_update_user(
                    *actor_role,
                    actor_id as int,
                    data.user_id as int,
                    data.username@,
                    data.name@,
                    crate::users::opt_text_view(data.profile_picture),
                ) == Ok::<StoreModel, ApiError>(final(self)@),
                Err(e) => old(self)@.spec_update_user(
                    *actor_role,
                    actor_id as int,
                    data.user_id as int,
                    data.username@,
                    data.name@,
                    crate::users::opt_text_view(data.profile_picture),
                ) == Err::<StoreModel, ApiError>(e) && final(self)@ == old(self)@,
            },
    {
        if !(actor_role.has_permission() || actor_id == data.user_id) {
            return Err(ApiError::Unauthorized);
        }
        let k = match self.username_pos(&data.username) {
            Some(k) => k,
            None => {
                return Ok(());
            },
        };
        proof {
            let s = self@;
            let k0 = s.username_index_of(data.username@);
            assert(s.users[k0].username == data.username@);
            if k0 != k as int {
                assert(s.users[k0].username != s.users[k as int].username);
            }
        }
        let row = UserResponse {
            id: self.users[k].id,
            username: self.users[k].username.clone(),
            name: data.name.clone(),
            role: self.users[k].role.clone(),
            profile_picture: crate::users::clone_opt_text(&data.profile_picture),
        };
        self.users.set(k, row);
        proof {
            let s0 = old(self)@;
            let s1 = self@;
            let ki = s0.username_index_of(data.username@);
            let urow = UserModel {
                name: data.name@,
                profile_picture: crate::users::opt_text_view(data.profile_picture),
                ..s0.users[ki]
            };
            assert(s1 =~= StoreModel { users: s0.users.update(ki, urow), ..s0 }) by {
                assert(s1.users =~= s0.users.update(ki, urow));
            }
            assert(s1.groups == s0.groups);
            assert(s1.group_members == s0.group_members);
            assert(s1.tasks == s0.tasks);
            assert(s1.subjects == s0.subjects);
            assert(s1.user_done == s0.user_done);
            assert(s1.group_done == s0.group_done);
            assert(forall|x: int|
                0 <= x < s0.users.len() && x != ki ==> s1.users[x] == #[trigger] s0.users[x]);
            assert(s1.users[ki].id == s0.users[ki].id && s1.users[ki].username == s0.users[
                ki
            ].username);
            assert(s1.users_wf()) by {
                assert forall|i: int, j: int| 0 <= i < j < s1.users.len() implies
                    #[trigger] s1.users[i].id != #[trigger] s1.users[j].id && s1.users[i].username
                    != s1.users[j].username by {
                    assert(s0.users[i].id != s0.users[j].id);
                    assert(s0.users[i].username != s0.users[j].username);
                }
            }
            assert forall|id: int| s0.contains_user(id) implies s1.contains_user(id) by {
                let w = s0.user_index_of(id);
                assert(s1.users[w].id == id);
            }
            assert(s1.wf());
        }
        Ok(())
    }

    /// Deletes a member, keyed by username. Only an elevated role may
    /// delete; a missing row is not found; a member still referenced by a
    /// membership or a completion is refused rather than orphaning rows.
    pub fn delete_user(&mut self, role: &Role, username: &String) -> (r: Result<(), ApiError>)
        requires
            old(self)@.wf(),
        ensures
            final(self)@.wf(),
            match r {
                Ok(_) => old(self)@.spec_delete_user(*role, username@) == Ok::<
                    StoreModel,
                    ApiError,
                >(final(self)@),
                Err(e) => old(self)@.spec_delete_user(*role, username@) == Err::<
                    StoreModel,
                    ApiError,
                >(e) && final(self)@ == old(self)@,
            },
    {
        if !role.has_permission() {
            return Err(ApiError::Unauthorized);
        }
        let k = match self.username_pos(username) {
            Some(k) => k,
            None => {
                return Err(ApiError::NotFound);
            },
        };
        proof {
            let s = self@;
            let k0 = s.username_index_of(username@);
            assert(s.users[k0].username == username@);
            if k0 != k as int {
                assert(s.users[k0].username != s.users[k as int].username);
            }
        }
        let uid = self.users[k].id;
        if self.membership_user_pos(uid).is_some() || self.direct_user_pos(uid).is_some() {
            proof {
                assert(self@.user_referenced(uid as int));
            }
            return Err(ApiError::Unprocessable);
        }
        self.users.remove(k);
        proof {
            let s0 = old(self)@;
            let s1 = self@;
            let ki = s0.username_index_of(username@);
            assert(!s0.user_referenced(uid as int));
            assert(s1 =~= StoreModel { users: s0.users.remove(ki), ..s0 }) by {
                assert(s1.users =~= s0.users.remove(ki));
            }
            assert(s1.groups == s0.groups);
            assert(s1.group_members == s0.group_members);
            assert(s1.tasks == s0.tasks);
            assert(s1.subjects == s0.subjects);
            assert(s1.user_done == s0.user_done);
            assert(s1.group_done == s0.group_done);
            assert(s0.users[ki].id == uid as int);
            assert(s1.users.len() == s0.users.len() - 1);
            assert(forall|x: int| 0 <= x < ki ==> s1.users[x] == #[trigger] s0.users[x]);
            assert(forall|x: int|
                ki <= x < s1.users.len() ==> #[trigger] s1.users[x] == s0.users[x + 1]);
            assert(s1.users_wf()) by {
                assert forall|i: int, j: int| 0 <= i < j < s1.users.len() implies
                    #[trigger] s1.users[i].id != #[trigger] s1.users[j].id && s1.users[i].username
                    != s1.users[j].username by {
                    let i0: int = if i < ki { i } else { i + 1 };
                    let j0: int = if j < ki { j } else { j + 1 };
                    assert(s1.users[i] == s0.users[i0]);
                    assert(s1.users[j] == s0.users[j0]);
                    assert(s0.users[i0].id != s0.users[j0].id);
                    assert(s0.users[i0].username != s0.users[j0].username);
                }
            }
            assert forall|id: int| s0.contains_user(id) && id != uid as int implies
                s1.contains_user(id) by {
                let w = s0.user_index_of(id);
                assert(s0.users[w].id == id);
                if w < ki {
                    assert(s1.users[w].id == id);
                } else {
                    assert(w != ki);
                    assert(s1.users[w - 1] == s0.users[w]);
                    assert(s1.users[w - 1].id == id);
                }
            }
            assert(s1.group_members_wf()) by {
                assert forall|i: int| 0 <= i < s1.group_members.len() implies s1.contains_group(
                    (#[trigger] s1.group_members[i]).group,
                ) && s1.contains_user(s1.group_members[i].user) by {
                    assert(s0.group_members[i].user != uid as int);
                    assert(s0.contains_user(s0.group_members[i].user));
                }
            }
            assert(s1.user_done_wf()) by {
                assert forall|i: int| 0 <= i < s1.user_done.len() implies s1.contains_user(
                    (#[trigger] s1.user_done[i]).actor,
                ) && s1.contains_task(s1.user_done[i].task) && s1.task_of(s1.user_done[i].task).mode
                    == INDIVIDUAL_MODE by {
                    assert(s0.user_done[i].actor != uid as int);
                    assert(s0.contains_user(s0.user_done[i].actor));
                    assert(s0.contains_task(s0.user_done[i].task));
                }
            }
            assert(s1.wf());
        }
        Ok(())
    }
}

} // verus!

verus! {

impl StoreModel {
    /// Whether any completion edge, direct or by group, references this
    /// task.
    pub open spec fn task_referenced(self, id: int) -> bool {
        ||| exists|i: int|
            0 <= i < self.user_done.len() && (#[trigger] self.user_done[i]).task == id
        ||| exists|i: int|
            0 <= i < self.group_done.len() && (#[trigger] self.group_done[i]).task == id
    }

    /// The store after appending a task row and advancing the counter.
    pub open spec fn with_task(self, t: TaskModel) -> StoreModel {
        StoreModel { tasks: self.tasks.push(t), next_task_id: self.next_task_id + 1, ..self }
    }

    /// The outcome of creating a task: rejected without an elevated role,
    /// a mode outside the closed set is malformed, and the identifier is
    /// allocated from the monotonic counter. The mode is fixed here for
    /// the row's whole life.
    pub open spec fn spec_create_task(
        self,
        role: Role,
        course: Seq<char>,
        title: Seq<char>,
        description: Seq<char>,
        mode: int,
        due_date: int,
    ) -> Result<(StoreModel, TaskModel), ApiError> {
        if !role.spec_has_permission() {
            Err(ApiError::Unauthorized)
        } else if mode != INDIVIDUAL_MODE && mode != GROUP_MODE {
            Err(ApiError::BadRequest)
        } else if self.next_task_id >= i32::MAX {
            Err(ApiError::Internal)
        } else {
            let t = TaskModel {
                id: self.next_task_id,
                course: course,
                title: title,
                description: description,
                mode: mode,
                due_date: due_date,
            };
            Ok((self.with_task(t), t))
        }
    }

    /// The outcome of updating a task's title and description. The mode,
    /// course and due date are immutable; an identifier that matches no
    /// row changes nothing and still succeeds.
    pub open spec fn spec_update_task(
        self,
        role: Role,
        task_id: int,
        title: Seq<char>,
        description: Seq<char>,
    ) -> Result<StoreModel, ApiError> {
        if !role.spec_has_permission() {
            Err(ApiError::Unauthorized)
        } else if !self.contains_task(task_id) {
            Ok(self)
        } else {
            let k = self.task_index_of(task_id);
            let row = TaskModel { title: title, description: description, ..self.tasks[k] };
            Ok(StoreModel { tasks: self.tasks.update(k, row), ..self })
        }
    }

    /// The outcome of deleting a task: rejected without an elevated role, a
    /// missing row is not found, and a task with recorded completions is
    /// refused rather than orphaning them.
    pub open spec fn spec_delete_task(self, role: Role, task_id: int) -> Result<
        StoreModel,
        ApiError,
    > {
        if !role.spec_has_permission() {
            Err(ApiError::Unauthorized)
        } else if !self.contains_task(task_id) {
            Err(ApiError::NotFound)
        } else if self.task_referenced(task_id) {
            Err(ApiError::Unprocessable)
        } else {
            Ok(StoreModel { tasks: self.tasks.remove(self.task_index_of(task_id)), ..self })
        }
    }
}

impl Store {
    /// The position of any direct completion referencing the named task.
    fn direct_task_pos(&self, task_id: i32) -> (r: Option<usize>)
        ensures
            r is Some ==> exists|i: int|
                0 <= i < self@.user_done.len() && (#[trigger] self@.user_done[i]).task
                    == task_id as int,
            r is None ==> forall|i: int|
                0 <= i < self@.user_done.len() ==> (#[trigger] self@.user_done[i]).task
                    != task_id as int,
    {
        let n = self.finished_user_tasks.len();
        for i in 0..n
            invariant
                n == self.finished_user_tasks.len(),
                forall|j: int| 0 <= j < i ==> (#[trigger] self@.user_done[j]).task != task_id as int,
        {
            assert(self@.user_done[i as int] == self.finished_user_tasks@[i as int]@);
            if self.finished_user_tasks[i].task_id == task_id {
                proof {
                    assert(self@.user_done[i as int].task == task_id as int);
                }
                return Some(i);
            }
        }
        None
    }

    /// The position of any group completion referencing the named task.
    fn group_done_task_pos(&self, task_id: i32) -> (r: Option<usize>)
        ensures
            r is Some ==> exists|i: int|
                0 <= i < self@.group_done.len() && (#[trigger] self@.group_done[i]).task
                    == task_id as int,
            r is None ==> forall|i: int|
                0 <= i < self@.group_done.len() ==> (#[trigger] self@.group_done[i]).task
                    != task_id as int,
    {
        let n = self.finished_group_tasks.len();
        for i in 0..n
            invariant
                n == self.finished_group_tasks.len(),
                forall|j: int|
                    0 <= j < i ==> (#[trigger] self@.group_done[j]).task != task_id as int,
        {
            assert(self@.group_done[i as int] == self.finished_group_tasks@[i as int]@);
            if self.finished_group_tasks[i].task_id == task_id {
                proof {
                    assert(self@.group_done[i as int].task == task_id as int);
                }
                return Some(i);
            }
        }
        None
    }

    /// Every task row, in creation order.
    pub fn list_tasks(&self) -> (r: Vec<TaskResponse>)
        ensures
            r@.map_values(|t: TaskResponse| t@) == self@.tasks,
    {
        let mut out: Vec<TaskResponse> = Vec::new();
        let n = self.tasks.len();
        for i in 0..n
            invariant
                n == self.tasks.len(),
                out@.map_values(|t: TaskResponse| t@) =~= self@.tasks.take(i as int),
        {
            assert(self@.tasks[i as int] == self.tasks@[i as int]@);
            out.push(self.tasks[i].duplicate());
            proof {
                assert(self@.tasks.take(i + 1) =~= self@.tasks.take(i as int).push(
                    self@.tasks[i as int],
                ));
            }
        }
        proof {
            assert(self@.tasks.take(n as int) =~= self@.tasks);
        }
        out
    }

    /// The task row with this identifier, or not found.
    pub fn get_task(&self, id: i32) -> (r: Result<TaskResponse, ApiError>)
        requires
            self@.wf(),
        ensures
            match r {
                Ok(t) => self@.contains_task(id as int) && t@ == self@.task_of(id as int),
                Err(e) => !self@.contains_task(id as int) && e == ApiError::NotFound,
            },
    {
        match self.task_pos(id) {
            Some(i) => {
                let t = self.tasks[i].duplicate();
                proof {
                    let s = self@;
                    let k = s.task_index_of(id as int);
                    assert(s.tasks[k].id == id as int);
                    if k != i as int {
                        assert(s.tasks[k].id != s.tasks[i as int].id);
                    }
                }
                Ok(t)
            },
            None => Err(ApiError::NotFound),
        }
    }

    /// Creates a task. Only an elevated role may create one; the mode must
    /// be of the closed set and is immutable afterwards.
    pub fn create_task(&mut self, role: &Role, data: &CreateTaskRequest) -> (r: Result<
        TaskResponse,
        ApiError,
    >)
        requires
            old(self)@.wf(),
        ensures
            final(self)@.wf(),
            match r {
                Ok(t) => old(self)@.spec_create_task(
                    *role,
                    data.course@,
                    data.title@,
                    data.description@,
                    data.task_type as int,
                    data.due_date as int,
                ) == Ok::<(StoreModel, TaskModel), ApiError>((final(self)@, t@)),
                Err(e) => old(self)@.spec_create_task(
                    *role,
                    data.course@,
                    data.title@,
                    data.description@,
                    data.task_type as int,
                    data.due_date as int,
                ) == Err::<(StoreModel, TaskModel), ApiError>(e) && final(self)@ == old(self)@,
            },
    {
        if !role.has_permission() {
            return Err(ApiError::Unauthorized);
        }
        if TaskType::try_from(data.task_type).is_err() {
            return Err(ApiError::BadRequest);
        }
        if self.next_task_id >= i32::MAX {
            return Err(ApiError::Internal);
        }
        let row = TaskResponse {
            task_id: self.next_task_id,
            course: data.course.clone(),
            title: data.title.clone(),
            description: data.description.clone(),
            task_type: data.task_type,
            due_date: data.due_date,
        };
        let out = row.duplicate();
        self.tasks.push(row);
        self.next_task_id = self.next_task_id + 1;
        proof {
            let s0 = old(self)@;
            let s1 = self@;
            let t = TaskModel {
                id: s0.next_task_id,
                course: data.course@,
                title: data.title@,
                description: data.description@,
                mode: data.task_type as int,
                due_date: data.due_date as int,
            };
            assert(s1 =~= s0.with_task(t)) by {
                assert(s1.tasks =~= s0.tasks.push(t));
            }
            assert(s1.users == s0.users);
            assert(s1.groups == s0.groups);
            assert(s1.group_members == s0.group_members);
            assert(s1.subjects == s0.subjects);
            assert(s1.user_done == s0.user_done);
            assert(s1.group_done == s0.group_done);
            assert(forall|i: int|
                0 <= i < s0.tasks.len() ==> s1.tasks[i] == #[trigger] s0.tasks[i]);
            assert(s1.tasks[s0.tasks.len() as int] == t);
            assert(s1.tasks_wf()) by {
                assert forall|i: int, j: int| 0 <= i < j < s1.tasks.len() implies
                    #[trigger] s1.tasks[i].id != #[trigger] s1.tasks[j].id by {
                    if j < s0.tasks.len() {
                        assert(s0.tasks[i].id != s0.tasks[j].id);
                    }
                }
            }
            assert forall|id: int| s0.contains_task(id) implies s1.contains_task(id)
                && s1.task_of(id) == s0.task_of(id) by {
                let w2 = s0.task_index_of(id);
                assert(s1.tasks[w2].id == id);
                assert(s1.contains_task(id));
                let w3 = s1.task_index_of(id);
                assert(s1.tasks[w3].id == id);
                if w3 < s0.tasks.len() {
                    assert(s1.tasks[w3] == s0.tasks[w3]);
                    if w3 != w2 {
                        assert(s0.tasks[w3].id != s0.tasks[w2].id);
                    }
                } else {
                    assert(s1.tasks[w3] == t);
                    assert(t.id == s0.next_task_id);
                    assert(s0.tasks[w2].id < s0.next_task_id);
                }
            }
            assert(s1.user_done_wf()) by {
                assert forall|i: int| 0 <= i < s1.user_done.len() implies s1.contains_user(
                    (#[trigger] s1.user_done[i]).actor,
                ) && s1.contains_task(s1.user_done[i].task) && s1.task_of(s1.user_done[i].task).mode
                    == INDIVIDUAL_MODE by {
                    assert(s0.contains_task(s0.user_done[i].task));
                }
            }
            assert(s1.group_done_wf()) by {
                assert forall|i: int| 0 <= i < s1.group_done.len() implies s1.contains_group(
                    (#[trigger] s1.group_done[i]).actor,
                ) && s1.contains_task(s1.group_done[i].task) && s1.task_of(
                    s1.group_done[i].task,
                ).mode == GROUP_MODE by {
                    assert(s0.contains_task(s0.group_done[i].task));
                }
            }
            assert(s1.wf());
        }
        Ok(out)
    }

    /// Updates a task's title and description. Only an elevated role may
    /// update; an identifier that matches no row changes nothing and still
    /// succeeds. The mode never changes, so no completion is orphaned.
    pub fn update_task(&mut self, role: &Role, data: &UpdateTaskRequest) -> (r: Result<
        (),
        ApiError,
    >)
        requires
            old(self)@.wf(),
        ensures
            final(self)@.wf(),
            match r {
                Ok(_) => old(self)@.spec_update_task(
                    *role,
                    data.task_id as int,
                    data.title@,
                    data.description@,
                ) == Ok::<StoreModel, ApiError>(final(self)@),
                Err(e) => old(self)@.spec_update_task(
                    *role,
                    data.task_id as int,
                    data.title@,
                    data.description@,
                ) == Err::<StoreModel, ApiError>(e) && final(self)@ == old(self)@,
            },
    {
        if !role.has_permission() {
            return Err(ApiError::Unauthorized);
        }
        let k = match self.task_pos(data.task_id) {
            Some(k) => k,
            None => {
                return Ok(());
            },
        };
        proof {
            let s = self@;
            let k0 = s.task_index_of(data.task_id as int);
            assert(s.tasks[k0].id == data.task_id as int);
            if k0 != k as int {
                assert(s.tasks[k0].id != s.tasks[k as int].id);
            }
        }
        let row = TaskResponse {
            task_id: self.tasks[k].task_id,
            course: self.tasks[k].course.clone(),
            title: data.title.clone(),
            description: data.description.clone(),
            task_type: self.tasks[k].task_type,
            due_date: self.tasks[k].due_date,
        };
        self.tasks.set(k, row);
        proof {
            let s0 = old(self)@;
            let s1 = self@;
            let ki = s0.task_index_of(data.task_id as int);
            let trow = TaskModel { title: data.title@, description: data.description@, ..s0.tasks[ki] };
            assert(s1 =~= StoreModel { tasks: s0.tasks.update(ki, trow), ..s0 }) by {
                assert(s1.tasks =~= s0.tasks.update(ki, trow));
            }
            assert(s1.users == s0.users);
            assert(s1.groups == s0.groups);
            assert(s1.group_members == s0.group_members);
            assert(s1.subjects == s0.subjects);
            assert(s1.user_done == s0.user_done);
            assert(s1.group_done == s0.group_done);
            assert(forall|x: int|
                0 <= x < s0.tasks.len() && x != ki ==> s1.tasks[x] == #[trigger] s0.tasks[x]);
            assert(s1.tasks[ki].id == s0.tasks[ki].id && s1.tasks[ki].mode == s0.tasks[ki].mode);
            assert(s1.tasks_wf()) by {
                assert forall|i: int, j: int| 0 <= i < j < s1.tasks.len() implies
                    #[trigger] s1.tasks[i].id != #[trigger] s1.tasks[j].id by {
                    assert(s0.tasks[i].id != s0.tasks[j].id);
                }
            }
            assert forall|id: int| s0.contains_task(id) implies s1.contains_task(id)
                && s1.task_of(id).mode == s0.task_of(id).mode by {
                let w = s0.task_index_of(id);
                assert(s1.tasks[w].id == id);
                assert(s1.contains_task(id));
                let w1 = s1.task_index_of(id);
                assert(s1.tasks[w1].id == id);
                if w1 != w {
                    assert(s0.tasks[w1].id != s0.tasks[w].id);
                    assert(s1.tasks[w1].id == s0.tasks[w1].id);
                }
            }
            assert(s1.user_done_wf()) by {
                assert forall|i: int| 0 <= i < s1.user_done.len() implies s1.contains_user(
                    (#[trigger] s1.user_done[i]).actor,
                ) && s1.contains_task(s1.user_done[i].task) && s1.task_of(s1.user_done[i].task).mode
                    == INDIVIDUAL_MODE by {
                    assert(s0.contains_task(s0.user_done[i].task));
                }
            }
            assert(s1.group_done_wf()) by {
                assert forall|i: int| 0 <= i < s1.group_done.len() implies s1.contains_group(
                    (#[trigger] s1.group_done[i]).actor,
                ) && s1.contains_task(s1.group_done[i].task) && s1.task_of(
                    s1.group_done[i].task,
                ).mode == GROUP_MODE by {
                    assert(s0.contains_task(s0.group_done[i].task));
                }
            }
            assert(s1.wf());
        }
        Ok(())
    }

    /// Deletes a task. Only an elevated role may delete; a missing row is
    /// not found; a task with recorded completions is refused rather than
    /// orphaning them.
    pub fn delete_task(&mut self, role: &Role, id: i32) -> (r: Result<(), ApiError>)
        requires
            old(self)@.wf(),
        ensures
            final(self)@.wf(),
            match r {
                Ok(_) => old(self)@.spec_delete_task(*role, id as int) == Ok::<
                    StoreModel,
                    ApiError,
                >(final(self)@),
                Err(e) => old(self)@.spec_delete_task(*role, id as int) == Err::<
                    StoreModel,
                    ApiError,
                >(e) && final(self)@ == old(self)@,
            },
    {
        if !role.has_permission() {
            return Err(ApiError::Unauthorized);
        }
        let k = match self.task_pos(id) {
            Some(k) => k,
            None => {
                return Err(ApiError::NotFound);
            },
        };
        proof {
            let s = self@;
            let k0 = s.task_index_of(id as int);
            assert(s.tasks[k0].id == id as int);
            if k0 != k as int {
                assert(s.tasks[k0].id != s.tasks[k as int].id);
            }
        }
        if self.direct_task_pos(id).is_some() || self.group_done_task_pos(id).is_some() {
            proof {
                assert(self@.task_referenced(id as int));
            }
            return Err(ApiError::Unprocessable);
        }
        self.tasks.remove(k);
        proof {
            let s0 = old(self)@;
            let s1 = self@;
            let ki = s0.task_index_of(id as int);
            assert(!s0.task_referenced(id as int));
            assert(s1 =~= StoreModel { tasks: s0.tasks.remove(ki), ..s0 }) by {
                assert(s1.tasks =~= s0.tasks.remove(ki));
            }
            assert(s1.users == s0.users);
            assert(s1.groups == s0.groups);
            assert(s1.group_members == s0.group_members);
            assert(s1.subjects == s0.subjects);
            assert(s1.user_done == s0.user_done);
            assert(s1.group_done == s0.group_done);
            assert(s0.tasks[ki].id == id as int);
            assert(s1.tasks.len() == s0.tasks.len() - 1);
            assert(forall|x: int| 0 <= x < ki ==> s1.tasks[x] == #[trigger] s0.tasks[x]);
            assert(forall|x: int|
                ki <= x < s1.tasks.len() ==> #[trigger] s1.tasks[x] == s0.tasks[x + 1]);
            assert(s1.tasks_wf()) by {
                assert forall|i: int, j: int| 0 <= i < j < s1.tasks.len() implies
                    #[trigger] s1.tasks[i].id != #[trigger] s1.tasks[j].id by {
                    let i0: int = if i < ki { i } else { i + 1 };
                    let j0: int = if j < ki { j } else { j + 1 };
                    assert(s1.tasks[i] == s0.tasks[i0]);
                    assert(s1.tasks[j] == s0.tasks[j0]);
                    assert(s0.tasks[i0].id != s0.tasks[j0].id);
                }
            }
            assert forall|t: int| s0.contains_task(t) && t != id as int implies s1.contains_task(t)
                && s1.task_of(t) == s0.task_of(t) by {
                let w = s0.task_index_of(t);
                assert(s0.tasks[w].id == t);
                let wn: int = if w < ki { w } else { w - 1 };
                assert(w != ki);
                assert(s1.tasks[wn] == s0.tasks[w]);
                assert(s1.tasks[wn].id == t);
                assert(s1.contains_task(t));
                let w1 = s1.task_index_of(t);
                assert(s1.tasks[w1].id == t);
                let w1o: int = if w1 < ki { w1 } else { w1 + 1 };
                assert(s1.tasks[w1] == s0.tasks[w1o]);
                if w1o != w {
                    assert(s0.tasks[w1o].id != s0.tasks[w].id);
                }
            }
            assert(s1.user_done_wf()) by {
                assert forall|i: int| 0 <= i < s1.user_done.len() implies s1.contains_user(
                    (#[trigger] s1.user_done[i]).actor,
                ) && s1.contains_task(s1.user_done[i].task) && s1.task_of(s1.user_done[i].task).mode
                    == INDIVIDUAL_MODE by {
                    assert(s0.user_done[i].task != id as int);
                    assert(s0.contains_task(s0.user_done[i].task));
                }
            }
            assert(s1.group_done_wf()) by {
                assert forall|i: int| 0 <= i < s1.group_done.len() implies s1.contains_group(
                    (#[trigger] s1.group_done[i]).actor,
                ) && s1.contains_task(s1.group_done[i].task) && s1.task_of(
                    s1.group_done[i].task,
                ).mode == GROUP_MODE by {
                    assert(s0.group_done[i].task != id as int);
                    assert(s0.contains_task(s0.group_done[i].task));
                }
            }
            assert(s1.wf());
        }
        Ok(())
    }
}

} // verus!
