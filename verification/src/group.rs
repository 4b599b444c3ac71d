//! Groups, group membership edges, and the hydrated group views that the
//! roster service returns.

use vstd::prelude::*;
use crate::users::{UserModel, opt_text_view};

verus! {

/// A request to create a group for one course.
pub struct CreateGroupRequest {
    pub course: String,
}

/// The freshly created group: its identifier, its allocated per-course
/// number, and its (empty) member list.
pub struct CreateGroupResponse {
    pub id: i32,
    pub group_number: i32,
    pub course: String,
    pub members: Vec<UserDetail>,
}

/// A request to add a list of members to a group.
pub struct AddMembersRequest {
    pub users: Vec<i32>,
}

/// A request to remove one member from a group.
pub struct RemoveMemberRequest {
    pub user_id: i32,
}

/// The mathematical value of one group row.
pub struct GroupModel {
    pub id: int,
    pub number: int,
    pub course: Seq<char>,
    pub created_at: int,
}

/// One stored group row. The creation time is a plain timestamp,
/// seconds since the epoch.
pub struct GroupRow {
    pub id: i32,
    pub group_number: i32,
    pub course: String,
    pub created_at: i64,
}

impl View for GroupRow {
    type V = GroupModel;

    open spec fn view(&self) -> GroupModel {
        GroupModel {
            id: self.id as int,
            number: self.group_number as int,
            course: self.course@,
            created_at: self.created_at as int,
        }
    }
}

impl GroupRow {
    /// Copies this row.
    pub fn duplicate(&self) -> (r: GroupRow)
        ensures
            r@ == self@,
    {
        GroupRow {
            id: self.id,
            group_number: self.group_number,
            course: self.course.clone(),
            created_at: self.created_at,
        }
    }
}

/// One member as a group roster carries it.
pub struct UserDetail {
    pub id: i32,
    pub username: String,
    pub name: String,
    pub role: String,
    pub profile_picture: Option<String>,
}

impl View for UserDetail {
    type V = UserModel;

    open spec fn view(&self) -> UserModel {
        UserModel {
            id: self.id as int,
            username: self.username@,
            name: self.name@,
            role: self.role@,
            profile_picture: opt_text_view(self.profile_picture),
        }
    }
}

/// The mathematical value of one membership edge.
pub struct MembershipModel {
    pub group: int,
    pub user: int,
}

/// One membership edge: the member belongs to the group.
pub struct GroupMember {
    pub group_id: i32,
    pub user_id: i32,
}

impl View for GroupMember {
    type V = MembershipModel;

    open spec fn view(&self) -> MembershipModel {
        MembershipModel { group: self.group_id as int, user: self.user_id as int }
    }
}

/// The mathematical value of one hydrated group.
pub struct GroupHydratedModel {
    pub id: int,
    pub number: int,
    pub course: Seq<char>,
    pub members: Seq<UserModel>,
    pub created_at: int,
}

/// One group hydrated with its current member roster. A group with no
/// members carries an empty roster; it is never omitted.
pub struct GroupResponse {
    pub id: i32,
    pub group_number: i32,
    pub course: String,
    pub members: Vec<UserDetail>,
    pub created_at: i64,
}

impl View for GroupResponse {
    type V = GroupHydratedModel;

    open spec fn view(&self) -> GroupHydratedModel {
        GroupHydratedModel {
            id: self.id as int,
            number: self.group_number as int,
            course: self.course@,
            members: self.members@.map_values(|u: UserDetail| u@),
            created_at: self.created_at as int,
        }
    }
}

} // verus!
