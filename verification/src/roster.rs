//! The group roster service: creates groups with per-course sequential
//! numbering, mutates memberships, and lists groups hydrated with their
//! member rosters.

use vstd::prelude::*;
use crate::group::{
    AddMembersRequest, CreateGroupRequest, CreateGroupResponse, GroupMember, GroupModel,
    GroupHydratedModel, GroupResponse, GroupRow, MembershipModel, UserDetail,
};
use crate::status::ApiError;
use crate::store::{Store, StoreModel};
use crate::users::{Role, UserModel};

verus! {

/// The largest group number already allocated for a course, 0 where the
/// course has no group yet.
pub open spec fn max_number_in(groups: Seq<GroupModel>, course: Seq<char>) -> int
    decreases groups.len(),
{
    if groups.len() == 0 {
        0
    } else {
        let m = max_number_in(groups.drop_last(), course);
        if groups.last().course == course && groups.last().number > m {
            groups.last().number
        } else {
            m
        }
    }
}

/// The allocated maximum is never negative and bounds every number already
/// used by the course.
pub proof fn lemma_max_number_bounds(groups: Seq<GroupModel>, course: Seq<char>)
    ensures
        0 <= max_number_in(groups, course),
        forall|i: int|
            0 <= i < groups.len() && (#[trigger] groups[i]).course == course ==> groups[i].number
                <= max_number_in(groups, course),
    decreases groups.len(),
{
    if groups.len() > 0 {
        lemma_max_number_bounds(groups.drop_last(), course);
        assert forall|i: int|
            0 <= i < groups.len() && (#[trigger] groups[i]).course == course implies groups[
            i
        ].number <= max_number_in(groups, course) by {
            if i < groups.len() - 1 {
                assert(groups.drop_last()[i] == groups[i]);
            }
        }
    }
}

/// Appending a group changes a course's maximum only if the new group
/// belongs to that course and exceeds it.
pub proof fn lemma_max_number_push(groups: Seq<GroupModel>, g: GroupModel, course: Seq<char>)
    ensures
        max_number_in(groups.push(g), course) == if g.course == course && g.number > max_number_in(
            groups,
            course,
        ) {
            g.number
        } else {
            max_number_in(groups, course)
        },
{
    assert(groups.push(g).drop_last() =~= groups);
    assert(groups.push(g).last() == g);
}

impl StoreModel {
    /// The store after appending a group row and advancing the counter.
    pub open spec fn with_group(self, g: GroupModel) -> StoreModel {
        StoreModel { groups: self.groups.push(g), next_group_id: self.next_group_id + 1, ..self }
    }

    /// The outcome of creating a group: rejected without an elevated role,
    /// refused on identifier or number exhaustion, otherwise one atomic
    /// allocation appends the row with number `max(existing for course) + 1`
    /// (so 1 where the course has none) and an empty roster.
    pub open spec fn spec_create_group(self, role: Role, course: Seq<char>, created_at: int)
        -> Result<(StoreModel, GroupModel), ApiError> {
        if !role.spec_has_permission() {
            Err(ApiError::Unauthorized)
        } else if self.next_group_id >= i32::MAX || max_number_in(self.groups, course)
            >= i32::MAX {
            Err(ApiError::Internal)
        } else {
            let g = GroupModel {
                id: self.next_group_id,
                number: max_number_in(self.groups, course) + 1,
                course: course,
                created_at: created_at,
            };
            Ok((self.with_group(g), g))
        }
    }
}

impl Store {
    /// The largest group number already allocated for this course.
    pub fn max_group_number(&self, course: &String) -> (m: i32)
        requires
            self@.wf(),
        ensures
            m as int == max_number_in(self@.groups, course@),
            0 <= m,
    {
        let mut m: i32 = 0;
        let n = self.groups.len();
        for i in 0..n
            invariant
                n == self.groups.len(),
                self@.wf(),
                0 <= m,
                m as int == max_number_in(self@.groups.take(i as int), course@),
        {
            assert(self@.groups[i as int] == self.groups@[i as int]@);
            proof {
                assert(self@.groups.take(i + 1).drop_last() =~= self@.groups.take(i as int));
                assert(self@.groups.take(i + 1).last() == self@.groups[i as int]);
            }
            if self.groups[i].course == *course && self.groups[i].group_number > m {
                m = self.groups[i].group_number;
            }
        }
        proof {
            assert(self@.groups.take(n as int) =~= self@.groups);
        }
        m
    }

    /// Creates a group for a course. Only an elevated role may create one.
    /// The number allocation and the row append happen in this one
    /// indivisible operation, so numbers for a course are sequential from
    /// 1 with no duplicates; the creation time is the caller's timestamp.
    pub fn create_group(&mut self, role: &Role, request: &CreateGroupRequest, created_at: i64)
        -> (r: Result<CreateGroupResponse, ApiError>)
        requires
            old(self)@.wf(),
        ensures
            final(self)@.wf(),
            match r {
                Ok(resp) => old(self)@.spec_create_group(*role, request.course@, created_at as int)
                    == Ok::<(StoreModel, GroupModel), ApiError>(
                    (
                        final(self)@,
                        GroupModel {
                            id: resp.id as int,
                            number: resp.group_number as int,
                            course: resp.course@,
                            created_at: created_at as int,
                        },
                    ),
                ) && resp.members@.len() == 0,
                Err(e) => old(self)@.spec_create_group(*role, request.course@, created_at as int)
                    == Err::<(StoreModel, GroupModel), ApiError>(e) && final(self)@ == old(self)@,
            },
    {
        if !role.has_permission() {
            return Err(ApiError::Unauthorized);
        }
        let last = self.max_group_number(&request.course);
        if self.next_group_id >= i32::MAX || last >= i32::MAX {
            return Err(ApiError::Internal);
        }
        let number = last + 1;
        let row = GroupRow {
            id: self.next_group_id,
            group_number: number,
            course: request.course.clone(),
            created_at: created_at,
        };
        let resp = CreateGroupResponse {
            id: row.id,
            group_number: row.group_number,
            course: row.course.clone(),
            members: Vec::new(),
        };
        self.groups.push(row);
        self.next_group_id = self.next_group_id + 1;
        proof {
            let s0 = old(self)@;
            let s1 = self@;
            let g = GroupModel {
                id: s0.next_group_id,
                number: max_number_in(s0.groups, request.course@) + 1,
                course: request.course@,
                created_at: created_at as int,
            };
            assert(s1 =~= s0.with_group(g)) by {
                assert(s1.groups =~= s0.groups.push(g));
            }
            assert(s1.users == s0.users);
            assert(s1.group_members == s0.group_members);
            assert(s1.tasks == s0.tasks);
            assert(s1.subjects == s0.subjects);
            assert(s1.user_done == s0.user_done);
            assert(s1.group_done == s0.group_done);
            assert(forall|i: int|
                0 <= i < s0.groups.len() ==> s1.groups[i] == #[trigger] s0.groups[i]);
            assert(s1.groups[s0.groups.len() as int] == g);
            lemma_max_number_bounds(s0.groups, request.course@);
            assert(s1.groups_wf()) by {
                assert forall|i: int, j: int| 0 <= i < j < s1.groups.len() implies
                    #[trigger] s1.groups[i].id != #[trigger] s1.groups[j].id && !(s1.groups[
                    i
                ].course == s1.groups[j].course && s1.groups[i].number == s1.groups[j].number) by {
                    if j < s0.groups.len() {
                        assert(s0.groups[i].id != s0.groups[j].id);
                        assert(!(s0.groups[i].course == s0.groups[j].course && s0.groups[i].number
                            == s0.groups[j].number));
                    } else {
                        assert(s1.groups[j] == g);
                        if s1.groups[i].course == g.course {
                            assert(s1.groups[i].number <= max_number_in(
                                s0.groups,
                                request.course@,
                            ));
                        }
                    }
                }
            }
            assert forall|id: int| s0.contains_group(id) implies s1.contains_group(id) by {
                let w = s0.group_index_of(id);
                assert(s1.groups[w].id == id);
            }
            assert(s1.wf());
        }
        Ok(resp)
    }
}

} // verus!

verus! {

impl StoreModel {
    /// The membership edges that a bulk add request would append.
    pub open spec fn member_edges(group: int, us: Seq<int>) -> Seq<MembershipModel> {
        us.map_values(|u: int| MembershipModel { group: group, user: u })
    }

    /// The outcome of adding members to a group, one unit of failure for
    /// the whole request: rejected without an elevated role, an empty list
    /// is malformed, a missing group or member is a referential violation,
    /// and a member already in the group — or listed twice — is a
    /// conflict; otherwise every edge is appended.
    pub open spec fn spec_add_members(self, role: Role, group: int, us: Seq<int>) -> Result<
        StoreModel,
        ApiError,
    > {
        if !role.spec_has_permission() {
            Err(ApiError::Unauthorized)
        } else if us.len() == 0 {
            Err(ApiError::BadRequest)
        } else if !self.contains_group(group) {
            Err(ApiError::Unprocessable)
        } else if exists|i: int| 0 <= i < us.len() && !self.contains_user(#[trigger] us[i]) {
            Err(ApiError::Unprocessable)
        } else if (exists|i: int|
            0 <= i < us.len() && self.has_membership(group, #[trigger] us[i])) || (exists|i: int, j: int|
            0 <= i < j < us.len() && #[trigger] us[i] == #[trigger] us[j]) {
            Err(ApiError::Conflict)
        } else {
            Ok(
                StoreModel {
                    group_members: self.group_members + Self::member_edges(group, us),
                    ..self
                },
            )
        }
    }
}

impl Store {
    /// Adds members to a group in one all-or-nothing unit. Only an
    /// elevated role may mutate rosters; a member already in the group, or
    /// named twice, fails the whole request as a conflict, so no duplicate
    /// edge is ever stored.
    #[verifier::loop_isolation(false)]
    pub fn add_member_to_group(&mut self, role: &Role, group_id: i32, request: &AddMembersRequest)
        -> (r: Result<(), ApiError>)
        requires
            old(self)@.wf(),
        ensures
            final(self)@.wf(),
            match r {
                Ok(_) => old(self)@.spec_add_members(
                    *role,
                    group_id as int,
                    request.users@.map_values(|x: i32| x as int),
                ) == Ok::<StoreModel, ApiError>(final(self)@),
                Err(e) => old(self)@.spec_add_members(
                    *role,
                    group_id as int,
                    request.users@.map_values(|x: i32| x as int),
                ) == Err::<StoreModel, ApiError>(e) && final(self)@ == old(self)@,
            },
    {
        let ghost us = request.users@.map_values(|x: i32| x as int);
        if !role.has_permission() {
            return Err(ApiError::Unauthorized);
        }
        let n = request.users.len();
        if n == 0 {
            return Err(ApiError::BadRequest);
        }
        if self.group_pos(group_id).is_none() {
            return Err(ApiError::Unprocessable);
        }
        for i in 0..n
            invariant
                forall|j: int| 0 <= j < i ==> self@.contains_user(#[trigger] us[j]),
        {
            assert(us[i as int] == request.users@[i as int] as int);
            if self.user_pos(request.users[i]).is_none() {
                return Err(ApiError::Unprocessable);
            }
        }
        for i in 0..n
            invariant
                forall|j: int|
                    0 <= j < i ==> !self@.has_membership(group_id as int, #[trigger] us[j]),
                forall|j: int, k: int| 0 <= j < k < i ==> #[trigger] us[j] != #[trigger] us[k],
        {
            assert(us[i as int] == request.users@[i as int] as int);
            if self.membership_pos(group_id, request.users[i]).is_some() {
                return Err(ApiError::Conflict);
            }
            for j in 0..i
                invariant
                    forall|k: int| 0 <= k < j ==> #[trigger] us[k] != us[i as int],
            {
                assert(us[j as int] == request.users@[j as int] as int);
                if request.users[j] == request.users[i] {
                    return Err(ApiError::Conflict);
                }
            }
        }
        let ghost edges = StoreModel::member_edges(group_id as int, us);
        let ghost s0 = old(self)@;
        for i in 0..n
            invariant
                self.group_members@.len() == s0.group_members.len() + i,
                self@.group_members =~= s0.group_members + edges.take(i as int),
                self@.users == s0.users,
                self@.groups == s0.groups,
                self@.tasks == s0.tasks,
                self@.subjects == s0.subjects,
                self@.user_done == s0.user_done,
                self@.group_done == s0.group_done,
                self@.next_user_id == s0.next_user_id,
                self@.next_group_id == s0.next_group_id,
                self@.next_task_id == s0.next_task_id,
        {
            let edge = GroupMember { group_id: group_id, user_id: request.users[i] };
            proof {
                assert(edge@ == edges[i as int]);
                assert(edges.take(i + 1) =~= edges.take(i as int).push(edges[i as int]));
            }
            let ghost before = self@.group_members;
            self.group_members.push(edge);
            proof {
                assert(self@.group_members =~= before.push(edges[i as int]));
                assert(before.push(edges[i as int]) =~= s0.group_members + edges.take(i + 1));
            }
        }
        proof {
            let s1 = self@;
            assert(edges.take(n as int) =~= edges);
            assert(s1.group_members =~= s0.group_members + edges);
            assert(s1 =~= StoreModel { group_members: s0.group_members + edges, ..s0 });
            let m0 = s0.group_members.len() as int;
            assert(forall|x: int| 0 <= x < m0 ==> s1.group_members[x] == #[trigger] s0.group_members[x]);
            assert(forall|x: int|
                m0 <= x < s1.group_members.len() ==> #[trigger] s1.group_members[x] == edges[x - m0]);
            assert(forall|x: int|
                0 <= x < us.len() ==> (#[trigger] edges[x]).group == group_id as int && edges[x].user
                    == us[x]);
            assert(s1.group_members_wf()) by {
                assert forall|i: int, j: int| 0 <= i < j < s1.group_members.len() implies !((
                #[trigger] s1.group_members[i]).group == (#[trigger] s1.group_members[j]).group
                    && s1.group_members[i].user == s1.group_members[j].user) by {
                    if j < m0 {
                        assert(!(s0.group_members[i].group == s0.group_members[j].group
                            && s0.group_members[i].user == s0.group_members[j].user));
                    } else if i >= m0 {
                        assert(us[i - m0] != us[j - m0]);
                    } else {
                        if s1.group_members[i].group == group_id as int && s1.group_members[i].user
                            == us[j - m0] {
                            assert(s0.has_membership(group_id as int, us[j - m0]));
                        }
                    }
                }
                assert forall|i: int| 0 <= i < s1.group_members.len() implies s1.contains_group(
                    (#[trigger] s1.group_members[i]).group,
                ) && s1.contains_user(s1.group_members[i].user) by {
                    if i < m0 {
                        assert(s0.contains_group(s0.group_members[i].group));
                        assert(s0.contains_user(s0.group_members[i].user));
                    } else {
                        assert(s0.contains_user(us[i - m0]));
                        assert(s0.contains_group(group_id as int));
                    }
                }
            }
            assert(s1.wf());
        }
        Ok(())
    }
}

} // verus!

verus! {

/// The membership edges of one group.
pub open spec fn edge_in_group(gid: int) -> spec_fn(MembershipModel) -> bool {
    |e: MembershipModel| e.group == gid
}

impl StoreModel {
    /// The index of the membership edge for this (group, member) pair.
    pub open spec fn membership_index_of(self, group: int, user: int) -> int {
        choose|i: int|
            0 <= i < self.group_members.len() && (#[trigger] self.group_members[i]).group == group
                && self.group_members[i].user == user
    }

    /// Whether any membership edge or group completion references this
    /// group.
    pub open spec fn group_referenced(self, id: int) -> bool {
        ||| exists|i: int|
            0 <= i < self.group_members.len() && (#[trigger] self.group_members[i]).group == id
        ||| exists|i: int|
            0 <= i < self.group_done.len() && (#[trigger] self.group_done[i]).actor == id
    }

    /// The member rows resolved from membership edges.
    pub open spec fn resolve_member_fn(self) -> spec_fn(MembershipModel) -> UserModel {
        |e: MembershipModel| self.user_of(e.user)
    }

    /// The roster of one group: the member row of every membership edge of
    /// the group, in edge insertion order.
    pub open spec fn roster_of(self, gid: int) -> Seq<UserModel> {
        self.group_members.filter(edge_in_group(gid)).map_values(self.resolve_member_fn())
    }

    /// One group hydrated with its roster.
    pub open spec fn hydrated(self, g: GroupModel) -> GroupHydratedModel {
        GroupHydratedModel {
            id: g.id,
            number: g.number,
            course: g.course,
            members: self.roster_of(g.id),
            created_at: g.created_at,
        }
    }

    /// Hydration as a function value.
    pub open spec fn hydrate_fn(self) -> spec_fn(GroupModel) -> GroupHydratedModel {
        |g: GroupModel| self.hydrated(g)
    }

    /// Every group hydrated with its roster, in creation order; a group
    /// with no members appears with an empty roster.
    pub open spec fn spec_list_groups(self) -> Seq<GroupHydratedModel> {
        self.groups.map_values(self.hydrate_fn())
    }

    /// The outcome of removing one membership edge: rejected without an
    /// elevated role; an absent edge is not found, with no side effect.
    pub open spec fn spec_remove_member(self, role: Role, group: int, user: int) -> Result<
        StoreModel,
        ApiError,
    > {
        if !role.spec_has_permission() {
            Err(ApiError::Unauthorized)
        } else if !self.has_membership(group, user) {
            Err(ApiError::NotFound)
        } else {
            Ok(
                StoreModel {
                    group_members: self.group_members.remove(self.membership_index_of(group, user)),
                    ..self
                },
            )
        }
    }

    /// The outcome of deleting a group: rejected without an elevated role,
    /// a missing row is not found, and a group with members or recorded
    /// completions is refused rather than orphaning them.
    pub open spec fn spec_delete_group(self, role: Role, id: int) -> Result<StoreModel, ApiError> {
        if !role.spec_has_permission() {
            Err(ApiError::Unauthorized)
        } else if !self.contains_group(id) {
            Err(ApiError::NotFound)
        } else if self.group_referenced(id) {
            Err(ApiError::Unprocessable)
        } else {
            Ok(StoreModel { groups: self.groups.remove(self.group_index_of(id)), ..self })
        }
    }
}

impl Store {
    /// Removes one membership edge. Only an elevated role may mutate
    /// rosters; an edge that does not exist is not found and nothing
    /// changes.
    pub fn remove_member_from_group(&mut self, role: &Role, group_id: i32, user_id: i32) -> (r:
        Result<(), ApiError>)
        requires
            old(self)@.wf(),
        ensures
            final(self)@.wf(),
            match r {
                Ok(_) => old(self)@.spec_remove_member(*role, group_id as int, user_id as int)
                    == Ok::<StoreModel, ApiError>(final(self)@),
                Err(e) => old(self)@.spec_remove_member(*role, group_id as int, user_id as int)
                    == Err::<StoreModel, ApiError>(e) && final(self)@ == old(self)@,
            },
    {
        if !role.has_permission() {
            return Err(ApiError::Unauthorized);
        }
        let k = match self.membership_pos(group_id, user_id) {
            Some(k) => k,
            None => {
                return Err(ApiError::NotFound);
            },
        };
        proof {
            let s = self@;
            let k0 = s.membership_index_of(group_id as int, user_id as int);
            assert(s.group_members[k0].group == group_id as int && s.group_members[k0].user
                == user_id as int);
            if k0 != k as int {
                assert(!(s.group_members[k0].group == s.group_members[k as int].group
                    && s.group_members[k0].user == s.group_members[k as int].user));
            }
        }
        self.group_members.remove(k);
        proof {
            let s0 = old(self)@;
            let s1 = self@;
            let ki = s0.membership_index_of(group_id as int, user_id as int);
            assert(s1 =~= StoreModel { group_members: s0.group_members.remove(ki), ..s0 }) by {
                assert(s1.group_members =~= s0.group_members.remove(ki));
            }
            assert(s1.users == s0.users);
            assert(s1.groups == s0.groups);
            assert(s1.tasks == s0.tasks);
            assert(s1.subjects == s0.subjects);
            assert(s1.user_done == s0.user_done);
            assert(s1.group_done == s0.group_done);
            assert(s1.group_members.len() == s0.group_members.len() - 1);
            assert(forall|x: int|
                0 <= x < ki ==> s1.group_members[x] == #[trigger] s0.group_members[x]);
            assert(forall|x: int|
                ki <= x < s1.group_members.len() ==> #[trigger] s1.group_members[x]
                    == s0.group_members[x + 1]);
            assert(s1.group_members_wf()) by {
                assert forall|i: int, j: int| 0 <= i < j < s1.group_members.len() implies !((
                #[trigger] s1.group_members[i]).group == (#[trigger] s1.group_members[j]).group
                    && s1.group_members[i].user == s1.group_members[j].user) by {
                    let i0: int = if i < ki { i } else { i + 1 };
                    let j0: int = if j < ki { j } else { j + 1 };
                    assert(s1.group_members[i] == s0.group_members[i0]);
                    assert(s1.group_members[j] == s0.group_members[j0]);
                    assert(!(s0.group_members[i0].group == s0.group_members[j0].group
                        && s0.group_members[i0].user == s0.group_members[j0].user));
                }
                assert forall|i: int| 0 <= i < s1.group_members.len() implies s1.contains_group(
                    (#[trigger] s1.group_members[i]).group,
                ) && s1.contains_user(s1.group_members[i].user) by {
                    let i0: int = if i < ki { i } else { i + 1 };
                    assert(s1.group_members[i] == s0.group_members[i0]);
                    assert(s0.contains_group(s0.group_members[i0].group));
                    assert(s0.contains_user(s0.group_members[i0].user));
                }
            }
            assert(s1.wf());
        }
        Ok(())
    }

    /// The position of any membership edge referencing this group.
    fn membership_group_pos(&self, group_id: i32) -> (r: Option<usize>)
        ensures
            r is Some ==> exists|i: int|
                0 <= i < self@.group_members.len() && (#[trigger] self@.group_members[i]).group
                    == group_id as int,
            r is None ==> forall|i: int|
                0 <= i < self@.group_members.len() ==> (#[trigger] self@.group_members[i]).group
                    != group_id as int,
    {
        let n = self.group_members.len();
        for i in 0..n
            invariant
                n == self.group_members.len(),
                forall|j: int|
                    0 <= j < i ==> (#[trigger] self@.group_members[j]).group != group_id as int,
        {
            assert(self@.group_members[i as int] == self.group_members@[i as int]@);
            if self.group_members[i].group_id == group_id {
                proof {
                    assert(self@.group_members[i as int].group == group_id as int);
                }
                return Some(i);
            }
        }
        None
    }

    /// The position of any group completion referencing this group.
    fn group_done_group_pos(&self, group_id: i32) -> (r: Option<usize>)
        ensures
            r is Some ==> exists|i: int|
                0 <= i < self@.group_done.len() && (#[trigger] self@.group_done[i]).actor
                    == group_id as int,
            r is None ==> forall|i: int|
                0 <= i < self@.group_done.len() ==> (#[trigger] self@.group_done[i]).actor
                    != group_id as int,
    {
        let n = self.finished_group_tasks.len();
        for i in 0..n
            invariant
                n == self.finished_group_tasks.len(),
                forall|j: int|
                    0 <= j < i ==> (#[trigger] self@.group_done[j]).actor != group_id as int,
        {
            assert(self@.group_done[i as int] == self.finished_group_tasks@[i as int]@);
            if self.finished_group_tasks[i].group_id == group_id {
                proof {
                    assert(self@.group_done[i as int].actor == group_id as int);
                }
                return Some(i);
            }
        }
        None
    }

    /// Deletes a group. Only an elevated role may delete; a missing row is
    /// not found; a group that still has members or recorded completions
    /// is refused rather than orphaning its dependents.
    pub fn delete_group(&mut self, role: &Role, group_id: i32) -> (r: Result<(), ApiError>)
        requires
            old(self)@.wf(),
        ensures
            final(self)@.wf(),
            match r {
                Ok(_) => old(self)@.spec_delete_group(*role, group_id as int) == Ok::<
                    StoreModel,
                    ApiError,
                >(final(self)@),
                Err(e) => old(self)@.spec_delete_group(*role, group_id as int) == Err::<
                    StoreModel,
                    ApiError,
                >(e) && final(self)@ == old(self)@,
            },
    {
        if !role.has_permission() {
            return Err(ApiError::Unauthorized);
        }
        let k = match self.group_pos(group_id) {
            Some(k) => k,
            None => {
                return Err(ApiError::NotFound);
            },
        };
        proof {
            let s = self@;
            let k0 = s.group_index_of(group_id as int);
            assert(s.groups[k0].id == group_id as int);
            if k0 != k as int {
                assert(s.groups[k0].id != s.groups[k as int].id);
            }
        }
        if self.membership_group_pos(group_id).is_some() || self.group_done_group_pos(
            group_id,
        ).is_some() {
            proof {
                assert(self@.group_referenced(group_id as int));
            }
            return Err(ApiError::Unprocessable);
        }
        self.groups.remove(k);
        proof {
            let s0 = old(self)@;
            let s1 = self@;
            let ki = s0.group_index_of(group_id as int);
            assert(!s0.group_referenced(group_id as int));
            assert(s1 =~= StoreModel { groups: s0.groups.remove(ki), ..s0 }) by {
                assert(s1.groups =~= s0.groups.remove(ki));
            }
            assert(s1.users == s0.users);
            assert(s1.group_members == s0.group_members);
            assert(s1.tasks == s0.tasks);
            assert(s1.subjects == s0.subjects);
            assert(s1.user_done == s0.user_done);
            assert(s1.group_done == s0.group_done);
            assert(s0.groups[ki].id == group_id as int);
            assert(s1.groups.len() == s0.groups.len() - 1);
            assert(forall|x: int| 0 <= x < ki ==> s1.groups[x] == #[trigger] s0.groups[x]);
            assert(forall|x: int|
                ki <= x < s1.groups.len() ==> #[trigger] s1.groups[x] == s0.groups[x + 1]);
            assert(s1.groups_wf()) by {
                assert forall|i: int, j: int| 0 <= i < j < s1.groups.len() implies
                    #[trigger] s1.groups[i].id != #[trigger] s1.groups[j].id && !(s1.groups[
                    i
                ].course == s1.groups[j].course && s1.groups[i].number == s1.groups[j].number) by {
                    let i0: int = if i < ki { i } else { i + 1 };
                    let j0: int = if j < ki { j } else { j + 1 };
                    assert(s1.groups[i] == s0.groups[i0]);
                    assert(s1.groups[j] == s0.groups[j0]);
                    assert(s0.groups[i0].id != s0.groups[j0].id);
                    assert(!(s0.groups[i0].course == s0.groups[j0].course && s0.groups[i0].number
                        == s0.groups[j0].number));
                }
            }
            assert forall|id: int| s0.contains_group(id) && id != group_id as int implies
                s1.contains_group(id) by {
                let w = s0.group_index_of(id);
                assert(s0.groups[w].id == id);
                if w < ki {
                    assert(s1.groups[w].id == id);
                } else {
                    assert(w != ki);
                    assert(s1.groups[w - 1] == s0.groups[w]);
                    assert(s1.groups[w - 1].id == id);
                }
            }
            assert(s1.group_members_wf()) by {
                assert forall|i: int| 0 <= i < s1.group_members.len() implies s1.contains_group(
                    (#[trigger] s1.group_members[i]).group,
                ) && s1.contains_user(s1.group_members[i].user) by {
                    assert(s0.group_members[i].group != group_id as int);
                    assert(s0.contains_group(s0.group_members[i].group));
                    assert(s0.contains_user(s0.group_members[i].user));
                }
            }
            assert(s1.group_done_wf()) by {
                assert forall|i: int| 0 <= i < s1.group_done.len() implies s1.contains_group(
                    (#[trigger] s1.group_done[i]).actor,
                ) && s1.contains_task(s1.group_done[i].task) && s1.task_of(
                    s1.group_done[i].task,
                ).mode == crate::tasks::GROUP_MODE by {
                    assert(s0.group_done[i].actor != group_id as int);
                    assert(s0.contains_group(s0.group_done[i].actor));
                    assert(s0.contains_task(s0.group_done[i].task));
                }
            }
            assert(s1.wf());
        }
        Ok(())
    }
}

} // verus!

verus! {

impl Store {
    /// The roster of one group: the member row behind each membership edge
    /// of the group, in edge insertion order.
    pub fn group_roster(&self, group_id: i32) -> (r: Vec<UserDetail>)
        requires
            self@.wf(),
        ensures
            r@.map_values(|u: UserDetail| u@) == self@.roster_of(group_id as int),
    {
        let mut out: Vec<UserDetail> = Vec::new();
        let n = self.group_members.len();
        let ghost pred = edge_in_group(group_id as int);
        let ghost f = self@.resolve_member_fn();
        for i in 0..n
            invariant
                n == self.group_members.len(),
                self@.wf(),
                out@.map_values(|u: UserDetail| u@) =~= self@.group_members.take(i as int).filter(
                    edge_in_group(group_id as int),
                ).map_values(self@.resolve_member_fn()),
        {
            assert(self@.group_members[i as int] == self.group_members@[i as int]@);
            let ghost e = self@.group_members[i as int];
            let ghost taken = self@.group_members.take(i as int);
            if self.group_members[i].group_id == group_id {
                proof {
                    assert(self@.contains_user(e.user));
                }
                let k = match self.user_pos(self.group_members[i].user_id) {
                    Some(k) => k,
                    None => {
                        proof {
                            assert(false);
                        }
                        return out;
                    },
                };
                let u = &self.users[k];
                out.push(
                    UserDetail {
                        id: u.id,
                        username: u.username.clone(),
                        name: u.name.clone(),
                        role: u.role.clone(),
                        profile_picture: crate::users::clone_opt_text(&u.profile_picture),
                    },
                );
                proof {
                    let s = self@;
                    let w = s.user_index_of(e.user);
                    assert(s.users[w].id == e.user);
                    if w != k as int {
                        assert(s.users[w].id != s.users[k as int].id);
                    }
                    assert(s.users[k as int] == s.user_of(e.user));
                    assert(out@.last()@ == s.resolve_member_fn()(e));
                }
            }
            proof {
                let s = self@;
                assert(s.group_members.take(i + 1) =~= taken + seq![e]);
                crate::seq_facts::lemma_filter_push(taken, e, edge_in_group(group_id as int));
                if edge_in_group(group_id as int)(e) {
                    crate::seq_facts::lemma_map_values_add(
                        taken.filter(edge_in_group(group_id as int)),
                        seq![e],
                        s.resolve_member_fn(),
                    );
                    crate::seq_facts::lemma_map_values_singleton(e, s.resolve_member_fn());
                    assert(out@.map_values(|u: UserDetail| u@) =~= s.group_members.take(
                        i + 1,
                    ).filter(edge_in_group(group_id as int)).map_values(s.resolve_member_fn()));
                } else {
                    assert(taken.filter(edge_in_group(group_id as int)) + Seq::<
                        MembershipModel,
                    >::empty() =~= taken.filter(edge_in_group(group_id as int)));
                    assert(out@.map_values(|u: UserDetail| u@) =~= s.group_members.take(
                        i + 1,
                    ).filter(edge_in_group(group_id as int)).map_values(s.resolve_member_fn()));
                }
            }
        }
        proof {
            assert(self@.group_members.take(n as int) =~= self@.group_members);
        }
        out
    }

    /// Every group hydrated with its current roster, in creation order.
    /// A group with no members is still returned, with an empty roster.
    pub fn get_all_groups(&self) -> (r: Vec<GroupResponse>)
        requires
            self@.wf(),
        ensures
            r@.map_values(|g: GroupResponse| g@) == self@.spec_list_groups(),
    {
        let mut out: Vec<GroupResponse> = Vec::new();
        let n = self.groups.len();
        for i in 0..n
            invariant
                n == self.groups.len(),
                self@.wf(),
                out@.map_values(|g: GroupResponse| g@) =~= self@.groups.take(i as int).map_values(
                    self@.hydrate_fn(),
                ),
        {
            assert(self@.groups[i as int] == self.groups@[i as int]@);
            let ghost g = self@.groups[i as int];
            let row = &self.groups[i];
            let members = self.group_roster(row.id);
            let ghost prev = out@;
            out.push(
                GroupResponse {
                    id: row.id,
                    group_number: row.group_number,
                    course: row.course.clone(),
                    members: members,
                    created_at: row.created_at,
                },
            );
            proof {
                let s = self@;
                assert(out@.last()@ == s.hydrate_fn()(g)) by {
                    assert(out@.last()@.members =~= s.roster_of(g.id));
                }
                assert(out@.map_values(|gr: GroupResponse| gr@) =~= prev.map_values(
                    |gr: GroupResponse| gr@,
                ).push(out@.last()@));
                assert(s.groups.take(i + 1) =~= s.groups.take(i as int).push(g));
                assert(s.groups.take(i + 1).map_values(s.hydrate_fn()) =~= s.groups.take(
                    i as int,
                ).map_values(s.hydrate_fn()).push(s.hydrate_fn()(g)));
                assert(out@.map_values(|gr: GroupResponse| gr@) =~= s.groups.take(i + 1).map_values(
                    s.hydrate_fn(),
                ));
            }
        }
        proof {
            assert(self@.groups.take(n as int) =~= self@.groups);
        }
        out
    }
}

} // verus!

verus! {

/// A course with no group has maximum number 0.
pub proof fn lemma_max_number_absent(groups: Seq<GroupModel>, course: Seq<char>)
    requires
        forall|i: int| 0 <= i < groups.len() ==> (#[trigger] groups[i]).course != course,
    ensures
        max_number_in(groups, course) == 0,
    decreases groups.len(),
{
    if groups.len() > 0 {
        assert(forall|i: int|
            0 <= i < groups.drop_last().len() ==> (#[trigger] groups.drop_last()[i]).course
                != course);
        lemma_max_number_absent(groups.drop_last(), course);
    }
}

/// Sequential numbering: a successful creation allocates exactly the
/// course's previous maximum plus one — so 1 where the course has no
/// group — the course's maximum then equals the new number, and every
/// other course's maximum is untouched.
pub proof fn lemma_group_numbering(
    s: StoreModel,
    role: Role,
    course: Seq<char>,
    other: Seq<char>,
    at: int,
)
    requires
        s.wf(),
        role.spec_has_permission(),
        s.next_group_id < i32::MAX,
        max_number_in(s.groups, course) < i32::MAX,
        other != course,
    ensures
        s.spec_create_group(role, course, at) matches Ok(r) && {
            let (s2, g) = r;
            &&& g.number == max_number_in(s.groups, course) + 1
            &&& (forall|i: int| 0 <= i < s.groups.len() ==> (#[trigger] s.groups[i]).course != course)
                ==> g.number == 1
            &&& max_number_in(s2.groups, course) == g.number
            &&& max_number_in(s2.groups, other) == max_number_in(s.groups, other)
        },
{
    let r = s.spec_create_group(role, course, at);
    let (s2, g) = r->Ok_0;
    lemma_max_number_bounds(s.groups, course);
    if forall|i: int| 0 <= i < s.groups.len() ==> (#[trigger] s.groups[i]).course != course {
        lemma_max_number_absent(s.groups, course);
    }
    lemma_max_number_push(s.groups, g, course);
    lemma_max_number_push(s.groups, g, other);
}

/// Roster hydration: a group with no membership edge still appears in the
/// listed groups, at its own position, with an empty roster.
pub proof fn lemma_empty_roster(s: StoreModel, i: int)
    requires
        0 <= i < s.groups.len(),
        forall|j: int|
            0 <= j < s.group_members.len() ==> (#[trigger] s.group_members[j]).group != s.groups[
                i
            ].id,
    ensures
        s.spec_list_groups().len() == s.groups.len(),
        s.spec_list_groups()[i].id == s.groups[i].id,
        s.spec_list_groups()[i].members.len() == 0,
{
    broadcast use vstd::seq_lib::group_seq_properties;

    assert(s.spec_list_groups()[i] == s.hydrate_fn()(s.groups[i]));
    let gid = s.groups[i].id;
    let fs = s.group_members.filter(edge_in_group(gid));
    if fs.len() > 0 {
        s.group_members.lemma_filter_pred(edge_in_group(gid), 0);
        assert(edge_in_group(gid)(fs[0]));
        assert(fs.contains(fs[0]));
        crate::seq_facts::lemma_filter_subset(s.group_members, edge_in_group(gid), fs[0]);
        let j = choose|j: int| 0 <= j < s.group_members.len() && s.group_members[j] == fs[0];
        assert(s.group_members[j].group == gid);
        assert(false);
    }
    assert(s.roster_of(gid).len() == 0);
}

} // verus!
