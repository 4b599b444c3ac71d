use tasktrack::group::{AddMembersRequest, CreateGroupRequest};
use tasktrack::status::ApiError;
use tasktrack::store::Store;
use tasktrack::tasks::{CreateTaskRequest, TaskStatus};
use tasktrack::users::{CreateUserRequest, Role};

fn admin() -> Role {
    Role::Ketua
}

fn add_user(store: &mut Store, username: &str) -> i32 {
    let req = CreateUserRequest {
        username: username.to_string(),
        name: username.to_string(),
        role: Role::Anggota,
        password: "SECRET-REDACTED".to_string(),
    };
    store.create_user(&admin(), &req).expect("user created").id
}

fn add_task(store: &mut Store, course: &str, title: &str, mode: i32, due: i64) -> i32 {
    let req = CreateTaskRequest {
        course: course.to_string(),
        title: title.to_string(),
        description: format!("{} description", title),
        task_type: mode,
        due_date: due,
    };
    store.create_task(&admin(), &req).expect("task created").task_id
}

fn add_group(store: &mut Store, course: &str) -> i32 {
    let req = CreateGroupRequest { course: course.to_string() };
    store.create_group(&admin(), &req, 100).expect("group created").id
}

#[test]
fn individual_task_status_partitions_members() {
    let mut store = Store::new();
    let a = add_user(&mut store, "A");
    let b = add_user(&mut store, "B");
    let t1 = add_task(&mut store, "CS101", "T1", 0, 1735689600);
    store.add_finished_user_task(a, t1, 42).expect("marked");
    match store.get_task_status(t1).expect("status") {
        TaskStatus::Individual(resp) => {
            assert_eq!(resp.task_id, t1);
            assert_eq!(resp.finished_users.len(), 1);
            assert_eq!(resp.finished_users[0].id, a);
            assert_eq!(resp.finished_users[0].username, "A");
            assert_eq!(resp.unfinished_users.len(), 1);
            assert_eq!(resp.unfinished_users[0].id, b);
        },
        TaskStatus::Group(_) => panic!("expected an individual status"),
    }
}

#[test]
fn individual_partition_covers_every_member_once() {
    let mut store = Store::new();
    for name in ["A", "B", "C", "D"] {
        add_user(&mut store, name);
    }
    let t = add_task(&mut store, "CS101", "T1", 0, 10);
    store.add_finished_user_task(1, t, 5).expect("marked");
    store.add_finished_user_task(3, t, 6).expect("marked");
    match store.get_task_status(t).expect("status") {
        TaskStatus::Individual(resp) => {
            assert_eq!(resp.finished_users.len() + resp.unfinished_users.len(), 4);
            let mut ids: Vec<i32> = resp
                .finished_users
                .iter()
                .chain(resp.unfinished_users.iter())
                .map(|u| u.id)
                .collect();
            ids.sort();
            assert_eq!(ids, vec![1, 2, 3, 4]);
        },
        TaskStatus::Group(_) => panic!("expected an individual status"),
    }
}

#[test]
fn group_task_status_scopes_to_course() {
    let mut store = Store::new();
    let a = add_user(&mut store, "A");
    let g1 = add_group(&mut store, "CS101");
    let g2 = add_group(&mut store, "CS101");
    let other = add_group(&mut store, "MATH201");
    store
        .add_member_to_group(&admin(), g1, &AddMembersRequest { users: vec![a] })
        .expect("member added");
    let t = add_task(&mut store, "CS101", "T2", 1, 20);
    store.add_finished_group_task(g1, t, 7).expect("marked");
    match store.get_task_status(t).expect("status") {
        TaskStatus::Group(resp) => {
            assert_eq!(resp.finished_groups.len(), 1);
            assert_eq!(resp.finished_groups[0].id, g1);
            assert_eq!(resp.finished_groups[0].members.len(), 1);
            assert_eq!(resp.finished_groups[0].members[0].username, "A");
            assert_eq!(resp.unfinished_groups.len(), 1);
            assert_eq!(resp.unfinished_groups[0].id, g2);
            assert!(resp.finished_groups.iter().all(|g| g.id != other));
            assert!(resp.unfinished_groups.iter().all(|g| g.id != other));
        },
        TaskStatus::Individual(_) => panic!("expected a group status"),
    }
}

#[test]
fn group_completion_is_inherited_by_members() {
    let mut store = Store::new();
    let a = add_user(&mut store, "A");
    let b = add_user(&mut store, "B");
    let g1 = add_group(&mut store, "CS101");
    store
        .add_member_to_group(&admin(), g1, &AddMembersRequest { users: vec![a, b] })
        .expect("members added");
    let t2 = add_task(&mut store, "CS101", "T2", 1, 30);
    store.add_finished_group_task(g1, t2, 55).expect("marked");
    let resolved = store.get_user_tasks(a);
    assert_eq!(resolved.user_id, a);
    assert_eq!(resolved.finished_tasks.len(), 1);
    assert_eq!(resolved.finished_tasks[0].task_id, t2);
    assert_eq!(resolved.finished_tasks[0].finished_at, 55);
    assert_eq!(store.finished_user_tasks.len(), 0);
}

#[test]
fn inherited_completion_uses_earliest_group_timestamp() {
    let mut store = Store::new();
    let a = add_user(&mut store, "A");
    let g1 = add_group(&mut store, "CS101");
    let g2 = add_group(&mut store, "CS101");
    store
        .add_member_to_group(&admin(), g1, &AddMembersRequest { users: vec![a] })
        .expect("added");
    store
        .add_member_to_group(&admin(), g2, &AddMembersRequest { users: vec![a] })
        .expect("added");
    let t = add_task(&mut store, "CS101", "T2", 1, 30);
    store.add_finished_group_task(g1, t, 90).expect("marked");
    store.add_finished_group_task(g2, t, 40).expect("marked");
    let resolved = store.get_user_tasks(a);
    assert_eq!(resolved.finished_tasks.len(), 1);
    assert_eq!(resolved.finished_tasks[0].finished_at, 40);
}

#[test]
fn member_unfinished_holds_individual_tasks_system_wide() {
    let mut store = Store::new();
    let a = add_user(&mut store, "A");
    let t_any = add_task(&mut store, "MATH201", "M1", 0, 5);
    let t_group_other = add_task(&mut store, "MATH201", "M2", 1, 6);
    let resolved = store.get_user_tasks(a);
    // every individual task applies, whatever its course; a group task of a
    // course the member has no group in does not
    assert_eq!(resolved.finished_tasks.len(), 0);
    assert_eq!(resolved.unfinished_tasks.len(), 1);
    assert_eq!(resolved.unfinished_tasks[0].task_id, t_any);
    assert!(resolved.unfinished_tasks.iter().all(|t| t.task_id != t_group_other));
}

#[test]
fn member_unfinished_includes_course_group_tasks() {
    let mut store = Store::new();
    let a = add_user(&mut store, "A");
    let g1 = add_group(&mut store, "CS101");
    store
        .add_member_to_group(&admin(), g1, &AddMembersRequest { users: vec![a] })
        .expect("added");
    let t_group = add_task(&mut store, "CS101", "T2", 1, 6);
    let resolved = store.get_user_tasks(a);
    assert_eq!(resolved.unfinished_tasks.len(), 1);
    assert_eq!(resolved.unfinished_tasks[0].task_id, t_group);
}

#[test]
fn marking_twice_conflicts_and_keeps_one_row() {
    let mut store = Store::new();
    let a = add_user(&mut store, "A");
    let t1 = add_task(&mut store, "CS101", "T1", 0, 10);
    assert_eq!(store.add_finished_user_task(a, t1, 1), Ok(()));
    assert_eq!(store.add_finished_user_task(a, t1, 2), Err(ApiError::Conflict));
    assert_eq!(store.finished_user_tasks.len(), 1);
    assert_eq!(store.finished_user_tasks[0].finished_at, 1);
}

#[test]
fn group_marking_twice_conflicts() {
    let mut store = Store::new();
    let g = add_group(&mut store, "CS101");
    let t = add_task(&mut store, "CS101", "T2", 1, 10);
    assert_eq!(store.add_finished_group_task(g, t, 1), Ok(()));
    assert_eq!(store.add_finished_group_task(g, t, 2), Err(ApiError::Conflict));
    assert_eq!(store.finished_group_tasks.len(), 1);
}

#[test]
fn unmarking_missing_completion_is_not_found() {
    let mut store = Store::new();
    let a = add_user(&mut store, "A");
    let t1 = add_task(&mut store, "CS101", "T1", 0, 10);
    assert_eq!(store.remove_finished_user_task(a, t1), Err(ApiError::NotFound));
    assert_eq!(store.remove_finished_group_task(1, t1), Err(ApiError::NotFound));
}

#[test]
fn unmarking_removes_the_edge() {
    let mut store = Store::new();
    let a = add_user(&mut store, "A");
    let t1 = add_task(&mut store, "CS101", "T1", 0, 10);
    store.add_finished_user_task(a, t1, 3).expect("marked");
    assert_eq!(store.remove_finished_user_task(a, t1), Ok(()));
    assert_eq!(store.finished_user_tasks.len(), 0);
    assert_eq!(store.remove_finished_user_task(a, t1), Err(ApiError::NotFound));
}

#[test]
fn wrong_mode_completion_is_rejected() {
    let mut store = Store::new();
    let a = add_user(&mut store, "A");
    let g = add_group(&mut store, "CS101");
    let t_group = add_task(&mut store, "CS101", "T2", 1, 10);
    let t_ind = add_task(&mut store, "CS101", "T1", 0, 10);
    assert_eq!(store.add_finished_user_task(a, t_group, 1), Err(ApiError::Unprocessable));
    assert_eq!(store.add_finished_group_task(g, t_ind, 1), Err(ApiError::Unprocessable));
    assert_eq!(store.finished_user_tasks.len(), 0);
    assert_eq!(store.finished_group_tasks.len(), 0);
}

#[test]
fn completion_for_missing_rows_is_rejected() {
    let mut store = Store::new();
    let t_ind = add_task(&mut store, "CS101", "T1", 0, 10);
    assert_eq!(store.add_finished_user_task(9, 99, 1), Err(ApiError::NotFound));
    assert_eq!(store.add_finished_user_task(9, t_ind, 1), Err(ApiError::Unprocessable));
}

#[test]
fn unknown_task_status_is_not_found() {
    let store = Store::new();
    assert!(matches!(store.get_task_status(7), Err(ApiError::NotFound)));
}

#[test]
fn group_tasks_partition_for_one_group() {
    let mut store = Store::new();
    let g = add_group(&mut store, "CS101");
    let t_done = add_task(&mut store, "CS101", "T2", 1, 10);
    let t_open = add_task(&mut store, "CS101", "T3", 1, 11);
    store.add_finished_group_task(g, t_done, 8).expect("marked");
    let resp = store.get_group_tasks(g);
    assert_eq!(resp.group_id, g);
    assert_eq!(resp.finished_tasks.len(), 1);
    assert_eq!(resp.finished_tasks[0].task_id, t_done);
    assert_eq!(resp.finished_tasks[0].finished_at, 8);
    assert_eq!(resp.unfinished_tasks.len(), 1);
    assert_eq!(resp.unfinished_tasks[0].task_id, t_open);
}

#[test]
fn member_resolution_is_total_for_unknown_member() {
    let mut store = Store::new();
    add_task(&mut store, "CS101", "T1", 0, 1);
    let resolved = store.get_user_tasks(77);
    assert_eq!(resolved.user_id, 77);
    assert_eq!(resolved.finished_tasks.len(), 0);
    assert_eq!(resolved.unfinished_tasks.len(), 1);
}

#[test]
fn member_resolution_combines_direct_and_inherited() {
    let mut store = Store::new();
    let a = add_user(&mut store, "A");
    let g1 = add_group(&mut store, "CS101");
    store
        .add_member_to_group(&admin(), g1, &AddMembersRequest { users: vec![a] })
        .expect("added");
    let t_ind = add_task(&mut store, "CS101", "T1", 0, 1);
    let t_grp = add_task(&mut store, "CS101", "T2", 1, 2);
    store.add_finished_user_task(a, t_ind, 10).expect("marked");
    store.add_finished_group_task(g1, t_grp, 20).expect("marked");
    let resolved = store.get_user_tasks(a);
    // direct completions come first, inherited ones after
    assert_eq!(resolved.finished_tasks.len(), 2);
    assert_eq!(resolved.finished_tasks[0].task_id, t_ind);
    assert_eq!(resolved.finished_tasks[0].finished_at, 10);
    assert_eq!(resolved.finished_tasks[1].task_id, t_grp);
    assert_eq!(resolved.finished_tasks[1].finished_at, 20);
    assert_eq!(resolved.unfinished_tasks.len(), 0);
}

#[test]
fn every_role_may_read_the_member_list() {
    let mut store = Store::new();
    add_user(&mut store, "A");
    let users = store.list_users(&Role::Anggota).expect("readable");
    assert_eq!(users.len(), 1);
    let users = store.list_users(&Role::Sekretaris).expect("readable");
    assert_eq!(users.len(), 1);
}

#[test]
fn creation_requires_elevated_role() {
    let mut store = Store::new();
    let plain = Role::Anggota;
    let user_req = CreateUserRequest {
        username: "A".to_string(),
        name: "A".to_string(),
        role: Role::Anggota,
        password: "SECRET-REDACTED".to_string(),
    };
    assert!(matches!(store.create_user(&plain, &user_req), Err(ApiError::Unauthorized)));
    let task_req = CreateTaskRequest {
        course: "CS101".to_string(),
        title: "T1".to_string(),
        description: "d".to_string(),
        task_type: 0,
        due_date: 1,
    };
    assert!(matches!(store.create_task(&plain, &task_req), Err(ApiError::Unauthorized)));
    assert_eq!(store.users.len(), 0);
    assert_eq!(store.tasks.len(), 0);
}
