use tasktrack::course::CreateCourseRequest;
use tasktrack::group::{AddMembersRequest, CreateGroupRequest};
use tasktrack::status::ApiError;
use tasktrack::store::Store;
use tasktrack::users::{CreateUserRequest, Role, UpdateUserRequest};

fn admin() -> Role {
    Role::Ketua
}

fn add_user(store: &mut Store, username: &str) -> i32 {
    let req = CreateUserRequest {
        username: username.to_string(),
        name: username.to_string(),
        role: Role::Anggota,
        password: "SECRET-REDACTED".to_string(),
    };
    store.create_user(&admin(), &req).expect("user created").id
}

fn group_for(store: &mut Store, course: &str) -> (i32, i32) {
    let req = CreateGroupRequest { course: course.to_string() };
    let resp = store.create_group(&admin(), &req, 100).expect("group created");
    (resp.id, resp.group_number)
}

#[test]
fn group_numbers_are_sequential_per_course() {
    let mut store = Store::new();
    let (_, n1) = group_for(&mut store, "CS101");
    let (_, n2) = group_for(&mut store, "CS101");
    let (_, n3) = group_for(&mut store, "CS101");
    assert_eq!((n1, n2, n3), (1, 2, 3));
    let (_, m1) = group_for(&mut store, "MATH201");
    assert_eq!(m1, 1);
    let (_, n4) = group_for(&mut store, "CS101");
    assert_eq!(n4, 4);
}

#[test]
fn first_group_of_a_course_gets_number_one() {
    let mut store = Store::new();
    let (_, n1) = group_for(&mut store, "CS101");
    assert_eq!(n1, 1);
    let (_, n2) = group_for(&mut store, "CS101");
    assert_eq!(n2, 2);
}

#[test]
fn group_numbers_are_not_reused_after_deletion() {
    let mut store = Store::new();
    let (g1, _) = group_for(&mut store, "CS101");
    let (_, n2) = group_for(&mut store, "CS101");
    assert_eq!(n2, 2);
    store.delete_group(&admin(), g1).expect("deleted");
    let (_, n3) = group_for(&mut store, "CS101");
    assert_eq!(n3, 3);
}

#[test]
fn empty_group_is_listed_with_empty_roster() {
    let mut store = Store::new();
    let a = add_user(&mut store, "A");
    let (g1, _) = group_for(&mut store, "CS101");
    let (g2, _) = group_for(&mut store, "CS101");
    store
        .add_member_to_group(&admin(), g1, &AddMembersRequest { users: vec![a] })
        .expect("added");
    let groups = store.get_all_groups();
    assert_eq!(groups.len(), 2);
    let hollow = groups.iter().find(|g| g.id == g2).expect("listed");
    assert_eq!(hollow.members.len(), 0);
    let full = groups.iter().find(|g| g.id == g1).expect("listed");
    assert_eq!(full.members.len(), 1);
    assert_eq!(full.members[0].username, "A");
}

#[test]
fn removing_missing_membership_is_not_found_with_zero_effect() {
    let mut store = Store::new();
    let a = add_user(&mut store, "A");
    let (g1, _) = group_for(&mut store, "CS101");
    let edges_before = store.group_members.len();
    assert_eq!(store.remove_member_from_group(&admin(), g1, a), Err(ApiError::NotFound));
    assert_eq!(store.group_members.len(), edges_before);
}

#[test]
fn adding_duplicate_member_conflicts_whole_request() {
    let mut store = Store::new();
    let a = add_user(&mut store, "A");
    let b = add_user(&mut store, "B");
    let (g1, _) = group_for(&mut store, "CS101");
    store
        .add_member_to_group(&admin(), g1, &AddMembersRequest { users: vec![a] })
        .expect("added");
    assert_eq!(
        store.add_member_to_group(&admin(), g1, &AddMembersRequest { users: vec![b, a] }),
        Err(ApiError::Conflict)
    );
    // all-or-nothing: the fresh member was not inserted either
    assert_eq!(store.group_members.len(), 1);
    assert_eq!(
        store.add_member_to_group(&admin(), g1, &AddMembersRequest { users: vec![b, b] }),
        Err(ApiError::Conflict)
    );
    assert_eq!(store.group_members.len(), 1);
}

#[test]
fn adding_member_to_missing_group_is_unprocessable() {
    let mut store = Store::new();
    let a = add_user(&mut store, "A");
    assert_eq!(
        store.add_member_to_group(&admin(), 42, &AddMembersRequest { users: vec![a] }),
        Err(ApiError::Unprocessable)
    );
    let (g1, _) = group_for(&mut store, "CS101");
    assert_eq!(
        store.add_member_to_group(&admin(), g1, &AddMembersRequest { users: vec![77] }),
        Err(ApiError::Unprocessable)
    );
    assert_eq!(
        store.add_member_to_group(&admin(), g1, &AddMembersRequest { users: vec![] }),
        Err(ApiError::BadRequest)
    );
}

#[test]
fn roster_mutation_requires_elevated_role() {
    let mut store = Store::new();
    let a = add_user(&mut store, "A");
    let (g1, _) = group_for(&mut store, "CS101");
    let plain = Role::Anggota;
    assert_eq!(
        store.add_member_to_group(&plain, g1, &AddMembersRequest { users: vec![a] }),
        Err(ApiError::Unauthorized)
    );
    assert!(matches!(
        store.create_group(&plain, &CreateGroupRequest { course: "CS101".to_string() }, 1),
        Err(ApiError::Unauthorized)
    ));
    assert_eq!(store.delete_group(&plain, g1), Err(ApiError::Unauthorized));
}

#[test]
fn deleting_group_with_dependents_is_refused() {
    let mut store = Store::new();
    let a = add_user(&mut store, "A");
    let (g1, _) = group_for(&mut store, "CS101");
    store
        .add_member_to_group(&admin(), g1, &AddMembersRequest { users: vec![a] })
        .expect("added");
    assert_eq!(store.delete_group(&admin(), g1), Err(ApiError::Unprocessable));
    store.remove_member_from_group(&admin(), g1, a).expect("removed");
    assert_eq!(store.delete_group(&admin(), g1), Ok(()));
    assert_eq!(store.delete_group(&admin(), g1), Err(ApiError::NotFound));
}

#[test]
fn duplicate_username_conflicts() {
    let mut store = Store::new();
    add_user(&mut store, "A");
    let req = CreateUserRequest {
        username: "A".to_string(),
        name: "Other".to_string(),
        role: Role::Anggota,
        password: "SECRET-REDACTED".to_string(),
    };
    assert!(matches!(store.create_user(&admin(), &req), Err(ApiError::Conflict)));
    assert_eq!(store.users.len(), 1);
}

#[test]
fn user_lookup_and_update() {
    let mut store = Store::new();
    let a = add_user(&mut store, "A");
    let found = store.find_user(&"A".to_string()).expect("found");
    assert_eq!(found.id, a);
    assert!(matches!(store.find_user(&"Z".to_string()), Err(ApiError::NotFound)));
    let update = UpdateUserRequest {
        user_id: a,
        username: "A".to_string(),
        name: "Renamed".to_string(),
        profile_picture: Some("http://example.invalid/a.png".to_string()),
    };
    store.update_data_user(&Role::Anggota, a, &update).expect("self update allowed");
    let found = store.find_user(&"A".to_string()).expect("found");
    assert_eq!(found.name, "Renamed");
    assert_eq!(found.profile_picture.as_deref(), Some("http://example.invalid/a.png"));
    // another plain member may not touch the row
    assert_eq!(
        store.update_data_user(&Role::Anggota, a + 1, &update),
        Err(ApiError::Unauthorized)
    );
}

#[test]
fn deleting_user_with_dependents_is_refused() {
    let mut store = Store::new();
    let a = add_user(&mut store, "A");
    let (g1, _) = group_for(&mut store, "CS101");
    store
        .add_member_to_group(&admin(), g1, &AddMembersRequest { users: vec![a] })
        .expect("added");
    assert_eq!(store.delete_user(&admin(), &"A".to_string()), Err(ApiError::Unprocessable));
    store.remove_member_from_group(&admin(), g1, a).expect("removed");
    assert_eq!(store.delete_user(&admin(), &"A".to_string()), Ok(()));
    assert_eq!(store.delete_user(&admin(), &"A".to_string()), Err(ApiError::NotFound));
}

#[test]
fn subjects_are_unique_and_listed_in_order() {
    let mut store = Store::new();
    store
        .create_subject(&admin(), &CreateCourseRequest { course: "CS101".to_string() })
        .expect("created");
    store
        .create_subject(&admin(), &CreateCourseRequest { course: "MATH201".to_string() })
        .expect("created");
    assert_eq!(
        store.create_subject(&admin(), &CreateCourseRequest { course: "CS101".to_string() }),
        Err(ApiError::Conflict)
    );
    let subjects = store.list_subjects();
    assert_eq!(subjects.len(), 2);
    assert_eq!(subjects[0].course, "CS101");
    assert_eq!(subjects[1].course, "MATH201");
}

#[test]
fn tasks_crud_round_trip() {
    let mut store = Store::new();
    let req = tasktrack::tasks::CreateTaskRequest {
        course: "CS101".to_string(),
        title: "T1".to_string(),
        description: "d".to_string(),
        task_type: 0,
        due_date: 99,
    };
    let created = store.create_task(&admin(), &req).expect("created");
    let fetched = store.get_task(created.task_id).expect("fetched");
    assert_eq!(fetched.title, "T1");
    assert_eq!(fetched.due_date, 99);
    let update = tasktrack::tasks::UpdateTaskRequest {
        task_id: created.task_id,
        title: "T1b".to_string(),
        description: "d2".to_string(),
    };
    store.update_task(&admin(), &update).expect("updated");
    let fetched = store.get_task(created.task_id).expect("fetched");
    assert_eq!(fetched.title, "T1b");
    assert_eq!(fetched.task_type, 0);
    assert!(matches!(store.get_task(999), Err(ApiError::NotFound)));
    assert_eq!(store.delete_task(&admin(), created.task_id), Ok(()));
    assert_eq!(store.delete_task(&admin(), created.task_id), Err(ApiError::NotFound));
}

#[test]
fn invalid_task_mode_is_bad_request() {
    let mut store = Store::new();
    let req = tasktrack::tasks::CreateTaskRequest {
        course: "CS101".to_string(),
        title: "T1".to_string(),
        description: "d".to_string(),
        task_type: 5,
        due_date: 1,
    };
    assert!(matches!(store.create_task(&admin(), &req), Err(ApiError::BadRequest)));
    assert_eq!(store.tasks.len(), 0);
}

#[test]
fn deleting_task_with_completions_is_refused() {
    let mut store = Store::new();
    let a = add_user(&mut store, "A");
    let req = tasktrack::tasks::CreateTaskRequest {
        course: "CS101".to_string(),
        title: "T1".to_string(),
        description: "d".to_string(),
        task_type: 0,
        due_date: 1,
    };
    let t = store.create_task(&admin(), &req).expect("created").task_id;
    store.add_finished_user_task(a, t, 1).expect("marked");
    assert_eq!(store.delete_task(&admin(), t), Err(ApiError::Unprocessable));
    store.remove_finished_user_task(a, t).expect("removed");
    assert_eq!(store.delete_task(&admin(), t), Ok(()));
}
