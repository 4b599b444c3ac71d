use tasktrack::message::ErrorMessage;
use tasktrack::middleware::AuthMiddleware;
use tasktrack::responder::{ApiResponder, StoreFault};
use tasktrack::status::{ApiError, Status};
use tasktrack::tasks::TaskType;
use tasktrack::users::Role;

#[test]
fn status_codes_are_http_codes() {
    assert_eq!(Status::Success.code(), 200);
    assert_eq!(Status::Created.code(), 201);
    assert_eq!(Status::BadRequest.code(), 400);
    assert_eq!(Status::UnAuthorized.code(), 401);
    assert_eq!(Status::NotFound.code(), 404);
    assert_eq!(Status::Conflict.code(), 409);
    assert_eq!(Status::UnprocessableEntity.code(), 422);
    assert_eq!(Status::InternalServerError.code(), 500);
}

#[test]
fn api_errors_map_to_statuses() {
    assert_eq!(ApiError::NotFound.status(), Status::NotFound);
    assert_eq!(ApiError::Conflict.status(), Status::Conflict);
    assert_eq!(ApiError::Unprocessable.status(), Status::UnprocessableEntity);
    assert_eq!(ApiError::BadRequest.status(), Status::BadRequest);
    assert_eq!(ApiError::Unauthorized.status(), Status::UnAuthorized);
    assert_eq!(ApiError::Internal.status(), Status::InternalServerError);
}

#[test]
fn roles_have_expected_permissions() {
    assert!(!Role::Anggota.has_permission());
    assert!(Role::Ketua.has_permission());
    assert!(Role::Sekretaris.has_permission());
    assert!(Role::Anggota.valid_permission());
    assert!(Role::Ketua.valid_permission());
    assert!(Role::Sekretaris.valid_permission());
    assert_eq!(Role::Anggota.text(), "Anggota");
    assert_eq!(Role::Ketua.text(), "Ketua");
    assert_eq!(Role::Sekretaris.text(), "Sekretaris");
}

#[test]
fn task_type_codes_round_trip() {
    assert_eq!(TaskType::try_from(0), Ok(TaskType::Individual));
    assert_eq!(TaskType::try_from(1), Ok(TaskType::Group));
    assert!(TaskType::try_from(2).is_err());
    assert!(TaskType::try_from(-1).is_err());
    assert_eq!(TaskType::Individual.code(), 0);
    assert_eq!(TaskType::Group.code(), 1);
}

#[test]
fn error_messages_render_fixed_phrases() {
    assert_eq!(ErrorMessage::Success.text(), "Success");
    assert_eq!(ErrorMessage::NotFound.text(), "Data not found");
    assert_eq!(ErrorMessage::Duplicate.text(), "Data duplicated");
    assert_eq!(ErrorMessage::DeleteSuccess.text(), "Delete data success");
    assert_eq!(
        ErrorMessage::InsufficientPermissions.text(),
        "Insufficient permissions for this action"
    );
    assert_eq!(ErrorMessage::LoginInvalid.text(), "Username or password is wrong");
    assert_eq!(ErrorMessage::UpdateDataSuccess.text(), "Update data successfully");
}

#[test]
fn error_messages_render_details() {
    assert_eq!(
        ErrorMessage::DatabaseError { details: "boom".to_string() }.text(),
        "Database error: boom"
    );
    assert_eq!(
        ErrorMessage::TaskTypeError { details: "bad".to_string() }.text(),
        "Task type error: bad"
    );
    assert_eq!(
        ErrorMessage::UnhanledErrorCode { code: "1999".to_string(), details: "odd".to_string() }
            .text(),
        "Unhandled error code 1999: odd"
    );
}

#[test]
fn responder_constructors_set_codes() {
    let r: ApiResponder<i32> = ApiResponder::success("ok".to_string(), Some(7));
    assert_eq!((r.status, r.message.as_str(), r.data), (200, "ok", Some(7)));
    let r: ApiResponder<()> = ApiResponder::created("made".to_string(), None);
    assert_eq!(r.status, 201);
    let r: ApiResponder<()> = ApiResponder::unauthorized("no".to_string(), None);
    assert_eq!(r.status, 401);
    let r: ApiResponder<()> = ApiResponder::conflict("dup".to_string(), None);
    assert_eq!(r.status, 409);
    let r: ApiResponder<()> = ApiResponder::unprocessable_entity("fk".to_string(), None);
    assert_eq!(r.status, 422);
    let r: ApiResponder<()> = ApiResponder::not_found("gone".to_string(), None);
    assert_eq!(r.status, 404);
    let r: ApiResponder<()> = ApiResponder::bad_request("bad".to_string(), None);
    assert_eq!(r.status, 400);
    let r: ApiResponder<()> = ApiResponder::error("ugh".to_string(), None);
    assert_eq!(r.status, 500);
}

#[test]
fn db_faults_classify_by_vendor_code() {
    let dup: ApiResponder<()> = ApiResponder::handle_error(StoreFault::Database {
        code: Some("1062".to_string()),
        details: "dup key".to_string(),
    });
    assert_eq!((dup.status, dup.message.as_str()), (409, "Data duplicated"));
    let dup2: ApiResponder<()> = ApiResponder::handle_error(StoreFault::Database {
        code: Some("23000".to_string()),
        details: "dup".to_string(),
    });
    assert_eq!(dup2.status, 409);
    let null: ApiResponder<()> = ApiResponder::handle_error(StoreFault::Database {
        code: Some("1048".to_string()),
        details: "null".to_string(),
    });
    assert_eq!((null.status, null.message.as_str()), (400, "Can't be null"));
    let fk: ApiResponder<()> = ApiResponder::handle_error(StoreFault::Database {
        code: Some("1452".to_string()),
        details: "fk".to_string(),
    });
    assert_eq!((fk.status, fk.message.as_str()), (422, "Foreign key constraint violated"));
    let long: ApiResponder<()> = ApiResponder::handle_error(StoreFault::Database {
        code: Some("1406".to_string()),
        details: "long".to_string(),
    });
    assert_eq!((long.status, long.message.as_str()), (400, "Data too long for column"));
    let check: ApiResponder<()> = ApiResponder::handle_error(StoreFault::Database {
        code: Some("3819".to_string()),
        details: "check".to_string(),
    });
    assert_eq!((check.status, check.message.as_str()), (400, "Check constraint failed"));
    let odd: ApiResponder<()> = ApiResponder::handle_error(StoreFault::Database {
        code: Some("1999".to_string()),
        details: "strange".to_string(),
    });
    assert_eq!((odd.status, odd.message.as_str()), (500, "Unhandled error code 1999: strange"));
    let anon: ApiResponder<()> = ApiResponder::handle_error(StoreFault::Database {
        code: None,
        details: "gone away".to_string(),
    });
    assert_eq!((anon.status, anon.message.as_str()), (500, "Database error: gone away"));
    let missing: ApiResponder<()> = ApiResponder::handle_error(StoreFault::RowNotFound);
    assert_eq!((missing.status, missing.message.as_str()), (404, "Data not found"));
    let other: ApiResponder<()> =
        ApiResponder::handle_error(StoreFault::Other { details: "I/O error: pipe".to_string() });
    assert_eq!((other.status, other.message.as_str()), (500, "I/O error: pipe"));
}

#[test]
fn middleware_carries_secret_to_service() {
    let mw = AuthMiddleware::new("SECRET-REDACTED".to_string());
    assert_eq!(mw.secret, "SECRET-REDACTED");
    let wrapped = mw.wrap(13u8);
    assert_eq!(wrapped.secret, "SECRET-REDACTED");
    assert_eq!(wrapped.service, 13u8);
}
