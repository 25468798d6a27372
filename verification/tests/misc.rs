use delivery_user::config::{JwtMiddleware, JwtSecret, Opt};
use delivery_user::errors::{AppError, AppErrorType};
use delivery_user::estimator::WaitStatus;
use delivery_user::model::{Courier, MatchOutcome, Status};
use delivery_user::policy::{
    role_listed, validate_role, PermissionsMiddlewareFactory, Policy,
    UuidCheckerMiddlewareFactory,
};
use delivery_user::replies::{find_courier_reply, parse_status, status_text, wait_reply};

#[test]
fn error_without_message_shows_a_fixed_text() {
    let e = AppError { message: None, error_type: AppErrorType::SerdeError };
    assert_eq!(e.message(), "Error description unspecified");
    assert_eq!(e.error_response().error, "Error description unspecified");
    let e = AppError { message: Some("boom".to_string()), error_type: AppErrorType::DbError };
    assert_eq!(e.message(), "boom");
    assert_eq!(e.error_response().error, "boom");
}

#[test]
fn db_error_hides_the_cause() {
    let e = AppError::db_error("connection refused");
    assert_eq!(e.error_type, AppErrorType::DbError);
    assert_eq!(e.message.as_deref(), Some("Internal server Error: database error"));
    assert_eq!(e.status_code(), 500);
}

#[test]
fn grpc_error_hides_the_cause() {
    let e = AppError::grpc_error(17);
    assert_eq!(e.error_type, AppErrorType::GrpcError);
    assert_eq!(e.message.as_deref(), Some("Internal server Error: gRPC error"));
    assert_eq!(e.status_code(), 500);
}

#[test]
fn serde_error_is_filed_with_the_grpc_errors() {
    let e = AppError::serde_error("bad value");
    assert_eq!(e.error_type, AppErrorType::GrpcError);
    assert_eq!(e.message.as_deref(), Some("Internal server Error: serializing error"));
    assert_eq!(e.status_code(), 500);
}

#[test]
fn every_kind_of_error_is_a_server_error() {
    for error_type in [AppErrorType::DbError, AppErrorType::GrpcError, AppErrorType::SerdeError] {
        assert_eq!(AppError { message: None, error_type }.status_code(), 500);
    }
}

#[test]
fn policy_lists_the_roles_of_each_group() {
    let p = Policy::build();
    assert_eq!(p.user_policy, vec!["USER", "COURIER", "ADMIN", "ANALYST"]);
    assert_eq!(p.courier_policy, vec!["COURIER", "ADMIN"]);
    assert_eq!(p.admin_policy, vec!["ADMIN"]);
    assert_eq!(p.analyst_policy, vec!["ANALYST"]);
    assert!(p == p.clone());
}

#[test]
fn guard_admits_the_roles_of_its_policy() {
    let p = Policy::build();
    let couriers = PermissionsMiddlewareFactory::new(p.courier_policy.clone());
    assert!(couriers.permits("COURIER"));
    assert!(couriers.permits("ADMIN"));
    assert!(!couriers.permits("USER"));
    assert!(!couriers.permits("courier"));
    assert!(!couriers.permits(""));
    let nobody = PermissionsMiddlewareFactory::new(vec![]);
    assert!(!nobody.permits("ADMIN"));
    assert!(role_listed(&p.analyst_policy, "ANALYST"));
    assert!(!role_listed(&p.analyst_policy, "ADMIN"));
}

#[test]
fn id_guard_admits_the_owner_and_admins() {
    let guard = UuidCheckerMiddlewareFactory::default();
    let me: u128 = 0x67e5504410b1426f9247bb680e5fe0c8;
    assert!(guard.permits("67e55044-10b1-426f-9247-bb680e5fe0c8", me, "USER"));
    assert!(!guard.permits("67e55044-10b1-426f-9247-bb680e5fe0c9", me, "USER"));
    assert!(guard.permits("67e55044-10b1-426f-9247-bb680e5fe0c9", me, "ADMIN"));
    // The text is compared as it stands: another spelling of the same id is
    // not the owner's.
    assert!(!guard.permits("67E55044-10B1-426F-9247-BB680E5FE0C8", me, "COURIER"));
    assert!(!guard.permits("", me, "admin"));
}

#[test]
fn bearer_token_follows_the_scheme() {
    assert_eq!(JwtMiddleware::bearer_token("Bearer abc.def.ghi"), "abc.def.ghi");
    assert_eq!(JwtMiddleware::bearer_token("Bearer "), "");
    assert_eq!(JwtMiddleware::bearer_token("Bearer"), "");
    assert_eq!(JwtMiddleware::bearer_token(""), "");
    // Seven characters are dropped, whatever they are and however many
    // bytes they take.
    assert_eq!(JwtMiddleware::bearer_token("ääääääätoken"), "token");
    let guard = JwtMiddleware { jwt_secret: "s".to_string() };
    assert_eq!(guard.jwt_secret, "s");
    assert_eq!(JwtSecret { jwt: "k".to_string() }.jwt, "k");
}

#[test]
fn settings_make_the_engine() {
    let opt = Opt {
        jwt_secret: "secret".to_string(),
        password_salt: "password_salt".to_string(),
        password_secret_key: "some_password_key".to_string(),
        database_url: "postgres://localhost/delivery".to_string(),
        order_max_waiting_time: 180,
        create_order_crone: 300,
        bind_address: "0.0.0.0:8080".to_string(),
        grpc_users_address: "0.0.0.0:50051".to_string(),
        grpc_orders_address: "http://0.0.0.0:50052".to_string(),
        grpc_analytics_address: "http://0.0.0.0:50053".to_string(),
    };
    let d = opt.dispatcher();
    assert_eq!(d.max_wait, 180);
    assert_eq!(d.cooldown, 300);
    assert_eq!(d.queue.len(), 0);
    assert!(d.couriers.find_one_free().is_none());
    assert_eq!(opt.clone().bind_address, "0.0.0.0:8080");
}

#[test]
fn status_names_round_trip() {
    for status in [Status::Searching, Status::Completed, Status::Expired] {
        assert_eq!(parse_status(&status_text(status)), Some(status));
    }
    assert_eq!(status_text(Status::Searching), "SEARCHING");
    assert_eq!(status_text(Status::Completed), "COMPLETED");
    assert_eq!(status_text(Status::Expired), "EXPIRED");
    assert_eq!(parse_status("searching"), None);
    assert_eq!(parse_status(""), None);
    assert_eq!(parse_status("EXPIRED "), None);
}

#[test]
fn terminal_statuses_are_the_two_final_ones() {
    assert!(!Status::Searching.terminal());
    assert!(Status::Completed.terminal());
    assert!(Status::Expired.terminal());
}

#[test]
fn reply_names_the_matched_courier() {
    let courier = Courier { id: 0x67e5504410b1426f9247bb680e5fe0c8, is_free: false, rating_bits: 0 };
    let reply = find_courier_reply(&MatchOutcome::Matched { courier });
    assert_eq!(reply.courier_uuid, "67e55044-10b1-426f-9247-bb680e5fe0c8");
    assert!(!reply.added_to_queue);
    assert_eq!(reply.time_untill_next_try, 0);
}

#[test]
fn reply_tells_queued_from_throttled() {
    for outcome in [MatchOutcome::QueuedNew, MatchOutcome::AlreadyQueued] {
        let reply = find_courier_reply(&outcome);
        assert_eq!(reply.courier_uuid, "None");
        assert!(reply.added_to_queue);
        assert_eq!(reply.time_untill_next_try, 0);
    }
    let reply = find_courier_reply(&MatchOutcome::Throttled { seconds_remaining: 42 });
    assert_eq!(reply.courier_uuid, "None");
    assert!(!reply.added_to_queue);
    assert_eq!(reply.time_untill_next_try, 42);
    let reply = find_courier_reply(&MatchOutcome::Expired);
    assert_eq!(reply.courier_uuid, "None");
    assert!(!reply.added_to_queue);
    assert_eq!(reply.time_untill_next_try, 0);
}

#[test]
fn wait_reply_reports_zero_without_a_forecast() {
    let reply = wait_reply(&WaitStatus { status: Status::Searching, eta_seconds: Some(98) });
    assert_eq!(reply.status, "SEARCHING");
    assert_eq!(reply.avg_waiting_time, 98);
    let reply = wait_reply(&WaitStatus { status: Status::Completed, eta_seconds: None });
    assert_eq!(reply.status, "COMPLETED");
    assert_eq!(reply.avg_waiting_time, 0);
    let reply = wait_reply(&WaitStatus { status: Status::Expired, eta_seconds: None });
    assert_eq!(reply.status, "EXPIRED");
    assert_eq!(reply.avg_waiting_time, 0);
}

#[test]
fn accounts_are_opened_for_users_and_couriers() {
    assert!(validate_role("USER"));
    assert!(validate_role("COURIER"));
    assert!(!validate_role("ADMIN"));
    assert!(!validate_role("ANALYST"));
    assert!(!validate_role("user"));
    assert!(!validate_role(""));
}
