use axum_boilerplate::diagnostics::Error;
use axum_boilerplate::voting::vote_confirmation;
use axum_boilerplate::config::{
    level_from, rotation_from, ConsoleConfig, LogLevel, RollingFileConfig, Rotation,
};
use axum_boilerplate::multiplex::{is_grpc_request, Backend, MultiplexService, ReadinessStep};

#[test]
fn levels_and_rotations_decode() {
    assert_eq!(level_from(&"TRACE".to_string()), LogLevel::Trace);
    assert_eq!(level_from(&"DEBUG".to_string()), LogLevel::Debug);
    assert_eq!(level_from(&"INFO".to_string()), LogLevel::Info);
    assert_eq!(level_from(&"WARN".to_string()), LogLevel::Warn);
    assert_eq!(level_from(&"info".to_string()), LogLevel::Error);
    assert_eq!(rotation_from(&"MINUTELY".to_string()), Rotation::Minutely);
    assert_eq!(rotation_from(&"HOURLY".to_string()), Rotation::Hourly);
    assert_eq!(rotation_from(&"NEVER".to_string()), Rotation::Never);
    assert_eq!(rotation_from(&"WEEKLY".to_string()), Rotation::Daily);
}

#[test]
fn sinks_read_their_settings() {
    let file = RollingFileConfig {
        directory: "logs".into(),
        file_name_prefix: "app".into(),
        rotation: "HOURLY".into(),
        app_only: true,
        with_max_level: "WARN".into(),
        with_file: true,
        with_line_number: true,
        with_target: false,
    };
    assert_eq!(file.max_level(), LogLevel::Warn);
    assert_eq!(file.rotation_kind(), Rotation::Hourly);
    let console = ConsoleConfig {
        app_only: false,
        with_max_level: "TRACE".into(),
        with_file: false,
        with_line_number: false,
        with_target: true,
    };
    assert_eq!(console.max_level(), LogLevel::Trace);
}

#[test]
fn multiplex_polls_then_routes() {
    let mut svc = MultiplexService::new("rest", "grpc");
    assert_eq!(svc.readiness_step(), ReadinessStep::PollRest);
    svc.mark_ready(Backend::Rest);
    assert_eq!(svc.readiness_step(), ReadinessStep::PollGrpc);
    svc.mark_ready(Backend::Grpc);
    assert_eq!(svc.readiness_step(), ReadinessStep::Ready);
    assert_eq!(svc.route(true), Backend::Grpc);
    assert!(svc.rest_ready && !svc.grpc_ready);
    assert_eq!(svc.readiness_step(), ReadinessStep::PollGrpc);
    svc.mark_ready(Backend::Grpc);
    assert_eq!(svc.route(false), Backend::Rest);
    assert!(!svc.rest_ready && svc.grpc_ready);
    assert_eq!((svc.rest, svc.grpc), ("rest", "grpc"));
}

#[test]
fn grpc_requests_are_recognised_by_content_type() {
    assert!(is_grpc_request(Some(b"application/grpc")));
    assert!(is_grpc_request(Some(b"application/grpc+proto")));
    assert!(!is_grpc_request(Some(b"application/json")));
    assert!(!is_grpc_request(Some(b"application/grp")));
    assert!(!is_grpc_request(None));
}

#[test]
fn votes_are_confirmed_or_refused() {
    assert_eq!(
        vote_confirmation(0, "http://a.b").unwrap(),
        "Happy to confirm that you upvoted for http://a.b"
    );
    assert_eq!(
        vote_confirmation(1, "x").unwrap(),
        "Confirmation that you downvoted for x"
    );
    assert_eq!(
        vote_confirmation(2, "x").unwrap_err(),
        Error::Validation("Invalid vote provided".into())
    );
    assert!(vote_confirmation(-1, "x").is_err());
}
