use meta_service::errors::ConnectionError;
use meta_service::errors::ForwardToLeader;
use meta_service::errors::MetaError;
use meta_service::errors::SerializedError;
use meta_service::retry::Failure;
use meta_service::retry::RetryAction;
use meta_service::retry::RetryConfig;
use meta_service::retry::RetryRouter;
use meta_service::retry::Target;

fn config(max_attempts: u32) -> RetryConfig {
    RetryConfig { max_attempts, max_elapsed_ms: 10_000, endpoint_attempts: 2, backoff_ms: 50 }
}

fn connection_error(msg: &str) -> MetaError {
    match tonic::transport::Endpoint::from_shared(String::new()) {
        Ok(_) => panic!("expected an invalid uri"),
        Err(e) => MetaError::ConnectionError(ConnectionError::new(e, msg.to_string())),
    }
}

fn forward(leader: Option<u64>) -> MetaError {
    MetaError::ForwardToLeader(ForwardToLeader { leader })
}

#[test]
fn new_router_knows_no_leader() {
    let r = RetryRouter::new(config(3));
    assert_eq!(r.cached_leader(), None);
    assert_eq!(r.attempts, 0);
    assert_eq!(r.next_stop(), Target::AnyReplica);
}

#[test]
fn named_leader_is_cached_and_targeted() {
    let mut r = RetryRouter::new(config(5));
    let action = r.on_failure(None, &forward(Some(4)), 1);
    assert_eq!(action, RetryAction::Retry { target: Target::Leader(4), delay_ms: 0 });
    assert_eq!(r.cached_leader(), Some(4));
}

#[test]
fn fresher_leader_replaces_cached_one() {
    let mut r = RetryRouter::new(config(5));
    let first = r.on_failure(None, &forward(Some(1)), 1);
    assert_eq!(first, RetryAction::Retry { target: Target::Leader(1), delay_ms: 0 });
    let second = r.on_failure(Some(1), &forward(Some(2)), 2);
    assert_eq!(r.cached_leader(), Some(2));
    assert_eq!(second, RetryAction::Retry { target: Target::Leader(2), delay_ms: 0 });
}

#[test]
fn unknown_leader_backs_off_to_cached_leader() {
    let mut r = RetryRouter::new(config(5));
    r.on_failure(None, &forward(Some(7)), 1);
    let action = r.on_failure(Some(3), &forward(None), 2);
    assert_eq!(action, RetryAction::Retry { target: Target::Leader(7), delay_ms: 50 });
    assert_eq!(r.cached_leader(), Some(7));
}

#[test]
fn cached_leader_that_forwards_is_forgotten() {
    let mut r = RetryRouter::new(config(5));
    r.on_failure(None, &forward(Some(7)), 1);
    let action = r.on_failure(Some(7), &forward(None), 2);
    assert_eq!(r.cached_leader(), None);
    assert_eq!(action, RetryAction::Retry { target: Target::AnyReplica, delay_ms: 50 });
}

#[test]
fn connection_error_retries_same_endpoint_then_falls_through() {
    let mut r = RetryRouter::new(config(10));
    r.on_failure(None, &forward(Some(9)), 0);
    let a = r.on_failure(Some(9), &connection_error("dial"), 1);
    assert_eq!(a, RetryAction::Retry { target: Target::SameEndpoint, delay_ms: 0 });
    let b = r.on_failure(Some(9), &connection_error("dial"), 2);
    assert_eq!(b, RetryAction::Retry { target: Target::Leader(9), delay_ms: 0 });
    assert_eq!(r.endpoint_failures, 0);
}

#[test]
fn bounded_retry_stops_at_the_third_attempt() {
    let mut r = RetryRouter::new(config(3));
    let mut made = 0;
    let mut surfaced: Option<MetaError> = None;
    loop {
        made += 1;
        let error = connection_error(&format!("attempt {}", made));
        match r.on_failure(None, &error, made) {
            RetryAction::Retry { .. } => {
                assert!(made < 10);
            }
            RetryAction::Surface => {
                surfaced = Some(error);
                break;
            }
        }
    }
    assert_eq!(made, 3);
    assert_eq!(surfaced, Some(connection_error("attempt 3")));
    assert_eq!(r.attempts, 3);
}

#[test]
fn elapsed_time_also_bounds_retries() {
    let mut r = RetryRouter::new(config(100));
    assert_eq!(r.on_failure(None, &forward(Some(1)), 10_000), RetryAction::Surface);
    assert_eq!(r.cached_leader(), Some(1));
}

#[test]
fn non_retryable_errors_surface_at_once() {
    let errors = vec![
        MetaError::InvalidConfig("x".to_string()),
        MetaError::MetaStoreDamaged("x".to_string()),
        MetaError::BadBytes("x".to_string()),
        MetaError::UnknownError("x".to_string()),
        MetaError::SerdeJsonError("x".to_string()),
        MetaError::MetaStoreNotFound,
        MetaError::MetaStoreAlreadyExists(1),
        MetaError::ErrorCode(SerializedError { code: 1006, message: "exists".to_string() }),
    ];
    for e in errors.iter() {
        let mut r = RetryRouter::new(config(5));
        assert_eq!(r.on_failure(Some(1), e, 0), RetryAction::Surface);
        assert_eq!(r.cached_leader(), None);
    }
}

#[test]
fn begin_resets_budget_and_keeps_leader() {
    let mut r = RetryRouter::new(config(2));
    r.on_failure(None, &forward(Some(5)), 0);
    assert_eq!(r.on_failure(Some(5), &forward(Some(6)), 0), RetryAction::Surface);
    r.begin();
    assert_eq!(r.attempts, 0);
    assert_eq!(r.cached_leader(), Some(6));
    assert_eq!(
        r.on_failure(Some(6), &forward(Some(5)), 0),
        RetryAction::Retry { target: Target::Leader(5), delay_ms: 0 }
    );
}

fn failing(times: usize) -> Vec<Failure> {
    let mut failures = Vec::new();
    for k in 0..times {
        failures.push(Failure {
            attempted: None,
            error: connection_error(&format!("attempt {}", k + 1)),
            elapsed_ms: k as u64,
        });
    }
    failures
}

#[test]
fn surfaced_failure_is_the_last_allowed_attempt() {
    let failures = failing(6);
    let mut r = RetryRouter::new(config(3));
    assert_eq!(r.surfaced(&failures), Some(2));
    assert_eq!(failures[2].error, connection_error("attempt 3"));
    assert_eq!(r.attempts, 3);
    let mut one = RetryRouter::new(config(1));
    assert_eq!(one.surfaced(&failures), Some(0));
    let mut none = RetryRouter::new(config(0));
    assert_eq!(none.surfaced(&failures), Some(0));
}

#[test]
fn surfaced_is_none_while_the_budget_lasts() {
    let mut r = RetryRouter::new(config(10));
    assert_eq!(r.surfaced(&failing(4)), None);
    assert_eq!(r.attempts, 4);
    assert_eq!(r.surfaced(&Vec::new()), None);
}

#[test]
fn surfaced_stops_at_a_failure_that_no_retry_cures() {
    let mut failures = failing(2);
    failures.push(Failure {
        attempted: Some(1),
        error: MetaError::InvalidConfig("x".to_string()),
        elapsed_ms: 5,
    });
    failures.push(Failure { attempted: None, error: forward(Some(4)), elapsed_ms: 6 });
    let mut r = RetryRouter::new(config(10));
    assert_eq!(r.surfaced(&failures), Some(2));
    assert_eq!(r.cached_leader(), None);
    assert_eq!(r.attempts, 3);
}

#[test]
fn surfaced_connection_error_keeps_its_own_rendering() {
    let failures = failing(3);
    let mut r = RetryRouter::new(config(3));
    let at = r.surfaced(&failures).unwrap();
    let text = failures[at].error.message();
    assert!(text.starts_with("ConnectionError: attempt 3 source: "));
    let app = meta_service::errors::ErrorCode::from(failures[at].error.clone());
    assert_eq!(app.message(), text);
    assert_eq!(app.code(), meta_service::errors::META_SERVICE_ERROR);
    assert_ne!(failures[2].error, failures[0].error);
    assert_ne!(failures[2].error, failures[1].error);
    assert_eq!(failures[2].error.clone(), failures[2].error);
}
