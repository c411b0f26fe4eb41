use meta_service::errors::ChangeMembershipError;
use meta_service::errors::ConnectionError;
use meta_service::errors::ErrorClass;
use meta_service::errors::ErrorCode;
use meta_service::errors::ForwardToLeader;
use meta_service::errors::InvalidMembership;
use meta_service::errors::MembershipRejection;
use meta_service::errors::MetaError;
use meta_service::errors::RetryableError;
use meta_service::errors::SerializedError;
use meta_service::errors::ShutdownError;
use meta_service::errors::render_connection_error;
use meta_service::errors::META_SERVICE_ERROR;
use meta_service::text::decimal;

fn transport_error(uri: &str) -> tonic::transport::Error {
    match tonic::transport::Endpoint::from_shared(uri.to_string()) {
        Ok(_) => panic!("expected an invalid uri"),
        Err(e) => e,
    }
}

#[test]
fn decimal_of_small_and_large_numbers() {
    assert_eq!(decimal(0), "0");
    assert_eq!(decimal(7), "7");
    assert_eq!(decimal(10), "10");
    assert_eq!(decimal(2001), "2001");
    assert_eq!(decimal(u64::MAX), "18446744073709551615");
}

#[test]
fn forward_to_leader_message() {
    assert_eq!(ForwardToLeader { leader: Some(3) }.message(), "ForwardToLeader: Some(3)");
    assert_eq!(ForwardToLeader { leader: None }.message(), "ForwardToLeader: None");
    assert_eq!(
        MetaError::ForwardToLeader(ForwardToLeader { leader: Some(12) }).message(),
        "ForwardToLeader: Some(12)"
    );
}

#[test]
fn retryable_error_message_and_leader() {
    let e = RetryableError::ForwardToLeader { leader: 42 };
    assert_eq!(e.leader(), 42);
    assert_eq!(e.message(), "request must be forwarded to leader: 42");
}

#[test]
fn plain_variants_render_their_text() {
    assert_eq!(MetaError::UnknownError("boom".to_string()).message(), "boom");
    assert_eq!(MetaError::InvalidConfig("bad flag".to_string()).message(), "bad flag");
    assert_eq!(MetaError::MetaStoreDamaged("crc".to_string()).message(), "crc");
    assert_eq!(MetaError::BadBytes("bytes".to_string()).message(), "bytes");
    assert_eq!(
        MetaError::SerdeJsonError("eof".to_string()).message(),
        "serde_json error: eof"
    );
    assert_eq!(
        MetaError::MetaStoreAlreadyExists(5).message(),
        "raft state present id=5, can not create"
    );
    assert_eq!(MetaError::MetaStoreNotFound.message(), "raft state absent, can not open");
}

#[test]
fn membership_error_renders_its_detail() {
    let e = MetaError::ChangeMembershipError(ChangeMembershipError {
        reason: MembershipRejection::EmptyMembership,
        detail: "new membership can not be empty".to_string(),
    });
    assert_eq!(e.message(), "new membership can not be empty");
}

#[test]
fn serialized_error_message() {
    let e = SerializedError { code: 1006, message: "table exists".to_string() };
    assert_eq!(e.message(), "Code: 1006, displayText = table exists.");
    assert_eq!(
        MetaError::ErrorCode(e).message(),
        "Code: 1006, displayText = table exists."
    );
}

#[test]
fn error_code_enters_as_error_code_variant() {
    let e = ErrorCode::create(1006, "table exists".to_string());
    assert_eq!(e.code(), 1006);
    assert_eq!(e.message(), "table exists");
    let m = MetaError::from(e);
    assert_eq!(
        m,
        MetaError::ErrorCode(SerializedError { code: 1006, message: "table exists".to_string() })
    );
}

#[test]
fn error_code_round_trip_is_identity() {
    let e = ErrorCode::create(1006, "table exists".to_string());
    let back = ErrorCode::from(MetaError::from(e.clone()));
    assert_eq!(back, e);
    let empty = ErrorCode::create(0, String::new());
    assert_eq!(ErrorCode::from(MetaError::from(empty.clone())), empty);
}

#[test]
fn other_variants_surface_as_meta_service_error() {
    let back = ErrorCode::from(MetaError::MetaStoreAlreadyExists(9));
    assert_eq!(
        back,
        ErrorCode::meta_service_error("raft state present id=9, can not create".to_string())
    );
    assert_eq!(back.code(), META_SERVICE_ERROR);
    let back = ErrorCode::from(MetaError::ForwardToLeader(ForwardToLeader { leader: None }));
    assert_eq!(back.message(), "ForwardToLeader: None");
    assert_eq!(back.code(), META_SERVICE_ERROR);
}

#[test]
fn json_failure_becomes_serde_json_error() {
    let parsed: Result<serde_json::Value, serde_json::Error> = serde_json::from_str("{");
    let error = match parsed {
        Ok(_) => panic!("expected a parse failure"),
        Err(e) => e,
    };
    let text = format!("{}", error);
    assert!(!text.is_empty());
    assert_eq!(MetaError::from(error), MetaError::SerdeJsonError(text));
}

#[test]
fn invalid_utf8_becomes_bad_bytes() {
    let error = match String::from_utf8(vec![0x66, 0xff]) {
        Ok(_) => panic!("expected invalid bytes"),
        Err(e) => e,
    };
    let text = format!("Bad bytes, cannot parse bytes with UTF8, cause: {}", error);
    assert_eq!(MetaError::from(error), MetaError::BadBytes(text));
}

#[test]
fn bad_bytes_has_the_fixed_prefix() {
    assert_eq!(
        MetaError::bad_bytes("x"),
        MetaError::BadBytes("Bad bytes, cannot parse bytes with UTF8, cause: x".to_string())
    );
}

#[test]
fn connection_error_keeps_message_and_cause() {
    let e = ConnectionError::new(transport_error(""), "connect to 10.0.0.1".to_string());
    assert_eq!(e.msg(), "connect to 10.0.0.1");
    let cause = anyerror::AnyError::new(&transport_error("")).to_string();
    assert!(cause.starts_with("tonic::transport::"));
    assert_eq!(
        e.message(),
        format!("ConnectionError: connect to 10.0.0.1 source: {}", cause)
    );
    assert_eq!(MetaError::ConnectionError(e.clone()).message(), e.message());
}

#[test]
fn connection_errors_compare_by_content() {
    let a = ConnectionError::new(transport_error(""), "dial".to_string());
    let b = ConnectionError::new(transport_error(""), "dial".to_string());
    let c = ConnectionError::new(transport_error(""), "call".to_string());
    assert_eq!(a, b);
    assert_ne!(a, c);
    assert_eq!(a.clone(), a);
}

#[test]
fn connection_error_surfaces_with_its_rendering() {
    let e = ConnectionError::new(transport_error(""), "dial".to_string());
    let text = e.message();
    let back = ErrorCode::from(MetaError::ConnectionError(e));
    assert_eq!(back, ErrorCode::meta_service_error(text));
}

#[test]
fn render_connection_error_joins_its_parts() {
    assert_eq!(
        render_connection_error("dial", "refused"),
        "ConnectionError: dial source: refused"
    );
}

#[test]
fn unit_like_errors_exist() {
    assert_eq!(InvalidMembership {}, InvalidMembership {});
    let s = ShutdownError::UnsafeStorageError;
    assert!(matches!(s.clone(), ShutdownError::UnsafeStorageError));
}

#[test]
fn only_a_named_leader_directs_a_retry() {
    let named = MetaError::ForwardToLeader(ForwardToLeader { leader: Some(3) });
    assert_eq!(named.as_retryable(), Some(RetryableError::ForwardToLeader { leader: 3 }));
    let unnamed = MetaError::ForwardToLeader(ForwardToLeader { leader: None });
    assert_eq!(unnamed.as_retryable(), None);
    assert_eq!(MetaError::MetaStoreNotFound.as_retryable(), None);
    assert_eq!(MetaError::from(RetryableError::ForwardToLeader { leader: 3 }), named);
}

#[test]
fn connection_error_from_an_erased_cause() {
    let cause = anyerror::AnyError::error("refused");
    let e = ConnectionError::with_cause(cause.clone(), "dial".to_string());
    assert_eq!(e.source(), &cause);
    assert_eq!(e.msg(), "dial");
    assert_eq!(e.message(), "ConnectionError: dial source: refused");
}

#[test]
fn every_variant_has_its_class() {
    let forward = |leader| MetaError::ForwardToLeader(ForwardToLeader { leader });
    assert_eq!(forward(Some(1)).classify(), ErrorClass::Redirect);
    assert_eq!(forward(None).classify(), ErrorClass::Backoff);
    let transport = ConnectionError::new(transport_error(""), "dial".to_string());
    assert_eq!(MetaError::ConnectionError(transport).classify(), ErrorClass::Transient);
    let code = SerializedError { code: 1006, message: "exists".to_string() };
    assert_eq!(MetaError::ErrorCode(code).classify(), ErrorClass::Application);
    let membership = ChangeMembershipError {
        reason: MembershipRejection::InProgress,
        detail: "in progress".to_string(),
    };
    assert_eq!(MetaError::ChangeMembershipError(membership).classify(), ErrorClass::Application);
    assert_eq!(MetaError::InvalidConfig("x".to_string()).classify(), ErrorClass::Application);
    assert_eq!(MetaError::UnknownError("x".to_string()).classify(), ErrorClass::Operator);
    assert_eq!(MetaError::MetaStoreAlreadyExists(1).classify(), ErrorClass::Operator);
    assert_eq!(MetaError::MetaStoreNotFound.classify(), ErrorClass::Operator);
    assert_eq!(MetaError::SerdeJsonError("x".to_string()).classify(), ErrorClass::Integrity);
    assert_eq!(MetaError::BadBytes("x".to_string()).classify(), ErrorClass::Integrity);
    assert_eq!(MetaError::MetaStoreDamaged("x".to_string()).classify(), ErrorClass::Integrity);
}

#[test]
fn json_failure_keeps_its_whole_text_without_a_prefix() {
    let parsed: Result<u64, serde_json::Error> = serde_json::from_str("");
    let error = match parsed {
        Ok(_) => panic!("expected a parse failure"),
        Err(e) => e,
    };
    assert_eq!(
        MetaError::from(error),
        MetaError::SerdeJsonError("EOF while parsing a value at line 1 column 0".to_string())
    );
}

#[test]
fn equal_failures_convert_to_equal_errors() {
    let parse = || match serde_json::from_str::<u64>("[") {
        Ok(_) => panic!("expected a parse failure"),
        Err(e) => e,
    };
    assert_eq!(MetaError::from(parse()), MetaError::from(parse()));
    let decode = || match String::from_utf8(vec![0xc3, 0x28]) {
        Ok(_) => panic!("expected invalid bytes"),
        Err(e) => e,
    };
    assert_eq!(MetaError::from(decode()), MetaError::from(decode()));
    let a = MetaError::ConnectionError(ConnectionError::new(transport_error(""), "dial".to_string()));
    let b = MetaError::ConnectionError(ConnectionError::new(transport_error(""), "dial".to_string()));
    assert_eq!(ErrorCode::from(a), ErrorCode::from(b));
}

#[test]
fn sub_errors_convert_into_their_variants() {
    let forward = ForwardToLeader { leader: Some(2) };
    assert_eq!(MetaError::from(forward.clone()), MetaError::ForwardToLeader(forward));
    let membership = ChangeMembershipError {
        reason: MembershipRejection::LearnerNotFound,
        detail: "Learner 4 not found".to_string(),
    };
    assert_eq!(
        MetaError::from(membership.clone()),
        MetaError::ChangeMembershipError(membership)
    );
    let transport = ConnectionError::new(transport_error(""), "dial".to_string());
    assert_eq!(MetaError::from(transport.clone()), MetaError::ConnectionError(transport));
    let code = SerializedError { code: 7, message: "m".to_string() };
    assert_eq!(MetaError::from(code.clone()), MetaError::ErrorCode(code));
}

#[test]
fn connection_error_holds_the_erased_transport_failure() {
    let e = ConnectionError::new(transport_error(""), "dial".to_string());
    assert_eq!(e.source(), &anyerror::AnyError::new(&transport_error("")));
    assert_eq!(
        e.message(),
        format!("ConnectionError: dial source: {}", anyerror::AnyError::new(&transport_error("")))
    );
}
