//! The closed set of failures that leave the metadata service, and the
//! conversions into it from the layers below.

use vstd::prelude::*;
use vstd::string::StringExecFns;
use crate::text::{decimal, decimal_text};

verus! {

/// Identifier of a replica, as the replication protocol hands it out.
pub type NodeId = u64;

pub type MetaResult<T> = Result<T, MetaError>;

/// `anyerror::AnyError`, a type-erased error, carried as an opaque value.
#[verifier::external_type_specification]
#[verifier::external_body]
pub struct ExAnyError(anyerror::AnyError);

/// `tonic::transport::Error`, a transport failure, carried as an opaque value.
#[verifier::external_type_specification]
#[verifier::external_body]
pub struct ExTransportError(tonic::transport::Error);

/// `serde_json::Error`, a failure to decode structured data, carried as an
/// opaque value.
#[verifier::external_type_specification]
#[verifier::external_body]
pub struct ExJsonError(serde_json::Error);

/// `std::string::FromUtf8Error`, a failure to decode bytes as text, carried
/// as an opaque value.
#[verifier::external_type_specification]
#[verifier::external_body]
pub struct ExFromUtf8Error(std::string::FromUtf8Error);

/// `Clone` of `anyerror::AnyError`: the derived field-by-field copy, so the copy
/// is the same value.
pub assume_specification[ <anyerror::AnyError as Clone>::clone ](e: &anyerror::AnyError) -> (r:
    anyerror::AnyError)
    ensures
        r == *e,
;

/// The code under which every failure of this layer that is not itself an
/// application error reaches the application.
pub const META_SERVICE_ERROR: u16 = 2001;

/// An application-level error: a numeric kind and a message.
#[derive(Debug, Clone, PartialEq, Eq)]
pub struct ErrorCode {
    pub code: u16,
    pub display_text: String,
}

/// An application-level error in the shape that crosses process boundaries.
#[derive(Debug, Clone, PartialEq, Eq)]
pub struct SerializedError {
    pub code: u16,
    pub message: String,
}

/// Why a membership change was turned down.
#[derive(Debug, Clone, Copy, PartialEq, Eq)]
pub enum MembershipRejection {
    /// Another change is still in flight.
    InProgress,
    /// The proposed membership has no member.
    EmptyMembership,
    /// A proposed voter has not been added as a learner.
    LearnerNotFound,
}

/// A rejected cluster membership change, with the protocol's own wording.
#[derive(Debug, Clone, PartialEq, Eq)]
pub struct ChangeMembershipError {
    pub reason: MembershipRejection,
    pub detail: String,
}

/// A transport failure: what was attempted, and the type-erased cause.
#[derive(Debug, Clone, PartialEq)]
pub struct ConnectionError {
    msg: String,
    source: anyerror::AnyError,
}

#[derive(Debug, Clone, PartialEq, Eq)]
pub struct InvalidMembership {}

/// The contacted replica is not the leader; `leader` is the one it knows of.
#[derive(Debug, Clone, PartialEq, Eq)]
pub struct ForwardToLeader {
    pub leader: Option<NodeId>,
}

/// A write-path failure that directs an immediate retry.
#[derive(Debug, Clone, PartialEq, Eq)]
pub enum RetryableError {
    /// Writing to a non-leader returns the latest leader that replica knows.
    ForwardToLeader { leader: NodeId },
}

/// Signal from storage that the process must stop accepting writes.
#[derive(Debug, Clone)]
pub enum ShutdownError {
    UnsafeStorageError,
}

/// What a caller can do about a failure.
#[derive(Debug, Clone, Copy, PartialEq, Eq)]
pub enum ErrorClass {
    /// Retry at the replica that the failure names.
    Redirect,
    /// Retry later: no leader is known while an election is under way.
    Backoff,
    /// Retry at the same or another replica: the transport failed.
    Transient,
    /// An application-level outcome, handed on as it is; retrying changes
    /// nothing.
    Application,
    /// Misuse or misconfiguration, for the operator to look at.
    Operator,
    /// Data that cannot be trusted: handed on, and brought to the operator's
    /// attention.
    Integrity,
}

/// Top level error a metadata node returns.
#[derive(Debug, Clone, PartialEq)]
pub enum MetaError {
    ForwardToLeader(ForwardToLeader),
    ChangeMembershipError(ChangeMembershipError),
    ConnectionError(ConnectionError),
    ErrorCode(SerializedError),
    UnknownError(String),
    InvalidConfig(String),
    MetaStoreAlreadyExists(u64),
    MetaStoreNotFound,
    SerdeJsonError(String),
    MetaStoreDamaged(String),
    BadBytes(String),
}


/// The text that `serde_json::Error` renders itself as.
pub uninterp spec fn json_rendering(error: serde_json::Error) -> Seq<char>;

/// The text that `std::string::FromUtf8Error` renders itself as.
pub uninterp spec fn utf8_rendering(error: std::string::FromUtf8Error) -> Seq<char>;

/// The text that `anyerror::AnyError` renders itself as.
pub uninterp spec fn cause_rendering(cause: anyerror::AnyError) -> Seq<char>;

/// What `anyerror::AnyError::new` makes of a transport failure.
pub uninterp spec fn erased_cause(source: tonic::transport::Error) -> anyerror::AnyError;

/// `Display` of `serde_json::Error`, as text. The text is a function of the
/// error alone; nothing more is claimed of it.
#[verifier::external_body]
fn json_error_text(error: &serde_json::Error) -> (r: String)
    ensures
        r@ == json_rendering(*error),
{
    format!("{}", error)
}

/// `Display` of `std::string::FromUtf8Error`, as text. The text is a function
/// of the error alone; nothing more is claimed of it.
#[verifier::external_body]
fn utf8_error_text(error: &std::string::FromUtf8Error) -> (r: String)
    ensures
        r@ == utf8_rendering(*error),
{
    format!("{}", error)
}

/// `anyerror::AnyError::new` on a transport failure: the cause with its type
/// erased. The erased value is a function of the failure alone (its type
/// name, its rendering and the chain of its sources); nothing more is claimed
/// of it.
#[verifier::external_body]
fn erase_transport_error(source: &tonic::transport::Error) -> (r: anyerror::AnyError)
    ensures
        r == erased_cause(*source),
{
    anyerror::AnyError::new(source)
}

/// `Display` of `anyerror::AnyError`, as text. The text is a function of the
/// value alone; nothing more is claimed of it.
#[verifier::external_body]
fn cause_text(source: &anyerror::AnyError) -> (r: String)
    ensures
        r@ == cause_rendering(*source),
{
    source.to_string()
}

/// How an optional node identifier is written in a message.
pub open spec fn leader_text(leader: Option<NodeId>) -> Seq<char> {
    match leader {
        None => "None"@,
        Some(id) => "Some("@ + decimal_text(id as nat) + ")"@,
    }
}

/// The message of a forward-to-leader failure.
pub open spec fn forward_text(leader: Option<NodeId>) -> Seq<char> {
    "ForwardToLeader: "@ + leader_text(leader)
}

/// The message of a transport failure whose cause renders as `cause`.
pub open spec fn connection_text(msg: Seq<char>, cause: Seq<char>) -> Seq<char> {
    "ConnectionError: "@ + msg + " source: "@ + cause
}

/// The message of an application error.
pub open spec fn error_code_text(code: u16, message: Seq<char>) -> Seq<char> {
    "Code: "@ + decimal_text(code as nat) + ", displayText = "@ + message + "."@
}

/// The message of a store that is already present under identity `id`.
pub open spec fn already_exists_text(id: u64) -> Seq<char> {
    "raft state present id="@ + decimal_text(id as nat) + ", can not create"@
}

/// The message of undecodable bytes whose decoding failure renders as `cause`.
pub open spec fn bad_bytes_text(cause: Seq<char>) -> Seq<char> {
    "Bad bytes, cannot parse bytes with UTF8, cause: "@ + cause
}

impl ErrorCode {
    /// An application error of kind `code`.
    pub fn create(code: u16, display_text: String) -> (r: Self)
        ensures
            r.code == code,
            r.display_text == display_text,
    {
        ErrorCode { code, display_text }
    }

    /// The application error that stands for a failure inside the metadata
    /// service.
    pub fn meta_service_error(display_text: String) -> (r: Self)
        ensures
            r.code == META_SERVICE_ERROR,
            r.display_text == display_text,
    {
        ErrorCode { code: META_SERVICE_ERROR, display_text }
    }

    pub fn code(&self) -> (r: u16)
        ensures
            r == self.code,
    {
        self.code
    }

    pub fn message(&self) -> (r: String)
        ensures
            r@ == self.display_text@,
    {
        self.display_text.clone()
    }
}

impl SerializedError {
    /// Renders the error as `Code: <code>, displayText = <message>.`.
    pub fn message(&self) -> (r: String)
        ensures
            r@ == error_code_text(self.code, self.message@),
    {
        let r = String::from_str("Code: ").concat(decimal(self.code as u64).as_str()).concat(
            ", displayText = ",
        ).concat(self.message.as_str()).concat(".");
        assert(r@ =~= error_code_text(self.code, self.message@));
        r
    }
}

impl From<ErrorCode> for SerializedError {
    fn from(e: ErrorCode) -> (r: Self) {
        SerializedError { code: e.code, message: e.display_text }
    }
}

impl vstd::std_specs::convert::FromSpecImpl<ErrorCode> for SerializedError {
    open spec fn obeys_from_spec() -> bool {
        true
    }

    open spec fn from_spec(e: ErrorCode) -> Self {
        SerializedError { code: e.code, message: e.display_text }
    }
}

impl From<SerializedError> for ErrorCode {
    fn from(e: SerializedError) -> (r: Self) {
        ErrorCode { code: e.code, display_text: e.message }
    }
}

impl vstd::std_specs::convert::FromSpecImpl<SerializedError> for ErrorCode {
    open spec fn obeys_from_spec() -> bool {
        true
    }

    open spec fn from_spec(e: SerializedError) -> Self {
        ErrorCode { code: e.code, display_text: e.message }
    }
}

impl ForwardToLeader {
    /// Renders the error as `ForwardToLeader: ` and the leader, `None` or
    /// `Some(<id>)`.
    pub fn message(&self) -> (r: String)
        ensures
            r@ == forward_text(self.leader),
    {
        let r = match self.leader {
            None => String::from_str("ForwardToLeader: ").concat("None"),
            Some(id) => String::from_str("ForwardToLeader: ").concat("Some(").concat(
                decimal(id).as_str(),
            ).concat(")"),
        };
        assert(r@ =~= forward_text(self.leader));
        r
    }
}

impl RetryableError {
    /// The leader to retry at.
    pub fn leader(&self) -> (r: NodeId)
        ensures
            self == (RetryableError::ForwardToLeader { leader: r }),
    {
        match self {
            RetryableError::ForwardToLeader { leader } => *leader,
        }
    }

    /// Renders the error as `request must be forwarded to leader: <id>`.
    pub fn message(&self) -> (r: String)
        ensures
            r@ == "request must be forwarded to leader: "@ + decimal_text(
                self->leader as nat,
            ),
    {
        String::from_str("request must be forwarded to leader: ").concat(
            decimal(self.leader()).as_str(),
        )
    }
}

impl ConnectionError {
    /// What was being attempted when the transport failed.
    pub closed spec fn msg_text(&self) -> Seq<char> {
        self.msg@
    }

    /// The type-erased cause.
    pub closed spec fn cause(&self) -> anyerror::AnyError {
        self.source
    }

    /// Captures a transport failure together with a description of the
    /// operation that met it.
    pub fn new(source: tonic::transport::Error, msg: String) -> (r: Self)
        ensures
            r.msg_text() == msg@,
            r.cause() == erased_cause(source),
    {
        let erased = erase_transport_error(&source);
        ConnectionError { msg, source: erased }
    }

    /// Puts together a transport failure whose cause is already erased, as it
    /// arrives from another process.
    pub fn with_cause(source: anyerror::AnyError, msg: String) -> (r: Self)
        ensures
            r.msg_text() == msg@,
            r.cause() == source,
    {
        ConnectionError { msg, source }
    }

    /// The type-erased cause.
    pub fn source(&self) -> (r: &anyerror::AnyError)
        ensures
            *r == self.cause(),
    {
        &self.source
    }

    /// The description of the operation that failed.
    pub fn msg(&self) -> (r: &str)
        ensures
            r@ == self.msg_text(),
    {
        self.msg.as_str()
    }

    /// The rendered message of the error.
    pub open spec fn text(&self) -> Seq<char> {
        connection_text(self.msg_text(), cause_rendering(self.cause()))
    }

    /// Renders the error as `ConnectionError: <msg> source: <cause>`, with
    /// the cause in its own rendering.
    pub fn message(&self) -> (r: String)
        ensures
            r@ == self.text(),
    {
        let cause = cause_text(&self.source);
        render_connection_error(self.msg.as_str(), cause.as_str())
    }
}

/// Renders a transport failure from its description and the text of its cause.
pub fn render_connection_error(msg: &str, cause: &str) -> (r: String)
    ensures
        r@ == connection_text(msg@, cause@),
{
    let r = String::from_str("ConnectionError: ").concat(msg).concat(" source: ").concat(cause);
    assert(r@ =~= connection_text(msg@, cause@));
    r
}

impl MetaError {
    /// The rendered message of the error.
    pub open spec fn text(&self) -> Seq<char> {
        match self {
            MetaError::ForwardToLeader(e) => forward_text(e.leader),
            MetaError::ChangeMembershipError(e) => e.detail@,
            MetaError::ConnectionError(e) => e.text(),
            MetaError::ErrorCode(e) => error_code_text(e.code, e.message@),
            MetaError::UnknownError(s) => s@,
            MetaError::InvalidConfig(s) => s@,
            MetaError::MetaStoreAlreadyExists(id) => already_exists_text(*id),
            MetaError::MetaStoreNotFound => "raft state absent, can not open"@,
            MetaError::SerdeJsonError(s) => "serde_json error: "@ + s@,
            MetaError::MetaStoreDamaged(s) => s@,
            MetaError::BadBytes(s) => s@,
        }
    }

    /// Renders the error for a reader.
    pub fn message(&self) -> (r: String)
        ensures
            r@ == self.text(),
    {
        match self {
            MetaError::ForwardToLeader(e) => e.message(),
            MetaError::ChangeMembershipError(e) => e.detail.clone(),
            MetaError::ConnectionError(e) => e.message(),
            MetaError::ErrorCode(e) => e.message(),
            MetaError::UnknownError(s) => s.clone(),
            MetaError::InvalidConfig(s) => s.clone(),
            MetaError::MetaStoreAlreadyExists(id) => {
                let r = String::from_str("raft state present id=").concat(
                    decimal(*id).as_str(),
                ).concat(", can not create");
                assert(r@ =~= already_exists_text(*id));
                r
            },
            MetaError::MetaStoreNotFound => String::from_str("raft state absent, can not open"),
            MetaError::SerdeJsonError(s) => String::from_str("serde_json error: ").concat(
                s.as_str(),
            ),
            MetaError::MetaStoreDamaged(s) => s.clone(),
            MetaError::BadBytes(s) => s.clone(),
        }
    }

    /// The class that the failure falls under.
    pub open spec fn class_of(&self) -> ErrorClass {
        match self {
            MetaError::ForwardToLeader(f) => if f.leader is Some {
                ErrorClass::Redirect
            } else {
                ErrorClass::Backoff
            },
            MetaError::ConnectionError(_) => ErrorClass::Transient,
            MetaError::ErrorCode(_) => ErrorClass::Application,
            MetaError::ChangeMembershipError(_) => ErrorClass::Application,
            MetaError::InvalidConfig(_) => ErrorClass::Application,
            MetaError::UnknownError(_) => ErrorClass::Operator,
            MetaError::MetaStoreAlreadyExists(_) => ErrorClass::Operator,
            MetaError::MetaStoreNotFound => ErrorClass::Operator,
            MetaError::SerdeJsonError(_) => ErrorClass::Integrity,
            MetaError::BadBytes(_) => ErrorClass::Integrity,
            MetaError::MetaStoreDamaged(_) => ErrorClass::Integrity,
        }
    }

    /// Says what a caller can do about the failure.
    pub fn classify(&self) -> (r: ErrorClass)
        ensures
            r == self.class_of(),
    {
        match self {
            MetaError::ForwardToLeader(f) => match f.leader {
                Some(_) => ErrorClass::Redirect,
                None => ErrorClass::Backoff,
            },
            MetaError::ConnectionError(_) => ErrorClass::Transient,
            MetaError::ErrorCode(_) | MetaError::ChangeMembershipError(_) | MetaError::InvalidConfig(
                _,
            ) => ErrorClass::Application,
            MetaError::UnknownError(_) | MetaError::MetaStoreAlreadyExists(_)
            | MetaError::MetaStoreNotFound => ErrorClass::Operator,
            MetaError::SerdeJsonError(_) | MetaError::BadBytes(_) | MetaError::MetaStoreDamaged(
                _,
            ) => ErrorClass::Integrity,
        }
    }

    /// The form of the error that directs an immediate retry: there is one
    /// exactly when the error forwards to a leader that it names.
    pub fn as_retryable(&self) -> (r: Option<RetryableError>)
        ensures
            match r {
                Some(retry) => self is ForwardToLeader && self->ForwardToLeader_0.leader == Some(
                    retry->leader,
                ),
                None => !(self is ForwardToLeader) || self->ForwardToLeader_0.leader is None,
            },
    {
        match self {
            MetaError::ForwardToLeader(forward) => match forward.leader {
                Some(leader) => Some(RetryableError::ForwardToLeader { leader }),
                None => None,
            },
            _ => None,
        }
    }

    /// The failure of decoding bytes as text, where `cause` is the text of the
    /// decoder's complaint.
    pub fn bad_bytes(cause: &str) -> (r: Self)
        ensures
            r is BadBytes,
            r->BadBytes_0@ == bad_bytes_text(cause@),
    {
        MetaError::BadBytes(
            String::from_str("Bad bytes, cannot parse bytes with UTF8, cause: ").concat(cause),
        )
    }

    /// An application error as it travels through this layer.
    pub open spec fn wrap(e: ErrorCode) -> Self {
        MetaError::ErrorCode(SerializedError { code: e.code, message: e.display_text })
    }

    /// Whether `app` is what the application sees of `self`: an application
    /// error comes back as it went in, every other failure as a metadata
    /// service error that carries the rendered message.
    pub open spec fn surfaces_as(self, app: ErrorCode) -> bool {
        match self {
            MetaError::ErrorCode(e) => app == (ErrorCode { code: e.code, display_text: e.message }),
            _ => app.code == META_SERVICE_ERROR && app.display_text@ == self.text(),
        }
    }
}

impl From<ErrorCode> for MetaError {
    fn from(e: ErrorCode) -> (r: Self) {
        MetaError::ErrorCode(SerializedError::from(e))
    }
}

impl vstd::std_specs::convert::FromSpecImpl<ErrorCode> for MetaError {
    open spec fn obeys_from_spec() -> bool {
        true
    }

    open spec fn from_spec(e: ErrorCode) -> Self {
        MetaError::wrap(e)
    }
}

impl From<MetaError> for ErrorCode {
    fn from(e: MetaError) -> (r: Self)
        ensures
            e.surfaces_as(r),
    {
        match e {
            MetaError::ErrorCode(inner) => ErrorCode::from(inner),
            _ => ErrorCode::meta_service_error(e.message()),
        }
    }
}

impl vstd::std_specs::convert::FromSpecImpl<MetaError> for ErrorCode {
    open spec fn obeys_from_spec() -> bool {
        false
    }

    open spec fn from_spec(e: MetaError) -> Self {
        arbitrary()
    }
}

impl From<ForwardToLeader> for MetaError {
    fn from(e: ForwardToLeader) -> (r: Self) {
        MetaError::ForwardToLeader(e)
    }
}

impl vstd::std_specs::convert::FromSpecImpl<ForwardToLeader> for MetaError {
    open spec fn obeys_from_spec() -> bool {
        true
    }

    open spec fn from_spec(e: ForwardToLeader) -> Self {
        MetaError::ForwardToLeader(e)
    }
}

impl From<ChangeMembershipError> for MetaError {
    fn from(e: ChangeMembershipError) -> (r: Self) {
        MetaError::ChangeMembershipError(e)
    }
}

impl vstd::std_specs::convert::FromSpecImpl<ChangeMembershipError> for MetaError {
    open spec fn obeys_from_spec() -> bool {
        true
    }

    open spec fn from_spec(e: ChangeMembershipError) -> Self {
        MetaError::ChangeMembershipError(e)
    }
}

impl From<ConnectionError> for MetaError {
    fn from(e: ConnectionError) -> (r: Self) {
        MetaError::ConnectionError(e)
    }
}

impl vstd::std_specs::convert::FromSpecImpl<ConnectionError> for MetaError {
    open spec fn obeys_from_spec() -> bool {
        true
    }

    open spec fn from_spec(e: ConnectionError) -> Self {
        MetaError::ConnectionError(e)
    }
}

impl From<SerializedError> for MetaError {
    fn from(e: SerializedError) -> (r: Self) {
        MetaError::ErrorCode(e)
    }
}

impl vstd::std_specs::convert::FromSpecImpl<SerializedError> for MetaError {
    open spec fn obeys_from_spec() -> bool {
        true
    }

    open spec fn from_spec(e: SerializedError) -> Self {
        MetaError::ErrorCode(e)
    }
}

impl From<RetryableError> for MetaError {
    fn from(e: RetryableError) -> (r: Self) {
        match e {
            RetryableError::ForwardToLeader { leader } => MetaError::ForwardToLeader(
                ForwardToLeader { leader: Some(leader) },
            ),
        }
    }
}

impl vstd::std_specs::convert::FromSpecImpl<RetryableError> for MetaError {
    open spec fn obeys_from_spec() -> bool {
        true
    }

    open spec fn from_spec(e: RetryableError) -> Self {
        MetaError::ForwardToLeader(ForwardToLeader { leader: Some(e->leader) })
    }
}

impl From<serde_json::Error> for MetaError {
    fn from(error: serde_json::Error) -> (r: Self)
        ensures
            r is SerdeJsonError,
            r->SerdeJsonError_0@ == json_rendering(error),
    {
        MetaError::SerdeJsonError(json_error_text(&error))
    }
}

impl vstd::std_specs::convert::FromSpecImpl<serde_json::Error> for MetaError {
    open spec fn obeys_from_spec() -> bool {
        false
    }

    open spec fn from_spec(error: serde_json::Error) -> Self {
        arbitrary()
    }
}

impl From<std::string::FromUtf8Error> for MetaError {
    fn from(error: std::string::FromUtf8Error) -> (r: Self)
        ensures
            r is BadBytes,
            r->BadBytes_0@ == bad_bytes_text(utf8_rendering(error)),
    {
        let cause = utf8_error_text(&error);
        MetaError::bad_bytes(cause.as_str())
    }
}

impl vstd::std_specs::convert::FromSpecImpl<std::string::FromUtf8Error> for MetaError {
    open spec fn obeys_from_spec() -> bool {
        false
    }

    open spec fn from_spec(error: std::string::FromUtf8Error) -> Self {
        arbitrary()
    }
}

/// An application error that enters the taxonomy and leaves it again is
/// unchanged.
pub proof fn lemma_error_code_round_trip(e: ErrorCode, back: ErrorCode)
    requires
        MetaError::wrap(e).surfaces_as(back),
    ensures
        back == e,
{
}

/// Equal errors reach the application alike, on every replica and in every
/// process: with the same code and the same message.
pub proof fn lemma_equal_errors_surface_alike(
    one: MetaError,
    other: MetaError,
    app_one: ErrorCode,
    app_other: ErrorCode,
)
    requires
        one == other,
        one.surfaces_as(app_one),
        other.surfaces_as(app_other),
    ensures
        app_one.code == app_other.code,
        app_one.display_text@ == app_other.display_text@,
{
}

} // verus!
