//! Error codes shared by every API surface, and the error value itself.

use vstd::prelude::*;

verus! {

/// One code per failure class, each with an HTTP status for the catalog API,
/// one for the Delta API, and the strings both wire formats carry.
#[derive(Debug, Clone, Copy, PartialEq, Eq, Structural)]
pub enum ErrorCode {
    InvalidArgument,
    UnsupportedTableFormat,
    NotFound,
    CatalogNotFound,
    SchemaNotFound,
    TableNotFound,
    AlreadyExists,
    PermissionDenied,
    Unauthenticated,
    ResourceExhausted,
    FailedPrecondition,
    Aborted,
    CommitVersionConflict,
    UpdateRequirementConflict,
    OutOfRange,
    Unimplemented,
    Internal,
    DataLoss,
    ResourceAlreadyExists,
    CatalogAlreadyExists,
    SchemaAlreadyExists,
    TableAlreadyExists,
    StorageCredentialAlreadyExists,
    ExternalLocationAlreadyExists,
}

/// The "already exists" codes kept from the legacy catalog API, which answers
/// them with 400 there and with 409 on the Delta API.
pub open spec fn is_legacy_already_exists(c: ErrorCode) -> bool {
    match c {
        ErrorCode::ResourceAlreadyExists
        | ErrorCode::CatalogAlreadyExists
        | ErrorCode::SchemaAlreadyExists
        | ErrorCode::TableAlreadyExists
        | ErrorCode::StorageCredentialAlreadyExists
        | ErrorCode::ExternalLocationAlreadyExists => true,
        _ => false,
    }
}

/// HTTP status of a code on the catalog and control APIs.
pub open spec fn uc_status_of(c: ErrorCode) -> u16 {
    match c {
        ErrorCode::InvalidArgument => 400,
        ErrorCode::UnsupportedTableFormat => 400,
        ErrorCode::NotFound => 404,
        ErrorCode::CatalogNotFound => 404,
        ErrorCode::SchemaNotFound => 404,
        ErrorCode::TableNotFound => 404,
        ErrorCode::AlreadyExists => 409,
        ErrorCode::PermissionDenied => 403,
        ErrorCode::Unauthenticated => 401,
        ErrorCode::ResourceExhausted => 429,
        ErrorCode::FailedPrecondition => 400,
        ErrorCode::Aborted => 409,
        ErrorCode::CommitVersionConflict => 409,
        ErrorCode::UpdateRequirementConflict => 409,
        ErrorCode::OutOfRange => 400,
        ErrorCode::Unimplemented => 501,
        ErrorCode::Internal => 500,
        ErrorCode::DataLoss => 500,
        ErrorCode::ResourceAlreadyExists => 400,
        ErrorCode::CatalogAlreadyExists => 400,
        ErrorCode::SchemaAlreadyExists => 400,
        ErrorCode::TableAlreadyExists => 400,
        ErrorCode::StorageCredentialAlreadyExists => 400,
        ErrorCode::ExternalLocationAlreadyExists => 400,
    }
}

/// HTTP status of a code on the Delta API: 409 for every "already exists"
/// code, otherwise the catalog status.
pub open spec fn delta_status_of(c: ErrorCode) -> u16 {
    if is_legacy_already_exists(c) {
        409
    } else {
        uc_status_of(c)
    }
}

/// The `errorType` of a Delta API error body.
pub open spec fn delta_error_type_of(c: ErrorCode) -> Seq<char> {
    match c {
        ErrorCode::InvalidArgument => "InvalidParameterValueException"@,
        ErrorCode::UnsupportedTableFormat => "UnsupportedTableFormatException"@,
        ErrorCode::NotFound => "NotFoundException"@,
        ErrorCode::CatalogNotFound => "NoSuchCatalogException"@,
        ErrorCode::SchemaNotFound => "NoSuchSchemaException"@,
        ErrorCode::TableNotFound => "NoSuchTableException"@,
        ErrorCode::AlreadyExists
        | ErrorCode::ResourceAlreadyExists
        | ErrorCode::CatalogAlreadyExists
        | ErrorCode::SchemaAlreadyExists
        | ErrorCode::TableAlreadyExists
        | ErrorCode::StorageCredentialAlreadyExists
        | ErrorCode::ExternalLocationAlreadyExists => "AlreadyExistsException"@,
        ErrorCode::PermissionDenied => "PermissionDeniedException"@,
        ErrorCode::Unauthenticated => "NotAuthorizedException"@,
        ErrorCode::ResourceExhausted => "ResourceExhaustedException"@,
        ErrorCode::FailedPrecondition => "InvalidParameterValueException"@,
        ErrorCode::Aborted | ErrorCode::CommitVersionConflict => "CommitVersionConflictException"@,
        ErrorCode::UpdateRequirementConflict => "UpdateRequirementConflictException"@,
        ErrorCode::OutOfRange => "BadRequestException"@,
        ErrorCode::Unimplemented => "NotImplementedException"@,
        ErrorCode::Internal | ErrorCode::DataLoss => "InternalServerErrorException"@,
    }
}

/// The `error_code` string of a catalog API error body.
pub open spec fn code_name_of(c: ErrorCode) -> Seq<char> {
    match c {
        ErrorCode::InvalidArgument => "INVALID_ARGUMENT"@,
        ErrorCode::UnsupportedTableFormat => "UNSUPPORTED_TABLE_FORMAT"@,
        ErrorCode::NotFound => "NOT_FOUND"@,
        ErrorCode::CatalogNotFound => "CATALOG_NOT_FOUND"@,
        ErrorCode::SchemaNotFound => "SCHEMA_NOT_FOUND"@,
        ErrorCode::TableNotFound => "TABLE_NOT_FOUND"@,
        ErrorCode::AlreadyExists => "ALREADY_EXISTS"@,
        ErrorCode::PermissionDenied => "PERMISSION_DENIED"@,
        ErrorCode::Unauthenticated => "UNAUTHENTICATED"@,
        ErrorCode::ResourceExhausted => "RESOURCE_EXHAUSTED"@,
        ErrorCode::FailedPrecondition => "FAILED_PRECONDITION"@,
        ErrorCode::Aborted => "ABORTED"@,
        ErrorCode::CommitVersionConflict => "COMMIT_VERSION_CONFLICT"@,
        ErrorCode::UpdateRequirementConflict => "UPDATE_REQUIREMENT_CONFLICT"@,
        ErrorCode::OutOfRange => "OUT_OF_RANGE"@,
        ErrorCode::Unimplemented => "UNIMPLEMENTED"@,
        ErrorCode::Internal => "INTERNAL"@,
        ErrorCode::DataLoss => "DATA_LOSS"@,
        ErrorCode::ResourceAlreadyExists => "RESOURCE_ALREADY_EXISTS"@,
        ErrorCode::CatalogAlreadyExists => "CATALOG_ALREADY_EXISTS"@,
        ErrorCode::SchemaAlreadyExists => "SCHEMA_ALREADY_EXISTS"@,
        ErrorCode::TableAlreadyExists => "TABLE_ALREADY_EXISTS"@,
        ErrorCode::StorageCredentialAlreadyExists => "STORAGE_CREDENTIAL_ALREADY_EXISTS"@,
        ErrorCode::ExternalLocationAlreadyExists => "EXTERNAL_LOCATION_ALREADY_EXISTS"@,
    }
}

impl ErrorCode {
    /// HTTP status for the catalog and control APIs.
    pub fn uc_status(&self) -> (s: u16)
        ensures
            s == uc_status_of(*self),
    {
        match self {
            ErrorCode::InvalidArgument => 400,
            ErrorCode::UnsupportedTableFormat => 400,
            ErrorCode::NotFound => 404,
            ErrorCode::CatalogNotFound => 404,
            ErrorCode::SchemaNotFound => 404,
            ErrorCode::TableNotFound => 404,
            ErrorCode::AlreadyExists => 409,
            ErrorCode::PermissionDenied => 403,
            ErrorCode::Unauthenticated => 401,
            ErrorCode::ResourceExhausted => 429,
            ErrorCode::FailedPrecondition => 400,
            ErrorCode::Aborted => 409,
            ErrorCode::CommitVersionConflict => 409,
            ErrorCode::UpdateRequirementConflict => 409,
            ErrorCode::OutOfRange => 400,
            ErrorCode::Unimplemented => 501,
            ErrorCode::Internal => 500,
            ErrorCode::DataLoss => 500,
            // The legacy catalog API answers these with 400.
            ErrorCode::ResourceAlreadyExists => 400,
            ErrorCode::CatalogAlreadyExists => 400,
            ErrorCode::SchemaAlreadyExists => 400,
            ErrorCode::TableAlreadyExists => 400,
            ErrorCode::StorageCredentialAlreadyExists => 400,
            ErrorCode::ExternalLocationAlreadyExists => 400,
        }
    }

    /// HTTP status for the Delta API.
    pub fn delta_status(&self) -> (s: u16)
        ensures
            s == delta_status_of(*self),
    {
        match self {
            ErrorCode::ResourceAlreadyExists
            | ErrorCode::CatalogAlreadyExists
            | ErrorCode::SchemaAlreadyExists
            | ErrorCode::TableAlreadyExists
            | ErrorCode::StorageCredentialAlreadyExists
            | ErrorCode::ExternalLocationAlreadyExists => 409,
            other => other.uc_status(),
        }
    }

    /// The Delta API `errorType` string.
    pub fn delta_error_type(&self) -> (s: &'static str)
        ensures
            s@ == delta_error_type_of(*self),
    {
        match self {
            ErrorCode::InvalidArgument => "InvalidParameterValueException",
            ErrorCode::UnsupportedTableFormat => "UnsupportedTableFormatException",
            ErrorCode::NotFound => "NotFoundException",
            ErrorCode::CatalogNotFound => "NoSuchCatalogException",
            ErrorCode::SchemaNotFound => "NoSuchSchemaException",
            ErrorCode::TableNotFound => "NoSuchTableException",
            ErrorCode::AlreadyExists
            | ErrorCode::ResourceAlreadyExists
            | ErrorCode::CatalogAlreadyExists
            | ErrorCode::SchemaAlreadyExists
            | ErrorCode::TableAlreadyExists
            | ErrorCode::StorageCredentialAlreadyExists
            | ErrorCode::ExternalLocationAlreadyExists => "AlreadyExistsException",
            ErrorCode::PermissionDenied => "PermissionDeniedException",
            ErrorCode::Unauthenticated => "NotAuthorizedException",
            ErrorCode::ResourceExhausted => "ResourceExhaustedException",
            ErrorCode::FailedPrecondition => "InvalidParameterValueException",
            ErrorCode::Aborted | ErrorCode::CommitVersionConflict => "CommitVersionConflictException",
            ErrorCode::UpdateRequirementConflict => "UpdateRequirementConflictException",
            ErrorCode::OutOfRange => "BadRequestException",
            ErrorCode::Unimplemented => "NotImplementedException",
            ErrorCode::Internal | ErrorCode::DataLoss => "InternalServerErrorException",
        }
    }

    /// The catalog API `error_code` string.
    pub fn as_str(&self) -> (s: &'static str)
        ensures
            s@ == code_name_of(*self),
    {
        match self {
            ErrorCode::InvalidArgument => "INVALID_ARGUMENT",
            ErrorCode::UnsupportedTableFormat => "UNSUPPORTED_TABLE_FORMAT",
            ErrorCode::NotFound => "NOT_FOUND",
            ErrorCode::CatalogNotFound => "CATALOG_NOT_FOUND",
            ErrorCode::SchemaNotFound => "SCHEMA_NOT_FOUND",
            ErrorCode::TableNotFound => "TABLE_NOT_FOUND",
            ErrorCode::AlreadyExists => "ALREADY_EXISTS",
            ErrorCode::PermissionDenied => "PERMISSION_DENIED",
            ErrorCode::Unauthenticated => "UNAUTHENTICATED",
            ErrorCode::ResourceExhausted => "RESOURCE_EXHAUSTED",
            ErrorCode::FailedPrecondition => "FAILED_PRECONDITION",
            ErrorCode::Aborted => "ABORTED",
            ErrorCode::CommitVersionConflict => "COMMIT_VERSION_CONFLICT",
            ErrorCode::UpdateRequirementConflict => "UPDATE_REQUIREMENT_CONFLICT",
            ErrorCode::OutOfRange => "OUT_OF_RANGE",
            ErrorCode::Unimplemented => "UNIMPLEMENTED",
            ErrorCode::Internal => "INTERNAL",
            ErrorCode::DataLoss => "DATA_LOSS",
            ErrorCode::ResourceAlreadyExists => "RESOURCE_ALREADY_EXISTS",
            ErrorCode::CatalogAlreadyExists => "CATALOG_ALREADY_EXISTS",
            ErrorCode::SchemaAlreadyExists => "SCHEMA_ALREADY_EXISTS",
            ErrorCode::TableAlreadyExists => "TABLE_ALREADY_EXISTS",
            ErrorCode::StorageCredentialAlreadyExists => "STORAGE_CREDENTIAL_ALREADY_EXISTS",
            ErrorCode::ExternalLocationAlreadyExists => "EXTERNAL_LOCATION_ALREADY_EXISTS",
        }
    }
}

/// Every code maps to a client or server error status (4xx or 5xx) on both
/// APIs.
pub proof fn lemma_every_code_is_an_error_status(c: ErrorCode)
    ensures
        400 <= uc_status_of(c) < 600,
        400 <= delta_status_of(c) < 600,
{
}

/// A code's Delta status differs from its catalog status only for the legacy
/// "already exists" codes, which are 400 on the catalog API and 409 on Delta.
pub proof fn lemma_delta_status_differs_only_for_legacy_already_exists(c: ErrorCode)
    ensures
        is_legacy_already_exists(c) ==> uc_status_of(c) == 400 && delta_status_of(c) == 409,
        !is_legacy_already_exists(c) ==> delta_status_of(c) == uc_status_of(c),
{
}

/// The not-found codes: the generic one and those naming a missing catalog,
/// schema or table.
pub open spec fn is_not_found(c: ErrorCode) -> bool {
    match c {
        ErrorCode::NotFound | ErrorCode::CatalogNotFound | ErrorCode::SchemaNotFound | ErrorCode::TableNotFound => true,
        _ => false,
    }
}

/// A request for something that does not exist is answered 404 on both the
/// catalog and the Delta API, and 404 means exactly that: no other code is
/// answered with it.
pub proof fn lemma_not_found_is_404(c: ErrorCode)
    ensures
        is_not_found(c) ==> uc_status_of(c) == 404 && delta_status_of(c) == 404,
        uc_status_of(c) == 404 <==> is_not_found(c),
        delta_status_of(c) == 404 <==> is_not_found(c),
{
}

/// Each status of the catalog API stands for one class of failure: 401 a
/// missing identity, 403 a refused one, 409 a conflict with the current state,
/// 429 an exhausted quota, 500 an internal fault, 501 an unimplemented call,
/// and 400 a request the server will not take as it stands (the legacy
/// "already exists" codes among them).
pub proof fn lemma_status_classes(c: ErrorCode)
    ensures
        uc_status_of(c) == 401 <==> c == ErrorCode::Unauthenticated,
        uc_status_of(c) == 403 <==> c == ErrorCode::PermissionDenied,
        uc_status_of(c) == 409 <==> (c == ErrorCode::AlreadyExists || c == ErrorCode::Aborted
            || c == ErrorCode::CommitVersionConflict || c == ErrorCode::UpdateRequirementConflict),
        uc_status_of(c) == 429 <==> c == ErrorCode::ResourceExhausted,
        uc_status_of(c) == 500 <==> (c == ErrorCode::Internal || c == ErrorCode::DataLoss),
        uc_status_of(c) == 501 <==> c == ErrorCode::Unimplemented,
        uc_status_of(c) == 400 <==> (c == ErrorCode::InvalidArgument || c == ErrorCode::UnsupportedTableFormat
            || c == ErrorCode::FailedPrecondition || c == ErrorCode::OutOfRange || is_legacy_already_exists(c)),
{
}

/// Every "already exists" code, the generic one and the legacy ones alike,
/// is answered 409 Conflict on the Delta API.
pub proof fn lemma_already_exists_is_conflict_on_delta(c: ErrorCode)
    ensures
        (c matches ErrorCode::AlreadyExists) || is_legacy_already_exists(c) ==> delta_status_of(c) == 409,
{
}

/// Distinct codes have distinct names, so a name on the wire identifies its
/// code.
pub proof fn lemma_code_names_are_distinct(c1: ErrorCode, c2: ErrorCode)
    requires
        c1 != c2,
    ensures
        code_name_of(c1) != code_name_of(c2),
{
    reveal_strlit("INVALID_ARGUMENT");
    reveal_strlit("UNSUPPORTED_TABLE_FORMAT");
    reveal_strlit("NOT_FOUND");
    reveal_strlit("CATALOG_NOT_FOUND");
    reveal_strlit("SCHEMA_NOT_FOUND");
    reveal_strlit("TABLE_NOT_FOUND");
    reveal_strlit("ALREADY_EXISTS");
    reveal_strlit("PERMISSION_DENIED");
    reveal_strlit("UNAUTHENTICATED");
    reveal_strlit("RESOURCE_EXHAUSTED");
    reveal_strlit("FAILED_PRECONDITION");
    reveal_strlit("ABORTED");
    reveal_strlit("COMMIT_VERSION_CONFLICT");
    reveal_strlit("UPDATE_REQUIREMENT_CONFLICT");
    reveal_strlit("OUT_OF_RANGE");
    reveal_strlit("UNIMPLEMENTED");
    reveal_strlit("INTERNAL");
    reveal_strlit("DATA_LOSS");
    reveal_strlit("RESOURCE_ALREADY_EXISTS");
    reveal_strlit("CATALOG_ALREADY_EXISTS");
    reveal_strlit("SCHEMA_ALREADY_EXISTS");
    reveal_strlit("TABLE_ALREADY_EXISTS");
    reveal_strlit("STORAGE_CREDENTIAL_ALREADY_EXISTS");
    reveal_strlit("EXTERNAL_LOCATION_ALREADY_EXISTS");
    let a = code_name_of(c1);
    let b = code_name_of(c2);
    if a == b {
        assert(a.len() == b.len());
        assert(a[0] == b[0]);
        assert(a[1] == b[1]);
        assert(a[2] == b[2]);
        assert(a[3] == b[3]);
        assert(a[4] == b[4]);
        assert(a[5] == b[5]);
        assert(a[6] == b[6]);
        assert(a[7] == b[7]);
        assert(a[8] == b[8]);
        assert(a[9] == b[9]);
        assert(false);
    }
}

/// Every code has a non-empty name and a non-empty Delta error type.
pub proof fn lemma_every_code_has_names(c: ErrorCode)
    ensures
        code_name_of(c).len() > 0,
        delta_error_type_of(c).len() > 0,
{
    match c {
        ErrorCode::InvalidArgument => { reveal_strlit("INVALID_ARGUMENT"); reveal_strlit("InvalidParameterValueException"); },
        ErrorCode::UnsupportedTableFormat => { reveal_strlit("UNSUPPORTED_TABLE_FORMAT"); reveal_strlit("UnsupportedTableFormatException"); },
        ErrorCode::NotFound => { reveal_strlit("NOT_FOUND"); reveal_strlit("NotFoundException"); },
        ErrorCode::CatalogNotFound => { reveal_strlit("CATALOG_NOT_FOUND"); reveal_strlit("NoSuchCatalogException"); },
        ErrorCode::SchemaNotFound => { reveal_strlit("SCHEMA_NOT_FOUND"); reveal_strlit("NoSuchSchemaException"); },
        ErrorCode::TableNotFound => { reveal_strlit("TABLE_NOT_FOUND"); reveal_strlit("NoSuchTableException"); },
        ErrorCode::AlreadyExists => { reveal_strlit("ALREADY_EXISTS"); reveal_strlit("AlreadyExistsException"); },
        ErrorCode::PermissionDenied => { reveal_strlit("PERMISSION_DENIED"); reveal_strlit("PermissionDeniedException"); },
        ErrorCode::Unauthenticated => { reveal_strlit("UNAUTHENTICATED"); reveal_strlit("NotAuthorizedException"); },
        ErrorCode::ResourceExhausted => { reveal_strlit("RESOURCE_EXHAUSTED"); reveal_strlit("ResourceExhaustedException"); },
        ErrorCode::FailedPrecondition => { reveal_strlit("FAILED_PRECONDITION"); reveal_strlit("InvalidParameterValueException"); },
        ErrorCode::Aborted => { reveal_strlit("ABORTED"); reveal_strlit("CommitVersionConflictException"); },
        ErrorCode::CommitVersionConflict => { reveal_strlit("COMMIT_VERSION_CONFLICT"); reveal_strlit("CommitVersionConflictException"); },
        ErrorCode::UpdateRequirementConflict => { reveal_strlit("UPDATE_REQUIREMENT_CONFLICT"); reveal_strlit("UpdateRequirementConflictException"); },
        ErrorCode::OutOfRange => { reveal_strlit("OUT_OF_RANGE"); reveal_strlit("BadRequestException"); },
        ErrorCode::Unimplemented => { reveal_strlit("UNIMPLEMENTED"); reveal_strlit("NotImplementedException"); },
        ErrorCode::Internal => { reveal_strlit("INTERNAL"); reveal_strlit("InternalServerErrorException"); },
        ErrorCode::DataLoss => { reveal_strlit("DATA_LOSS"); reveal_strlit("InternalServerErrorException"); },
        ErrorCode::ResourceAlreadyExists => { reveal_strlit("RESOURCE_ALREADY_EXISTS"); reveal_strlit("AlreadyExistsException"); },
        ErrorCode::CatalogAlreadyExists => { reveal_strlit("CATALOG_ALREADY_EXISTS"); reveal_strlit("AlreadyExistsException"); },
        ErrorCode::SchemaAlreadyExists => { reveal_strlit("SCHEMA_ALREADY_EXISTS"); reveal_strlit("AlreadyExistsException"); },
        ErrorCode::TableAlreadyExists => { reveal_strlit("TABLE_ALREADY_EXISTS"); reveal_strlit("AlreadyExistsException"); },
        ErrorCode::StorageCredentialAlreadyExists => { reveal_strlit("STORAGE_CREDENTIAL_ALREADY_EXISTS"); reveal_strlit("AlreadyExistsException"); },
        ErrorCode::ExternalLocationAlreadyExists => { reveal_strlit("EXTERNAL_LOCATION_ALREADY_EXISTS"); reveal_strlit("AlreadyExistsException"); },
    }
}

/// An error as the repositories and handlers raise it: a code and a message.
#[derive(Debug)]
pub struct UcError {
    pub code: ErrorCode,
    pub message: String,
}

/// `a` followed by `b`.
pub fn concat_str(a: String, b: &str) -> (r: String)
    ensures
        r@ == a@ + b@,
{
    a.concat(b)
}

/// The message `"{entity} '{name}' {verb}"`.
pub open spec fn quoted_message(entity: Seq<char>, name: Seq<char>, tail: Seq<char>) -> Seq<char> {
    entity + " '"@ + name + "' "@ + tail
}

impl UcError {
    pub fn new(code: ErrorCode, message: &str) -> (e: UcError)
        ensures
            e.code == code,
            e.message@ == message@,
    {
        UcError { code, message: message.to_owned() }
    }

    /// An error whose message is already built.
    pub fn with_message(code: ErrorCode, message: String) -> (e: UcError)
        ensures
            e.code == code,
            e.message == message,
    {
        UcError { code, message }
    }

    /// `NotFound` with the message `"{entity} '{name}' not found"`.
    pub fn not_found(entity: &str, name: &str) -> (e: UcError)
        ensures
            e.code == ErrorCode::NotFound,
            e.message@ == quoted_message(entity@, name@, "not found"@),
    {
        let m = concat_str(concat_str(concat_str(concat_str(entity.to_owned(), " '"), name), "' "), "not found");
        UcError { code: ErrorCode::NotFound, message: m }
    }

    /// `AlreadyExists` with the message `"{entity} '{name}' already exists"`.
    pub fn already_exists(entity: &str, name: &str) -> (e: UcError)
        ensures
            e.code == ErrorCode::AlreadyExists,
            e.message@ == quoted_message(entity@, name@, "already exists"@),
    {
        let m = concat_str(concat_str(concat_str(concat_str(entity.to_owned(), " '"), name), "' "), "already exists");
        UcError { code: ErrorCode::AlreadyExists, message: m }
    }

    pub fn invalid_argument(msg: &str) -> (e: UcError)
        ensures
            e.code == ErrorCode::InvalidArgument,
            e.message@ == msg@,
    {
        UcError::new(ErrorCode::InvalidArgument, msg)
    }

    pub fn internal(msg: &str) -> (e: UcError)
        ensures
            e.code == ErrorCode::Internal,
            e.message@ == msg@,
    {
        UcError::new(ErrorCode::Internal, msg)
    }

    pub fn permission_denied(msg: &str) -> (e: UcError)
        ensures
            e.code == ErrorCode::PermissionDenied,
            e.message@ == msg@,
    {
        UcError::new(ErrorCode::PermissionDenied, msg)
    }

    pub fn unauthenticated(msg: &str) -> (e: UcError)
        ensures
            e.code == ErrorCode::Unauthenticated,
            e.message@ == msg@,
    {
        UcError::new(ErrorCode::Unauthenticated, msg)
    }

    /// The display form `"[{error_code}] {message}"`.
    pub fn to_string(&self) -> (s: String)
        ensures
            s@ == "["@ + code_name_of(self.code) + "] "@ + self.message@,
    {
        let code = self.code.as_str();
        let mut s = "[".to_owned();
        s = concat_str(s, code);
        s = concat_str(s, "] ");
        concat_str(s, self.message.as_str())
    }
}

/// Catalog and control API error body.
pub struct ErrorResponse {
    pub error_code: String,
    pub message: String,
}

/// Delta API error body.
pub struct DeltaErrorResponse {
    pub error: DeltaErrorModel,
}

pub struct DeltaErrorModel {
    pub message: String,
    pub error_type: String,
}

/// Which wire format an error is rendered in.
#[derive(Clone, Copy, Debug, PartialEq, Eq, Structural)]
pub enum ErrorFormat {
    Catalog,
    Control,
    Delta,
}

/// The body of an error reply, in the format its API uses.
pub enum ErrorBody {
    Catalog(ErrorResponse),
    Delta(DeltaErrorResponse),
}

/// The status and body an error is answered with: the Delta format carries
/// the Delta status and error type, the catalog and control formats the
/// catalog status and code name. The message is handed on unchanged.
pub fn error_reply(err: UcError, format: ErrorFormat) -> (r: (u16, ErrorBody))
    ensures
        format == ErrorFormat::Delta ==> r.0 == delta_status_of(err.code) && match r.1 {
            ErrorBody::Delta(d) => d.error.message == err.message
                && d.error.error_type@ == delta_error_type_of(err.code),
            ErrorBody::Catalog(_) => false,
        },
        format != ErrorFormat::Delta ==> r.0 == uc_status_of(err.code) && match r.1 {
            ErrorBody::Catalog(c) => c.message == err.message
                && c.error_code@ == code_name_of(err.code),
            ErrorBody::Delta(_) => false,
        },
{
    match format {
        ErrorFormat::Delta => {
            let status = err.code.delta_status();
            let error_type = err.code.delta_error_type().to_owned();
            (status, ErrorBody::Delta(DeltaErrorResponse {
                error: DeltaErrorModel { message: err.message, error_type },
            }))
        },
        ErrorFormat::Catalog | ErrorFormat::Control => {
            let status = err.code.uc_status();
            let error_code = err.code.as_str().to_owned();
            (status, ErrorBody::Catalog(ErrorResponse { error_code, message: err.message }))
        },
    }
}

} // verus!
