use axum::http::StatusCode;
use unitycatalog::errors::{error_reply, ErrorBody, ErrorCode, ErrorFormat, UcError};

fn status(code: u16) -> StatusCode {
    StatusCode::from_u16(code).unwrap()
}

#[test]
fn uc_status_legacy_already_exists_is_400() {
    assert_eq!(status(ErrorCode::CatalogAlreadyExists.uc_status()), StatusCode::BAD_REQUEST);
    assert_eq!(status(ErrorCode::SchemaAlreadyExists.uc_status()), StatusCode::BAD_REQUEST);
    assert_eq!(status(ErrorCode::TableAlreadyExists.uc_status()), StatusCode::BAD_REQUEST);
}

#[test]
fn delta_status_legacy_already_exists_is_409() {
    assert_eq!(status(ErrorCode::CatalogAlreadyExists.delta_status()), StatusCode::CONFLICT);
    assert_eq!(status(ErrorCode::SchemaAlreadyExists.delta_status()), StatusCode::CONFLICT);
}

#[test]
fn standard_already_exists_is_409_in_both() {
    assert_eq!(status(ErrorCode::AlreadyExists.uc_status()), StatusCode::CONFLICT);
    assert_eq!(status(ErrorCode::AlreadyExists.delta_status()), StatusCode::CONFLICT);
}

#[test]
fn error_display() {
    let e = UcError::not_found("Catalog", "my_catalog");
    assert!(e.to_string().contains("NOT_FOUND"));
    assert!(e.to_string().contains("my_catalog"));
}

#[test]
fn uc_error_constructors() {
    let e = UcError::new(ErrorCode::Internal, "oops");
    assert_eq!(e.code, ErrorCode::Internal);
    assert_eq!(e.message, "oops");

    let e = UcError::already_exists("Schema", "s1");
    assert_eq!(e.code, ErrorCode::AlreadyExists);
    assert!(e.message.contains("s1"));

    let e = UcError::invalid_argument("bad input");
    assert_eq!(e.code, ErrorCode::InvalidArgument);

    let e = UcError::internal("crash");
    assert_eq!(e.code, ErrorCode::Internal);

    let e = UcError::permission_denied("no access");
    assert_eq!(e.code, ErrorCode::PermissionDenied);

    let e = UcError::unauthenticated("no token");
    assert_eq!(e.code, ErrorCode::Unauthenticated);
}

const ALL_CODES: [ErrorCode; 24] = [
    ErrorCode::InvalidArgument,
    ErrorCode::UnsupportedTableFormat,
    ErrorCode::NotFound,
    ErrorCode::CatalogNotFound,
    ErrorCode::SchemaNotFound,
    ErrorCode::TableNotFound,
    ErrorCode::AlreadyExists,
    ErrorCode::PermissionDenied,
    ErrorCode::Unauthenticated,
    ErrorCode::ResourceExhausted,
    ErrorCode::FailedPrecondition,
    ErrorCode::Aborted,
    ErrorCode::CommitVersionConflict,
    ErrorCode::UpdateRequirementConflict,
    ErrorCode::OutOfRange,
    ErrorCode::Unimplemented,
    ErrorCode::Internal,
    ErrorCode::DataLoss,
    ErrorCode::ResourceAlreadyExists,
    ErrorCode::CatalogAlreadyExists,
    ErrorCode::SchemaAlreadyExists,
    ErrorCode::TableAlreadyExists,
    ErrorCode::StorageCredentialAlreadyExists,
    ErrorCode::ExternalLocationAlreadyExists,
];

#[test]
fn all_error_codes_have_uc_status() {
    for code in &ALL_CODES {
        let s = status(code.uc_status());
        assert!(s.as_u16() >= 400, "{:?} should be 4xx/5xx", code);
    }
}

#[test]
fn all_error_codes_have_as_str() {
    let codes = [ErrorCode::InvalidArgument, ErrorCode::NotFound, ErrorCode::Internal];
    for code in &codes {
        assert!(!code.as_str().is_empty());
    }
}

#[test]
fn all_error_codes_have_delta_error_type() {
    let codes = [
        ErrorCode::CommitVersionConflict,
        ErrorCode::UpdateRequirementConflict,
        ErrorCode::Unimplemented,
        ErrorCode::DataLoss,
    ];
    for code in &codes {
        assert!(!code.delta_error_type().is_empty());
    }
}

#[test]
fn error_format_variants_exist() {
    let _ = ErrorFormat::Catalog;
    let _ = ErrorFormat::Control;
    let _ = ErrorFormat::Delta;
}

#[test]
fn delta_status_differs_from_uc_status_only_for_legacy_already_exists() {
    for code in &ALL_CODES {
        let legacy = matches!(
            code,
            ErrorCode::ResourceAlreadyExists
                | ErrorCode::CatalogAlreadyExists
                | ErrorCode::SchemaAlreadyExists
                | ErrorCode::TableAlreadyExists
                | ErrorCode::StorageCredentialAlreadyExists
                | ErrorCode::ExternalLocationAlreadyExists
        );
        assert_eq!(code.uc_status() != code.delta_status(), legacy, "{:?}", code);
    }
}

#[test]
fn error_display_is_code_then_message() {
    let e = UcError::new(ErrorCode::CommitVersionConflict, "v3 taken");
    assert_eq!(e.to_string(), "[COMMIT_VERSION_CONFLICT] v3 taken");
    assert_eq!(UcError::not_found("Catalog", "c").message, "Catalog 'c' not found");
    assert_eq!(UcError::already_exists("Schema", "s").message, "Schema 's' already exists");
}

#[test]
fn error_reply_uses_the_status_and_shape_of_each_format() {
    let (code, body) = error_reply(UcError::new(ErrorCode::CatalogAlreadyExists, "dup"), ErrorFormat::Catalog);
    assert_eq!(code, 400);
    match body {
        ErrorBody::Catalog(r) => {
            assert_eq!(r.error_code, "CATALOG_ALREADY_EXISTS");
            assert_eq!(r.message, "dup");
        },
        _ => panic!("a catalog reply has the catalog shape"),
    }
    let (code, body) = error_reply(UcError::new(ErrorCode::CatalogAlreadyExists, "dup"), ErrorFormat::Delta);
    assert_eq!(code, 409);
    match body {
        ErrorBody::Delta(d) => {
            assert_eq!(d.error.error_type, "AlreadyExistsException");
            assert_eq!(d.error.message, "dup");
        },
        _ => panic!("a delta reply has the delta shape"),
    }
}
