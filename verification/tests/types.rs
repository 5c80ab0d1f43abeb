use unitycatalog::types::{Privilege, SecurableType, TokenType, UriScheme};

#[test]
fn privilege_casbin_round_trip() {
    let privs = [
        Privilege::Owner,
        Privilege::UseCatalog,
        Privilege::CreateTable,
        Privilege::WriteFiles,
        Privilege::CreateStorageCredential,
    ];
    for p in &privs {
        let s = p.as_casbin_str();
        let back = Privilege::from_casbin_str(s).unwrap();
        assert_eq!(*p, back, "round-trip failed for {:?}", p);
    }
}

#[test]
fn uri_scheme_detection() {
    assert_eq!(UriScheme::from_url("s3://my-bucket/path"), UriScheme::S3);
    assert_eq!(UriScheme::from_url("s3a://bucket/path"), UriScheme::S3);
    assert_eq!(UriScheme::from_url("abfs://container@account"), UriScheme::Abfs);
    assert_eq!(UriScheme::from_url("abfss://container@account"), UriScheme::Abfss);
    assert_eq!(UriScheme::from_url("gs://bucket/path"), UriScheme::Gs);
    assert_eq!(UriScheme::from_url("/local/path"), UriScheme::File);
    assert_eq!(UriScheme::from_url("file:///local/path"), UriScheme::File);
    assert_eq!(UriScheme::from_url("unknown://x"), UriScheme::Null);
}

const ALL: [Privilege; 21] = [
    Privilege::Owner,
    Privilege::AllPrivileges,
    Privilege::CreateCatalog,
    Privilege::UseCatalog,
    Privilege::CreateSchema,
    Privilege::UseSchema,
    Privilege::CreateTable,
    Privilege::Select,
    Privilege::Modify,
    Privilege::CreateFunction,
    Privilege::Execute,
    Privilege::CreateVolume,
    Privilege::ReadVolume,
    Privilege::CreateModel,
    Privilege::CreateExternalLocation,
    Privilege::ReadFiles,
    Privilege::WriteFiles,
    Privilege::CreateExternalTable,
    Privilege::CreateExternalVolume,
    Privilege::CreateManagedStorage,
    Privilege::CreateStorageCredential,
];

#[test]
fn all_privileges_round_trip_casbin() {
    for p in &ALL {
        let s = p.as_casbin_str();
        let back = Privilege::from_casbin_str(s)
            .unwrap_or_else(|| panic!("from_casbin_str failed for {:?} -> '{}'", p, s));
        assert_eq!(*p, back);
    }
}

#[test]
fn hierarchy_edges_link_owner_all_and_specifics() {
    let edges = Privilege::hierarchy_edges();
    assert!(edges.contains(&("OWNER", "ALL_PRIVILEGES")));
    assert!(edges.contains(&("ALL_PRIVILEGES", "SELECT")));
    assert!(edges.contains(&("ALL_PRIVILEGES", "MODIFY")));
    assert!(edges.contains(&("ALL_PRIVILEGES", "READ_VOLUME")));
    assert_eq!(edges.len(), 1 + Privilege::specific().len());
    assert!(!Privilege::specific().contains(&Privilege::Owner));
    assert!(!Privilege::specific().contains(&Privilege::AllPrivileges));
}

#[test]
fn from_casbin_str_unknown_returns_none() {
    assert!(Privilege::from_casbin_str("UNKNOWN_PRIV").is_none());
    assert!(Privilege::from_casbin_str("").is_none());
}

#[test]
fn securable_type_from_str() {
    assert!(matches!(SecurableType::parse("CATALOG"), Some(SecurableType::Catalog)));
    assert!(matches!(SecurableType::parse("catalog"), Some(SecurableType::Catalog)));
    assert!(matches!(SecurableType::parse("SCHEMA"), Some(SecurableType::Schema)));
    assert!(matches!(SecurableType::parse("TABLE"), Some(SecurableType::Table)));
    assert!(matches!(SecurableType::parse("VOLUME"), Some(SecurableType::Volume)));
    assert!(matches!(SecurableType::parse("FUNCTION"), Some(SecurableType::Function)));
    assert!(matches!(SecurableType::parse("MODEL"), Some(SecurableType::RegisteredModel)));
    assert!(matches!(SecurableType::parse("REGISTERED_MODEL"), Some(SecurableType::RegisteredModel)));
    assert!(matches!(SecurableType::parse("METASTORE"), Some(SecurableType::Metastore)));
    assert!(matches!(SecurableType::parse("EXTERNAL_LOCATION"), Some(SecurableType::ExternalLocation)));
    assert!(matches!(SecurableType::parse("STORAGE_CREDENTIAL"), Some(SecurableType::StorageCredential)));
    assert!(SecurableType::parse("UNKNOWN").is_none());
}

#[test]
fn token_type_variants_exist() {
    let access = TokenType::Access;
    let service = TokenType::Service;
    assert!(access != service);
}

#[test]
fn casbin_names_are_the_upper_snake_names() {
    assert_eq!(Privilege::CreateStorageCredential.as_casbin_str(), "CREATE_STORAGE_CREDENTIAL");
    assert_eq!(Privilege::AllPrivileges.as_casbin_str(), "ALL_PRIVILEGES");
    assert_eq!(Privilege::specific().len(), 19);
    for p in Privilege::specific() {
        assert!(Privilege::hierarchy_edges().contains(&("ALL_PRIVILEGES", p.as_casbin_str())));
    }
}
