//! Request and response shapes of the Delta table protocol.

use vstd::prelude::*;
use std::collections::HashMap;

verus! {

#[derive(Debug)]
pub struct DeltaCatalogConfig {
    pub endpoints: Vec<String>,
    pub protocol_version: String,
}

#[derive(Debug, Clone)]
pub struct DeltaProtocol {
    pub min_reader_version: i32,
    pub min_writer_version: i32,
    pub reader_features: Option<Vec<String>>,
    pub writer_features: Option<Vec<String>>,
}

#[derive(Debug, Clone)]
pub struct DeltaCommit {
    pub version: i64,
    pub timestamp: i64,
    pub file_name: String,
    pub file_size: i64,
    pub file_modification_timestamp: i64,
}

#[derive(Debug, Clone)]
pub struct DeltaUniformIcebergMetadata {
    pub metadata_location: Option<String>,
    pub converted_delta_version: Option<i64>,
    pub converted_delta_timestamp: Option<i64>,
    pub base_converted_delta_version: Option<i64>,
}

#[derive(Debug, Clone)]
pub struct DeltaUniformMetadata {
    pub iceberg: Option<DeltaUniformIcebergMetadata>,
}

#[derive(Debug, Clone)]
pub struct DeltaClusteringDomainMetadata {
    pub clustering_columns: Vec<Vec<String>>,
}

#[derive(Debug, Clone)]
pub struct DeltaRowTrackingDomainMetadata {
    pub row_id_high_water_mark: i64,
}

#[derive(Debug, Clone)]
pub struct DeltaDomainMetadataUpdates {
    pub clustering: Option<DeltaClusteringDomainMetadata>,
    pub row_tracking: Option<DeltaRowTrackingDomainMetadata>,
}

#[derive(Debug)]
pub struct DeltaCreateStagingTableRequest {
    pub name: String,
}

#[derive(Debug)]
pub struct DeltaRenameTableRequest {
    pub new_name: String,
}

#[derive(Debug)]
pub struct DeltaAwsCredentialConfig {
    pub aws_access_key: String,
    pub aws_secret_key: String,
    pub aws_session_token: Option<String>,
}

#[derive(Debug, Clone, Copy, PartialEq, Eq, Structural)]
pub enum DeltaCredentialOperation {
    Read,
    ReadWrite,
}

/// Delta Lake column data type.
/// Wire format: bare string for primitives ("long", "string", "decimal(10,2)"),
/// or a JSON object for compound types.
#[derive(Debug)]
pub enum DeltaDataType {
    Struct(DeltaStructType),
    Array(DeltaArrayType),
    MapType(DeltaMapType),
    /// Primitive type string: "long", "string", "boolean", "decimal(10,2)", etc.
    Primitive(String),
}

#[derive(Debug)]
pub struct DeltaStructType {
    pub type_tag: String,
    pub fields: Vec<DeltaStructField>,
}

#[derive(Debug)]
pub struct DeltaStructField {
    pub name: String,
    pub field_type: Box<DeltaDataType>,
    pub nullable: bool,
    pub metadata: Option<HashMap<String, serde_json::Value>>,
}

#[derive(Debug)]
pub struct DeltaArrayType {
    pub type_tag: String,
    pub element_type: Box<DeltaDataType>,
    pub contains_null: bool,
}

#[derive(Debug)]
pub struct DeltaMapType {
    pub type_tag: String,
    pub key_type: Box<DeltaDataType>,
    pub value_type: Box<DeltaDataType>,
    pub value_contains_null: bool,
}

#[derive(Debug)]
pub struct DeltaTableMetadata {
    pub etag: Option<String>,
    pub table_type: Option<String>,
    pub table_uuid: Option<u128>,
    pub location: Option<String>,
    pub created_time: Option<i64>,
    pub updated_time: Option<i64>,
    pub columns: Option<DeltaStructType>,
    pub partition_columns: Option<Vec<String>>,
    pub properties: Option<HashMap<String, String>>,
    pub last_commit_version: Option<i64>,
    pub last_commit_timestamp_ms: Option<i64>,
}

#[derive(Debug)]
pub struct DeltaLoadTableResponse {
    pub metadata: DeltaTableMetadata,
    pub commits: Option<Vec<DeltaCommit>>,
    pub uniform: Option<DeltaUniformMetadata>,
    pub latest_table_version: Option<i64>,
}

#[derive(Debug)]
pub struct DeltaCreateTableRequest {
    pub name: String,
    pub location: Option<String>,
    pub table_type: Option<String>,
    pub columns: Option<DeltaStructType>,
    pub partition_columns: Option<Vec<String>>,
    pub protocol: Option<DeltaProtocol>,
    pub properties: Option<HashMap<String, String>>,
    pub last_commit_timestamp_ms: Option<i64>,
    pub uniform: Option<DeltaUniformMetadata>,
}

#[derive(Debug)]
pub struct DeltaStagingTableResponse {
    pub table_id: u128,
    pub table_type: Option<String>,
    pub location: Option<String>,
    pub storage_credentials: Option<Vec<DeltaStorageCredential>>,
    pub required_protocol: Option<DeltaProtocol>,
    pub suggested_protocol: Option<DeltaProtocol>,
    pub required_properties: Option<HashMap<String, String>>,
    pub suggested_properties: Option<HashMap<String, String>>,
}

/// Optimistic concurrency requirements before applying updates.
#[derive(Debug)]
pub enum DeltaTableRequirement {
    AssertTableUuid { uuid: u128 },
    AssertEtag { etag: String },
}

/// Discriminated union of all update actions for a Delta table.
#[derive(Debug)]
pub enum DeltaTableUpdate {
    SetProperties { updates: HashMap<String, String> },

    RemoveProperties { removals: Vec<String> },

    SetColumns { columns: DeltaStructType },

    SetTableComment { comment: String },

    AddCommit {
        commit: DeltaCommit,
        uniform: Option<DeltaUniformMetadata>,
    },

    SetLatestBackfilledVersion {
        latest_published_version: i64,
    },

    SetProtocol { protocol: DeltaProtocol },

    SetDomainMetadata { updates: DeltaDomainMetadataUpdates },

    RemoveDomainMetadata { domains: Vec<String> },

    SetPartitionColumns {
        partition_columns: Vec<String>,
    },

    UpdateMetadataSnapshotVersion {
        last_commit_version: i64,
        last_commit_timestamp_ms: i64,
    },
}

#[derive(Debug)]
pub struct DeltaUpdateTableRequest {
    pub requirements: Option<Vec<DeltaTableRequirement>>,
    pub updates: Vec<DeltaTableUpdate>,
}

#[derive(Debug)]
pub struct DeltaStorageCredential {
    pub prefix: String,
    pub operation: DeltaCredentialOperation,
    pub config: Option<serde_json::Value>,
    pub expiration_time_ms: Option<i64>,
}

#[derive(Debug)]
pub struct DeltaCredentialsResponse {
    pub storage_credentials: Vec<DeltaStorageCredential>,
}

#[derive(Debug)]
pub struct DeltaReportMetricsRequest {
    pub table_id: u128,
    pub report: Option<serde_json::Value>,
}

} // verus!
