//! Request and response shapes of the catalog REST API.

use vstd::prelude::*;
use std::collections::HashMap;

verus! {

/// Unicode White_Space: the characters `str::trim` removes.
pub open spec fn is_white_space(c: char) -> bool {
    let n = c as u32;
    (0x9 <= n <= 0xd) || n == 0x20 || n == 0x85 || n == 0xa0 || n == 0x1680 || (0x2000 <= n <= 0x200a) || n == 0x2028
        || n == 0x2029 || n == 0x202f || n == 0x205f || n == 0x3000
}

fn white_space(c: char) -> (r: bool)
    ensures
        r == is_white_space(c),
{
    let n = c as u32;
    (0x9 <= n && n <= 0xd) || n == 0x20 || n == 0x85 || n == 0xa0 || n == 0x1680 || (0x2000 <= n && n <= 0x200a)
        || n == 0x2028 || n == 0x2029 || n == 0x202f || n == 0x205f || n == 0x3000
}

/// `s` without its leading white space.
pub open spec fn trim_start_of(s: Seq<char>) -> Seq<char>
    decreases s.len(),
{
    if s.len() > 0 && is_white_space(s[0]) {
        trim_start_of(s.drop_first())
    } else {
        s
    }
}

/// `s` without its trailing white space.
pub open spec fn trim_end_of(s: Seq<char>) -> Seq<char>
    decreases s.len(),
{
    if s.len() > 0 && is_white_space(s.last()) {
        trim_end_of(s.drop_last())
    } else {
        s
    }
}

/// What `str::trim` leaves of a string: the text without its leading and
/// trailing white space.
pub open spec fn trimmed_of(s: Seq<char>) -> Seq<char> {
    trim_end_of(trim_start_of(s))
}

fn trim_str(s: &str) -> (r: String)
    ensures
        r@ == trimmed_of(s@),
{
    let v = crate::text::chars_of(s);
    let n = v.len();
    let mut a: usize = 0;
    assert(v@.subrange(0, n as int) =~= v@);
    while a < n && white_space(v[a])
        invariant
            a <= n == v@.len(),
            trim_start_of(v@) == trim_start_of(v@.subrange(a as int, n as int)),
        decreases n - a,
    {
        assert(v@.subrange(a as int, n as int).drop_first() =~= v@.subrange(a as int + 1, n as int));
        a = a + 1;
    }
    let ghost t = v@.subrange(a as int, n as int);
    assert(trim_start_of(v@) == t) by {
        if a < n {
            assert(t[0] == v@[a as int]);
        }
    }
    let mut b: usize = n;
    while b > a && white_space(v[b - 1])
        invariant
            a <= b <= n == v@.len(),
            trim_start_of(v@) == t,
            t == v@.subrange(a as int, n as int),
            trim_end_of(t) == trim_end_of(v@.subrange(a as int, b as int)),
        decreases b - a,
    {
        assert(v@.subrange(a as int, b as int).drop_last() =~= v@.subrange(a as int, b as int - 1));
        b = b - 1;
    }
    let ghost u = v@.subrange(a as int, b as int);
    assert(trim_end_of(u) == u) by {
        if b > a {
            assert(u.last() == v@[b as int - 1]);
        }
    }
    let mid = crate::text::slice_to(crate::text::slice_from(v.as_slice(), a).as_slice(), b - a);
    assert(mid@ =~= u);
    crate::text::string_of(mid.as_slice())
}

/// Whether a trimmed properties string stands for no properties: empty, an
/// empty JSON object, or that object quoted. Some clients send properties as
/// such a string rather than as an object.
pub open spec fn blank_properties_of(t: Seq<char>) -> bool {
    t == Seq::<char>::empty() || t == "{}"@ || t == "\"{}\""@
}

pub fn is_blank_properties(trimmed: &str) -> (r: bool)
    ensures
        r == blank_properties_of(trimmed@),
{
    proof {
        reveal_strlit("");
    }
    let empty = crate::text::str_eq(trimmed, "");
    let object = crate::text::str_eq(trimmed, "{}");
    let quoted = crate::text::str_eq(trimmed, "\"{}\"");
    assert(""@ == Seq::<char>::empty());
    empty || object || quoted
}

/// Whether a properties string, once trimmed, stands for no properties; any
/// other string is parsed as a JSON object of strings.
pub fn blank_properties(s: &str) -> (r: bool)
    ensures
        r == blank_properties_of(trimmed_of(s@)),
{
    let t = trim_str(s);
    is_blank_properties(t.as_str())
}

#[derive(Debug)]
pub struct CreateCatalog {
    pub name: String,
    pub comment: Option<String>,
    pub properties: Option<HashMap<String, String>>,
    pub storage_root: Option<String>,
}

#[derive(Debug)]
pub struct UpdateCatalog {
    pub new_name: Option<String>,
    pub comment: Option<String>,
    pub properties: Option<HashMap<String, String>>,
    pub owner: Option<String>,
}

#[derive(Debug)]
pub struct CreateSchema {
    pub name: String,
    pub catalog_name: String,
    pub comment: Option<String>,
    pub properties: Option<HashMap<String, String>>,
    pub storage_root: Option<String>,
}

#[derive(Debug)]
pub struct UpdateSchema {
    pub new_name: Option<String>,
    pub comment: Option<String>,
    pub properties: Option<HashMap<String, String>>,
    pub owner: Option<String>,
}

#[derive(Debug, Clone, Copy, PartialEq, Eq, Structural)]
pub enum TableType {
    Managed,
    External,
    StreamingTable,
    MaterializedView,
    MetricView,
}

#[derive(Debug, Clone, Copy, PartialEq, Eq, Structural)]
pub enum DataSourceFormat {
    Delta,
    Csv,
    Json,
    Avro,
    Parquet,
    Orc,
    Text,
    UnityCatalog,
}

#[derive(Debug, Clone, Copy, PartialEq, Eq, Structural)]
pub enum ColumnTypeName {
    Boolean,
    Byte,
    Short,
    Int,
    Long,
    Float,
    Double,
    Date,
    Timestamp,
    TimestampNtz,
    String,
    Binary,
    Decimal,
    Interval,
    Array,
    Struct,
    MapType,
    Variant,
    Char,
    Null,
    UserDefinedType,
    TableType,
}

#[derive(Debug, Clone)]
pub struct ColumnInfo {
    pub name: String,
    pub type_text: Option<String>,
    pub type_json: Option<String>,
    pub type_name_str: Option<ColumnTypeName>,
    pub type_precision: Option<i32>,
    pub type_scale: Option<i32>,
    pub type_interval_type: Option<String>,
    pub position: Option<i32>,
    pub comment: Option<String>,
    pub nullable: Option<bool>,
    pub partition_index: Option<i32>,
}

#[derive(Debug)]
pub struct CreateTable {
    pub name: String,
    pub catalog_name: String,
    pub schema_name: String,
    pub table_type: TableType,
    pub data_source_format: Option<DataSourceFormat>,
    pub columns: Option<Vec<ColumnInfo>>,
    pub storage_location: Option<String>,
    pub comment: Option<String>,
    pub properties: Option<HashMap<String, String>>,
    pub view_definition: Option<String>,
}

#[derive(Debug, Clone, Copy, PartialEq, Eq, Structural)]
pub enum VolumeType {
    Managed,
    External,
}

#[derive(Debug)]
pub struct CreateVolumeRequestContent {
    pub catalog_name: String,
    pub schema_name: String,
    pub name: String,
    pub volume_type: VolumeType,
    pub comment: Option<String>,
    pub storage_location: Option<String>,
    pub properties: Option<HashMap<String, String>>,
}

#[derive(Debug)]
pub struct UpdateVolumeRequestContent {
    pub new_name: Option<String>,
    pub comment: Option<String>,
    pub owner: Option<String>,
    pub properties: Option<HashMap<String, String>>,
}

#[derive(Debug)]
pub struct FunctionParameterInfo {
    pub name: String,
    pub type_text: Option<String>,
    pub type_json: Option<String>,
    pub type_name_str: Option<ColumnTypeName>,
    pub type_precision: Option<i32>,
    pub type_scale: Option<i32>,
    pub type_interval_type: Option<String>,
    pub position: Option<i32>,
    pub parameter_mode: Option<String>,
    pub parameter_type: Option<String>,
    pub parameter_default: Option<String>,
    pub comment: Option<String>,
}

#[derive(Debug)]
pub struct FunctionParameterInfos {
    pub parameters: Option<Vec<FunctionParameterInfo>>,
}

#[derive(Debug)]
pub struct CreateRegisteredModel {
    pub name: String,
    pub catalog_name: String,
    pub schema_name: String,
    pub comment: Option<String>,
    pub storage_location: Option<String>,
    pub properties: Option<HashMap<String, String>>,
}

#[derive(Debug)]
pub struct UpdateRegisteredModel {
    pub new_name: Option<String>,
    pub comment: Option<String>,
    pub owner: Option<String>,
    pub properties: Option<HashMap<String, String>>,
}

#[derive(Debug, Clone, Copy, PartialEq, Eq, Structural)]
pub enum ModelVersionStatus {
    ModelVersionStatusUnknown,
    PendingRegistration,
    FailedRegistration,
    Ready,
}

#[derive(Debug)]
pub struct CreateModelVersion {
    pub model_name: String,
    pub catalog_name: String,
    pub schema_name: String,
    pub source: Option<String>,
    pub run_id: Option<String>,
    pub comment: Option<String>,
}

#[derive(Debug)]
pub struct UpdateModelVersion {
    pub comment: Option<String>,
}

#[derive(Debug)]
pub struct FinalizeModelVersion {
    pub status: ModelVersionStatus,
}

#[derive(Debug, Clone, Copy, PartialEq, Eq, Structural)]
pub enum CredentialPurpose {
    ServicePrincipal,
    GcsServiceAccount,
    AwsIamRole,
    AzureManagedIdentity,
    AwsAssumeRole,
    DatabricksGcpServiceAccount,
}

#[derive(Debug)]
pub struct AwsIamRoleRequest {
    pub role_arn: String,
    pub unity_catalog_iam_arn: Option<String>,
    pub external_id: Option<String>,
}

#[derive(Debug)]
pub struct CreateCredentialRequest {
    pub name: String,
    pub purpose: CredentialPurpose,
    pub comment: Option<String>,
    pub aws_iam_role: Option<AwsIamRoleRequest>,
}

#[derive(Debug)]
pub struct UpdateCredentialRequest {
    pub new_name: Option<String>,
    pub comment: Option<String>,
    pub owner: Option<String>,
    pub aws_iam_role: Option<AwsIamRoleRequest>,
}

#[derive(Debug)]
pub struct CreateExternalLocation {
    pub name: String,
    pub url: String,
    pub credential_name: String,
    pub comment: Option<String>,
}

#[derive(Debug)]
pub struct UpdateExternalLocation {
    pub new_name: Option<String>,
    pub url: Option<String>,
    pub credential_name: Option<String>,
    pub comment: Option<String>,
    pub owner: Option<String>,
}

#[derive(Debug)]
pub struct PrivilegeAssignment {
    pub principal: String,
    pub privileges: Vec<String>,
}

#[derive(Debug)]
pub struct PermissionsList {
    pub securable_type: Option<String>,
    pub full_name: Option<String>,
    pub privilege_assignments: Vec<PrivilegeAssignment>,
}

#[derive(Debug)]
pub struct PrivilegeAssignmentChange {
    pub principal: String,
    pub add: Vec<String>,
    pub remove: Vec<String>,
}

#[derive(Debug)]
pub struct UpdatePermissions {
    pub changes: Vec<PrivilegeAssignmentChange>,
}

#[derive(Debug, Clone)]
pub struct AwsCredentials {
    pub access_key_id: String,
    pub secret_access_key: String,
    pub session_token: String,
    pub expiration: Option<String>,
}

#[derive(Debug, Clone)]
pub struct AzureUserDelegationSas {
    pub sas_token: String,
}

#[derive(Debug, Clone)]
pub struct GcpOauthToken {
    pub oauth_token: String,
}

#[derive(Debug, Clone)]
pub struct TemporaryCredentials {
    pub aws_temp_credentials: Option<AwsCredentials>,
    pub azure_user_delegation_sas: Option<AzureUserDelegationSas>,
    pub gcp_oauth_token: Option<GcpOauthToken>,
    pub expiration_time: Option<String>,
    pub url: Option<String>,
}

#[derive(Debug, Clone, Copy, PartialEq, Eq, Structural)]
pub enum CredentialOperation {
    Read,
    ReadWrite,
    ReadVolume,
    WriteVolume,
    ReadModelVersion,
    ReadWriteModelVersion,
}

#[derive(Debug)]
pub struct GenerateTemporaryModelVersionCredential {
    pub catalog_name: String,
    pub schema_name: String,
    pub model_name: String,
    pub version: i64,
    pub operation: CredentialOperation,
}

#[derive(Debug)]
pub struct GenerateTemporaryPathCredential {
    pub url: String,
    pub operation: CredentialOperation,
}

#[derive(Debug)]
pub struct CreateStagingTable {
    pub name: String,
    pub catalog_name: String,
    pub schema_name: String,
}

#[derive(Debug)]
pub struct GetCommitsRequest {
    pub table_full_name: String,
    pub starting_version: Option<i64>,
    pub ending_version: Option<i64>,
}

#[derive(Debug)]
pub struct CommitInfo {
    pub version: i64,
    pub timestamp: i64,
    pub operation: Option<String>,
    pub file_name: Option<String>,
    pub file_size: Option<i64>,
    pub file_modification_timestamp: Option<i64>,
}

#[derive(Debug)]
pub struct GetCommitsResponse {
    pub commits_info: Vec<CommitInfo>,
    pub latest_table_version: i64,
}

impl Default for TemporaryCredentials {
    /// No credentials of any kind, no expiry, no url.
    fn default() -> (c: Self)
        ensures
            c.aws_temp_credentials is None,
            c.azure_user_delegation_sas is None,
            c.gcp_oauth_token is None,
            c.expiration_time is None,
            c.url is None,
    {
        TemporaryCredentials {
            aws_temp_credentials: None,
            azure_user_delegation_sas: None,
            gcp_oauth_token: None,
            expiration_time: None,
            url: None,
        }
    }
}

#[derive(Debug)]
pub struct MetastoreSummary {
    pub metastore_id: u128,
    pub name: String,
    pub owner: Option<String>,
    pub created_at: Option<i64>,
    pub created_by: Option<String>,
    pub updated_at: Option<i64>,
    pub updated_by: Option<String>,
}

#[derive(Debug)]
pub struct CatalogInfo {
    pub name: String,
    pub comment: Option<String>,
    pub properties: Option<HashMap<String, String>>,
    pub owner: Option<String>,
    pub created_at: Option<i64>,
    pub created_by: Option<String>,
    pub updated_at: Option<i64>,
    pub updated_by: Option<String>,
    pub id: Option<u128>,
    pub storage_root: Option<String>,
    pub storage_location: Option<String>,
}

#[derive(Debug)]
pub struct ListCatalogsResponse {
    pub catalogs: Vec<CatalogInfo>,
    pub next_page_token: Option<String>,
}

#[derive(Debug)]
pub struct SchemaInfo {
    pub name: String,
    pub catalog_name: String,
    pub comment: Option<String>,
    pub properties: Option<HashMap<String, String>>,
    pub full_name: Option<String>,
    pub owner: Option<String>,
    pub created_at: Option<i64>,
    pub created_by: Option<String>,
    pub updated_at: Option<i64>,
    pub updated_by: Option<String>,
    pub schema_id: Option<u128>,
    pub storage_root: Option<String>,
    pub storage_location: Option<String>,
}

#[derive(Debug)]
pub struct ListSchemasResponse {
    pub schemas: Vec<SchemaInfo>,
    pub next_page_token: Option<String>,
}

#[derive(Debug)]
pub struct TableInfo {
    pub name: String,
    pub catalog_name: String,
    pub schema_name: String,
    pub table_type: Option<TableType>,
    pub data_source_format: Option<DataSourceFormat>,
    pub columns: Option<Vec<ColumnInfo>>,
    pub storage_location: Option<String>,
    pub comment: Option<String>,
    pub properties: Option<HashMap<String, String>>,
    pub owner: Option<String>,
    pub created_at: Option<i64>,
    pub created_by: Option<String>,
    pub updated_at: Option<i64>,
    pub updated_by: Option<String>,
    pub table_id: Option<u128>,
    pub full_name: Option<String>,
    pub view_definition: Option<String>,
}

#[derive(Debug)]
pub struct ListTablesResponse {
    pub tables: Vec<TableInfo>,
    pub next_page_token: Option<String>,
}

#[derive(Debug)]
pub struct VolumeInfo {
    pub catalog_name: String,
    pub schema_name: String,
    pub name: String,
    pub comment: Option<String>,
    pub owner: Option<String>,
    pub created_at: Option<i64>,
    pub created_by: Option<String>,
    pub updated_at: Option<i64>,
    pub updated_by: Option<String>,
    pub volume_id: Option<u128>,
    pub volume_type: VolumeType,
    pub storage_location: Option<String>,
    pub full_name: Option<String>,
    pub properties: Option<HashMap<String, String>>,
}

#[derive(Debug)]
pub struct ListVolumesResponseContent {
    pub volumes: Vec<VolumeInfo>,
    pub next_page_token: Option<String>,
}

#[derive(Debug)]
pub struct FunctionInfo {
    pub name: String,
    pub catalog_name: String,
    pub schema_name: String,
    pub input_params: Option<FunctionParameterInfos>,
    pub return_params: Option<FunctionParameterInfos>,
    pub data_type: Option<ColumnTypeName>,
    pub full_data_type: Option<String>,
    pub routine_body: Option<String>,
    pub routine_definition: Option<String>,
    pub parameter_style: Option<String>,
    pub is_deterministic: Option<bool>,
    pub sql_data_access: Option<String>,
    pub is_null_call: Option<bool>,
    pub security_type: Option<String>,
    pub specific_name: Option<String>,
    pub comment: Option<String>,
    /// Accepts either a JSON map {"k":"v"} or a legacy string "{}" from the Java client.
    pub properties: Option<HashMap<String, String>>,
    pub full_name: Option<String>,
    pub owner: Option<String>,
    pub created_at: Option<i64>,
    pub created_by: Option<String>,
    pub updated_at: Option<i64>,
    pub updated_by: Option<String>,
    pub function_id: Option<u128>,
    pub external_language: Option<String>,
}

#[derive(Debug)]
pub struct CreateFunctionRequest {
    pub function_info: FunctionInfo,
}

#[derive(Debug)]
pub struct ListFunctionsResponse {
    pub functions: Vec<FunctionInfo>,
    pub next_page_token: Option<String>,
}

#[derive(Debug)]
pub struct RegisteredModelInfo {
    pub name: String,
    pub catalog_name: String,
    pub schema_name: String,
    pub storage_location: Option<String>,
    pub full_name: Option<String>,
    pub comment: Option<String>,
    pub owner: Option<String>,
    pub created_at: Option<i64>,
    pub created_by: Option<String>,
    pub updated_at: Option<i64>,
    pub updated_by: Option<String>,
    pub id: Option<u128>,
    pub properties: Option<HashMap<String, String>>,
}

#[derive(Debug)]
pub struct ListRegisteredModelsResponse {
    pub registered_models: Vec<RegisteredModelInfo>,
    pub next_page_token: Option<String>,
}

#[derive(Debug)]
pub struct ModelVersionInfo {
    pub model_name: Option<String>,
    pub catalog_name: Option<String>,
    pub schema_name: Option<String>,
    pub version: Option<i64>,
    pub source: Option<String>,
    pub run_id: Option<String>,
    pub status: Option<ModelVersionStatus>,
    pub storage_location: Option<String>,
    pub comment: Option<String>,
    pub created_at: Option<i64>,
    pub created_by: Option<String>,
    pub updated_at: Option<i64>,
    pub updated_by: Option<String>,
    pub id: Option<u128>,
}

#[derive(Debug)]
pub struct ListModelVersionsResponse {
    pub model_versions: Vec<ModelVersionInfo>,
    pub next_page_token: Option<String>,
}

#[derive(Debug)]
pub struct CredentialInfo {
    pub id: u128,
    pub name: String,
    pub purpose: CredentialPurpose,
    pub full_name: Option<String>,
    pub comment: Option<String>,
    pub owner: Option<String>,
    pub created_at: Option<i64>,
    pub created_by: Option<String>,
    pub updated_at: Option<i64>,
    pub updated_by: Option<String>,
    pub aws_iam_role: Option<AwsIamRoleRequest>,
}

#[derive(Debug)]
pub struct ListCredentialsResponse {
    pub credentials: Vec<CredentialInfo>,
    pub next_page_token: Option<String>,
}

#[derive(Debug)]
pub struct ExternalLocationInfo {
    pub id: u128,
    pub name: String,
    pub url: String,
    pub credential_name: String,
    pub comment: Option<String>,
    pub owner: Option<String>,
    pub created_at: Option<i64>,
    pub created_by: Option<String>,
    pub updated_at: Option<i64>,
    pub updated_by: Option<String>,
}

#[derive(Debug)]
pub struct ListExternalLocationsResponse {
    pub external_locations: Vec<ExternalLocationInfo>,
    pub next_page_token: Option<String>,
}

#[derive(Debug)]
pub struct GenerateTemporaryTableCredential {
    pub table_id: u128,
    pub operation: CredentialOperation,
}

#[derive(Debug)]
pub struct GenerateTemporaryVolumeCredential {
    pub volume_id: u128,
    pub operation: CredentialOperation,
}

#[derive(Debug)]
pub struct StagingTableInfo {
    pub table_id: u128,
    pub staging_location: String,
    pub schema_name: String,
    pub catalog_name: String,
}

} // verus!
