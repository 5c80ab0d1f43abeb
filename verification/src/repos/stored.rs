//! How each row type is held in, and read back from, a stored row.

use crate::models::metastore::MetastoreRow;
use crate::models::catalog::CatalogRow;
use crate::models::schema::SchemaRow;
use crate::models::table::TableRow;
use crate::models::table::ColumnRow;
use crate::models::volume::VolumeRow;
use crate::models::function::FunctionRow;
use crate::models::function::FunctionParamRow;
use crate::models::model::RegisteredModelRow;
use crate::models::model::ModelVersionRow;
use crate::models::staging::StagingTableRow;
use crate::models::user::UserRow;
use crate::models::credential::CredentialRow;
use crate::models::external_location::ExternalLocationRow;
use crate::models::property::PropertyRow;
use crate::models::casbin::CasbinRule;
use crate::errors::{ErrorCode, UcError};
use crate::pagination::page_limit;
use crate::repos::{lemma_listing_token, listing, mismatch, mismatch_message, Named, Stored};
use crate::store::action::EntityKind;
use crate::store::row::{row_kind, Row};
use vstd::prelude::*;

verus! {

impl Stored for MetastoreRow {
    open spec fn what() -> Seq<char> {
        "metastore"@
    }

    open spec fn of_row(r: Row) -> Option<Self> {
        match r {
            Row::Metastore(x) => Some(x),
            _ => None,
        }
    }

    open spec fn to_row(self) -> Row {
        Row::Metastore(self)
    }

    fn from_row(r: &Row) -> (res: Result<Self, UcError>) {
        match r {
            Row::Metastore(x) => Ok(x.clone()),
            _ => Err(mismatch("metastore", r.kind())),
        }
    }

    fn into_row(self) -> (r: Row) {
        Row::Metastore(self)
    }

    open spec fn kind() -> EntityKind {
        EntityKind::Metastore
    }

    proof fn lemma_of_row_kind(r: Row) {
    }

    proof fn lemma_round_trip(self) {
    }
}

impl Stored for CatalogRow {
    open spec fn what() -> Seq<char> {
        "catalog"@
    }

    open spec fn of_row(r: Row) -> Option<Self> {
        match r {
            Row::Catalog(x) => Some(x),
            _ => None,
        }
    }

    open spec fn to_row(self) -> Row {
        Row::Catalog(self)
    }

    fn from_row(r: &Row) -> (res: Result<Self, UcError>) {
        match r {
            Row::Catalog(x) => Ok(x.clone()),
            _ => Err(mismatch("catalog", r.kind())),
        }
    }

    fn into_row(self) -> (r: Row) {
        Row::Catalog(self)
    }

    open spec fn kind() -> EntityKind {
        EntityKind::Catalog
    }

    proof fn lemma_of_row_kind(r: Row) {
    }

    proof fn lemma_round_trip(self) {
    }
}

impl Stored for SchemaRow {
    open spec fn what() -> Seq<char> {
        "schema"@
    }

    open spec fn of_row(r: Row) -> Option<Self> {
        match r {
            Row::Schema(x) => Some(x),
            _ => None,
        }
    }

    open spec fn to_row(self) -> Row {
        Row::Schema(self)
    }

    fn from_row(r: &Row) -> (res: Result<Self, UcError>) {
        match r {
            Row::Schema(x) => Ok(x.clone()),
            _ => Err(mismatch("schema", r.kind())),
        }
    }

    fn into_row(self) -> (r: Row) {
        Row::Schema(self)
    }

    open spec fn kind() -> EntityKind {
        EntityKind::Schema
    }

    proof fn lemma_of_row_kind(r: Row) {
    }

    proof fn lemma_round_trip(self) {
    }
}

impl Stored for TableRow {
    open spec fn what() -> Seq<char> {
        "table"@
    }

    open spec fn of_row(r: Row) -> Option<Self> {
        match r {
            Row::Table(x) => Some(x),
            _ => None,
        }
    }

    open spec fn to_row(self) -> Row {
        Row::Table(self)
    }

    fn from_row(r: &Row) -> (res: Result<Self, UcError>) {
        match r {
            Row::Table(x) => Ok(x.clone()),
            _ => Err(mismatch("table", r.kind())),
        }
    }

    fn into_row(self) -> (r: Row) {
        Row::Table(self)
    }

    open spec fn kind() -> EntityKind {
        EntityKind::Table
    }

    proof fn lemma_of_row_kind(r: Row) {
    }

    proof fn lemma_round_trip(self) {
    }
}

impl Stored for ColumnRow {
    open spec fn what() -> Seq<char> {
        "column"@
    }

    open spec fn of_row(r: Row) -> Option<Self> {
        match r {
            Row::Column(x) => Some(x),
            _ => None,
        }
    }

    open spec fn to_row(self) -> Row {
        Row::Column(self)
    }

    fn from_row(r: &Row) -> (res: Result<Self, UcError>) {
        match r {
            Row::Column(x) => Ok(x.clone()),
            _ => Err(mismatch("column", r.kind())),
        }
    }

    fn into_row(self) -> (r: Row) {
        Row::Column(self)
    }

    open spec fn kind() -> EntityKind {
        EntityKind::Column
    }

    proof fn lemma_of_row_kind(r: Row) {
    }

    proof fn lemma_round_trip(self) {
    }
}

impl Stored for VolumeRow {
    open spec fn what() -> Seq<char> {
        "volume"@
    }

    open spec fn of_row(r: Row) -> Option<Self> {
        match r {
            Row::Volume(x) => Some(x),
            _ => None,
        }
    }

    open spec fn to_row(self) -> Row {
        Row::Volume(self)
    }

    fn from_row(r: &Row) -> (res: Result<Self, UcError>) {
        match r {
            Row::Volume(x) => Ok(x.clone()),
            _ => Err(mismatch("volume", r.kind())),
        }
    }

    fn into_row(self) -> (r: Row) {
        Row::Volume(self)
    }

    open spec fn kind() -> EntityKind {
        EntityKind::Volume
    }

    proof fn lemma_of_row_kind(r: Row) {
    }

    proof fn lemma_round_trip(self) {
    }
}

impl Stored for FunctionRow {
    open spec fn what() -> Seq<char> {
        "function"@
    }

    open spec fn of_row(r: Row) -> Option<Self> {
        match r {
            Row::Function(x) => Some(x),
            _ => None,
        }
    }

    open spec fn to_row(self) -> Row {
        Row::Function(self)
    }

    fn from_row(r: &Row) -> (res: Result<Self, UcError>) {
        match r {
            Row::Function(x) => Ok(x.clone()),
            _ => Err(mismatch("function", r.kind())),
        }
    }

    fn into_row(self) -> (r: Row) {
        Row::Function(self)
    }

    open spec fn kind() -> EntityKind {
        EntityKind::Function
    }

    proof fn lemma_of_row_kind(r: Row) {
    }

    proof fn lemma_round_trip(self) {
    }
}

impl Stored for FunctionParamRow {
    open spec fn what() -> Seq<char> {
        "function parameter"@
    }

    open spec fn of_row(r: Row) -> Option<Self> {
        match r {
            Row::FunctionParameter(x) => Some(x),
            _ => None,
        }
    }

    open spec fn to_row(self) -> Row {
        Row::FunctionParameter(self)
    }

    fn from_row(r: &Row) -> (res: Result<Self, UcError>) {
        match r {
            Row::FunctionParameter(x) => Ok(x.clone()),
            _ => Err(mismatch("function parameter", r.kind())),
        }
    }

    fn into_row(self) -> (r: Row) {
        Row::FunctionParameter(self)
    }

    open spec fn kind() -> EntityKind {
        EntityKind::FunctionParameter
    }

    proof fn lemma_of_row_kind(r: Row) {
    }

    proof fn lemma_round_trip(self) {
    }
}

impl Stored for RegisteredModelRow {
    open spec fn what() -> Seq<char> {
        "model"@
    }

    open spec fn of_row(r: Row) -> Option<Self> {
        match r {
            Row::RegisteredModel(x) => Some(x),
            _ => None,
        }
    }

    open spec fn to_row(self) -> Row {
        Row::RegisteredModel(self)
    }

    fn from_row(r: &Row) -> (res: Result<Self, UcError>) {
        match r {
            Row::RegisteredModel(x) => Ok(x.clone()),
            _ => Err(mismatch("model", r.kind())),
        }
    }

    fn into_row(self) -> (r: Row) {
        Row::RegisteredModel(self)
    }

    open spec fn kind() -> EntityKind {
        EntityKind::RegisteredModel
    }

    proof fn lemma_of_row_kind(r: Row) {
    }

    proof fn lemma_round_trip(self) {
    }
}

impl Stored for ModelVersionRow {
    open spec fn what() -> Seq<char> {
        "model version"@
    }

    open spec fn of_row(r: Row) -> Option<Self> {
        match r {
            Row::ModelVersion(x) => Some(x),
            _ => None,
        }
    }

    open spec fn to_row(self) -> Row {
        Row::ModelVersion(self)
    }

    fn from_row(r: &Row) -> (res: Result<Self, UcError>) {
        match r {
            Row::ModelVersion(x) => Ok(x.clone()),
            _ => Err(mismatch("model version", r.kind())),
        }
    }

    fn into_row(self) -> (r: Row) {
        Row::ModelVersion(self)
    }

    open spec fn kind() -> EntityKind {
        EntityKind::ModelVersion
    }

    proof fn lemma_of_row_kind(r: Row) {
    }

    proof fn lemma_round_trip(self) {
    }
}

impl Stored for StagingTableRow {
    open spec fn what() -> Seq<char> {
        "staging table"@
    }

    open spec fn of_row(r: Row) -> Option<Self> {
        match r {
            Row::StagingTable(x) => Some(x),
            _ => None,
        }
    }

    open spec fn to_row(self) -> Row {
        Row::StagingTable(self)
    }

    fn from_row(r: &Row) -> (res: Result<Self, UcError>) {
        match r {
            Row::StagingTable(x) => Ok(x.clone()),
            _ => Err(mismatch("staging table", r.kind())),
        }
    }

    fn into_row(self) -> (r: Row) {
        Row::StagingTable(self)
    }

    open spec fn kind() -> EntityKind {
        EntityKind::StagingTable
    }

    proof fn lemma_of_row_kind(r: Row) {
    }

    proof fn lemma_round_trip(self) {
    }
}

impl Stored for UserRow {
    open spec fn what() -> Seq<char> {
        "user"@
    }

    open spec fn of_row(r: Row) -> Option<Self> {
        match r {
            Row::User(x) => Some(x),
            _ => None,
        }
    }

    open spec fn to_row(self) -> Row {
        Row::User(self)
    }

    fn from_row(r: &Row) -> (res: Result<Self, UcError>) {
        match r {
            Row::User(x) => Ok(x.clone()),
            _ => Err(mismatch("user", r.kind())),
        }
    }

    fn into_row(self) -> (r: Row) {
        Row::User(self)
    }

    open spec fn kind() -> EntityKind {
        EntityKind::User
    }

    proof fn lemma_of_row_kind(r: Row) {
    }

    proof fn lemma_round_trip(self) {
    }
}

impl Stored for CredentialRow {
    open spec fn what() -> Seq<char> {
        "credential"@
    }

    open spec fn of_row(r: Row) -> Option<Self> {
        match r {
            Row::Credential(x) => Some(x),
            _ => None,
        }
    }

    open spec fn to_row(self) -> Row {
        Row::Credential(self)
    }

    fn from_row(r: &Row) -> (res: Result<Self, UcError>) {
        match r {
            Row::Credential(x) => Ok(x.clone()),
            _ => Err(mismatch("credential", r.kind())),
        }
    }

    fn into_row(self) -> (r: Row) {
        Row::Credential(self)
    }

    open spec fn kind() -> EntityKind {
        EntityKind::Credential
    }

    proof fn lemma_of_row_kind(r: Row) {
    }

    proof fn lemma_round_trip(self) {
    }
}

impl Stored for ExternalLocationRow {
    open spec fn what() -> Seq<char> {
        "external location"@
    }

    open spec fn of_row(r: Row) -> Option<Self> {
        match r {
            Row::ExternalLocation(x) => Some(x),
            _ => None,
        }
    }

    open spec fn to_row(self) -> Row {
        Row::ExternalLocation(self)
    }

    fn from_row(r: &Row) -> (res: Result<Self, UcError>) {
        match r {
            Row::ExternalLocation(x) => Ok(x.clone()),
            _ => Err(mismatch("external location", r.kind())),
        }
    }

    fn into_row(self) -> (r: Row) {
        Row::ExternalLocation(self)
    }

    open spec fn kind() -> EntityKind {
        EntityKind::ExternalLocation
    }

    proof fn lemma_of_row_kind(r: Row) {
    }

    proof fn lemma_round_trip(self) {
    }
}

impl Stored for PropertyRow {
    open spec fn what() -> Seq<char> {
        "property"@
    }

    open spec fn of_row(r: Row) -> Option<Self> {
        match r {
            Row::Property(x) => Some(x),
            _ => None,
        }
    }

    open spec fn to_row(self) -> Row {
        Row::Property(self)
    }

    fn from_row(r: &Row) -> (res: Result<Self, UcError>) {
        match r {
            Row::Property(x) => Ok(x.clone()),
            _ => Err(mismatch("property", r.kind())),
        }
    }

    fn into_row(self) -> (r: Row) {
        Row::Property(self)
    }

    open spec fn kind() -> EntityKind {
        EntityKind::Property
    }

    proof fn lemma_of_row_kind(r: Row) {
    }

    proof fn lemma_round_trip(self) {
    }
}

impl Stored for CasbinRule {
    open spec fn what() -> Seq<char> {
        "casbin rule"@
    }

    open spec fn of_row(r: Row) -> Option<Self> {
        match r {
            Row::CasbinRule(x) => Some(x),
            _ => None,
        }
    }

    open spec fn to_row(self) -> Row {
        Row::CasbinRule(self)
    }

    fn from_row(r: &Row) -> (res: Result<Self, UcError>) {
        match r {
            Row::CasbinRule(x) => Ok(x.clone()),
            _ => Err(mismatch("casbin rule", r.kind())),
        }
    }

    fn into_row(self) -> (r: Row) {
        Row::CasbinRule(self)
    }

    open spec fn kind() -> EntityKind {
        EntityKind::CasbinRule
    }

    proof fn lemma_of_row_kind(r: Row) {
    }

    proof fn lemma_round_trip(self) {
    }
}

impl Named for CatalogRow {
    open spec fn name_of(self) -> Seq<char> {
        self.name@
    }

    fn name_string(&self) -> (s: String) {
        self.name.clone()
    }
}

impl Named for SchemaRow {
    open spec fn name_of(self) -> Seq<char> {
        self.name@
    }

    fn name_string(&self) -> (s: String) {
        self.name.clone()
    }
}

impl Named for TableRow {
    open spec fn name_of(self) -> Seq<char> {
        self.name@
    }

    fn name_string(&self) -> (s: String) {
        self.name.clone()
    }
}

impl Named for VolumeRow {
    open spec fn name_of(self) -> Seq<char> {
        self.name@
    }

    fn name_string(&self) -> (s: String) {
        self.name.clone()
    }
}

impl Named for FunctionRow {
    open spec fn name_of(self) -> Seq<char> {
        self.name@
    }

    fn name_string(&self) -> (s: String) {
        self.name.clone()
    }
}

impl Named for RegisteredModelRow {
    open spec fn name_of(self) -> Seq<char> {
        self.name@
    }

    fn name_string(&self) -> (s: String) {
        self.name.clone()
    }
}

impl Named for UserRow {
    open spec fn name_of(self) -> Seq<char> {
        self.name@
    }

    fn name_string(&self) -> (s: String) {
        self.name.clone()
    }
}

impl Named for CredentialRow {
    open spec fn name_of(self) -> Seq<char> {
        self.name@
    }

    fn name_string(&self) -> (s: String) {
        self.name.clone()
    }
}

impl Named for ExternalLocationRow {
    open spec fn name_of(self) -> Seq<char> {
        self.name@
    }

    fn name_string(&self) -> (s: String) {
        self.name.clone()
    }
}

/// Listings of catalogs page by name: a page token comes only with a full page,
/// and it is the name of the page's last catalog.
pub proof fn lemma_catalog_token_is_last_name(rows: Seq<Row>, max_results: i64, r: Result<(Vec<CatalogRow>, Option<String>), UcError>)
    requires
        listing::<CatalogRow>(rows, max_results, r),
        r matches Ok((_, t)) && t is Some,
    ensures
        ({
            let (page, token) = r->Ok_0;
            &&& page@.len() == page_limit(max_results) > 0
            &&& token->0@ == page@[page@.len() - 1].name@
        }),
{
    lemma_listing_token::<CatalogRow>(rows, max_results, r);
}

/// Listings of schemas page by name: a page token comes only with a full page,
/// and it is the name of the page's last schema.
pub proof fn lemma_schema_token_is_last_name(rows: Seq<Row>, max_results: i64, r: Result<(Vec<SchemaRow>, Option<String>), UcError>)
    requires
        listing::<SchemaRow>(rows, max_results, r),
        r matches Ok((_, t)) && t is Some,
    ensures
        ({
            let (page, token) = r->Ok_0;
            &&& page@.len() == page_limit(max_results) > 0
            &&& token->0@ == page@[page@.len() - 1].name@
        }),
{
    lemma_listing_token::<SchemaRow>(rows, max_results, r);
}

/// Listings of tables page by name: a page token comes only with a full page,
/// and it is the name of the page's last table.
pub proof fn lemma_table_token_is_last_name(rows: Seq<Row>, max_results: i64, r: Result<(Vec<TableRow>, Option<String>), UcError>)
    requires
        listing::<TableRow>(rows, max_results, r),
        r matches Ok((_, t)) && t is Some,
    ensures
        ({
            let (page, token) = r->Ok_0;
            &&& page@.len() == page_limit(max_results) > 0
            &&& token->0@ == page@[page@.len() - 1].name@
        }),
{
    lemma_listing_token::<TableRow>(rows, max_results, r);
}

/// Listings of volumes page by name: a page token comes only with a full page,
/// and it is the name of the page's last volume.
pub proof fn lemma_volume_token_is_last_name(rows: Seq<Row>, max_results: i64, r: Result<(Vec<VolumeRow>, Option<String>), UcError>)
    requires
        listing::<VolumeRow>(rows, max_results, r),
        r matches Ok((_, t)) && t is Some,
    ensures
        ({
            let (page, token) = r->Ok_0;
            &&& page@.len() == page_limit(max_results) > 0
            &&& token->0@ == page@[page@.len() - 1].name@
        }),
{
    lemma_listing_token::<VolumeRow>(rows, max_results, r);
}

/// Listings of functions page by name: a page token comes only with a full page,
/// and it is the name of the page's last function.
pub proof fn lemma_function_token_is_last_name(rows: Seq<Row>, max_results: i64, r: Result<(Vec<FunctionRow>, Option<String>), UcError>)
    requires
        listing::<FunctionRow>(rows, max_results, r),
        r matches Ok((_, t)) && t is Some,
    ensures
        ({
            let (page, token) = r->Ok_0;
            &&& page@.len() == page_limit(max_results) > 0
            &&& token->0@ == page@[page@.len() - 1].name@
        }),
{
    lemma_listing_token::<FunctionRow>(rows, max_results, r);
}

/// Listings of registered models page by name: a page token comes only with a full page,
/// and it is the name of the page's last model.
pub proof fn lemma_model_token_is_last_name(rows: Seq<Row>, max_results: i64, r: Result<(Vec<RegisteredModelRow>, Option<String>), UcError>)
    requires
        listing::<RegisteredModelRow>(rows, max_results, r),
        r matches Ok((_, t)) && t is Some,
    ensures
        ({
            let (page, token) = r->Ok_0;
            &&& page@.len() == page_limit(max_results) > 0
            &&& token->0@ == page@[page@.len() - 1].name@
        }),
{
    lemma_listing_token::<RegisteredModelRow>(rows, max_results, r);
}

/// Listings of users page by name: a page token comes only with a full page,
/// and it is the name of the page's last user.
pub proof fn lemma_user_token_is_last_name(rows: Seq<Row>, max_results: i64, r: Result<(Vec<UserRow>, Option<String>), UcError>)
    requires
        listing::<UserRow>(rows, max_results, r),
        r matches Ok((_, t)) && t is Some,
    ensures
        ({
            let (page, token) = r->Ok_0;
            &&& page@.len() == page_limit(max_results) > 0
            &&& token->0@ == page@[page@.len() - 1].name@
        }),
{
    lemma_listing_token::<UserRow>(rows, max_results, r);
}

/// Listings of credentials page by name: a page token comes only with a full page,
/// and it is the name of the page's last credential.
pub proof fn lemma_credential_token_is_last_name(rows: Seq<Row>, max_results: i64, r: Result<(Vec<CredentialRow>, Option<String>), UcError>)
    requires
        listing::<CredentialRow>(rows, max_results, r),
        r matches Ok((_, t)) && t is Some,
    ensures
        ({
            let (page, token) = r->Ok_0;
            &&& page@.len() == page_limit(max_results) > 0
            &&& token->0@ == page@[page@.len() - 1].name@
        }),
{
    lemma_listing_token::<CredentialRow>(rows, max_results, r);
}

/// Listings of external locations page by name: a page token comes only with a full page,
/// and it is the name of the page's last location.
pub proof fn lemma_external_location_token_is_last_name(rows: Seq<Row>, max_results: i64, r: Result<(Vec<ExternalLocationRow>, Option<String>), UcError>)
    requires
        listing::<ExternalLocationRow>(rows, max_results, r),
        r matches Ok((_, t)) && t is Some,
    ensures
        ({
            let (page, token) = r->Ok_0;
            &&& page@.len() == page_limit(max_results) > 0
            &&& token->0@ == page@[page@.len() - 1].name@
        }),
{
    lemma_listing_token::<ExternalLocationRow>(rows, max_results, r);
}

} // verus!
