use crate::models::clone_opt;
use vstd::prelude::*;

verus! {

/// A table; `type_` is its table type.
#[derive(Debug)]
pub struct TableRow {
    pub id: u128,
    pub schema_id: u128,
    pub name: String,
    pub type_: String,
    pub owner: Option<String>,
    pub created_at: i64,
    pub created_by: Option<String>,
    pub updated_at: Option<i64>,
    pub updated_by: Option<String>,
    pub data_source_format: Option<String>,
    pub comment: Option<String>,
    pub url: Option<String>,
    pub column_count: Option<i32>,
    pub view_definition: Option<String>,
    pub uniform_iceberg_metadata_location: Option<String>,
    pub uniform_iceberg_converted_delta_version: Option<i64>,
    pub uniform_iceberg_converted_delta_timestamp: Option<i64>,
}

impl Clone for TableRow {
    fn clone(&self) -> (r: Self)
        ensures
            r == *self,
    {
        TableRow {
            id: self.id,
            schema_id: self.schema_id,
            name: self.name.clone(),
            type_: self.type_.clone(),
            owner: clone_opt(&self.owner),
            created_at: self.created_at,
            created_by: clone_opt(&self.created_by),
            updated_at: self.updated_at,
            updated_by: clone_opt(&self.updated_by),
            data_source_format: clone_opt(&self.data_source_format),
            comment: clone_opt(&self.comment),
            url: clone_opt(&self.url),
            column_count: self.column_count,
            view_definition: clone_opt(&self.view_definition),
            uniform_iceberg_metadata_location: clone_opt(&self.uniform_iceberg_metadata_location),
            uniform_iceberg_converted_delta_version: self.uniform_iceberg_converted_delta_version,
            uniform_iceberg_converted_delta_timestamp: self.uniform_iceberg_converted_delta_timestamp,
        }
    }
}

/// One column of a table.
#[derive(Debug)]
pub struct ColumnRow {
    pub id: u128,
    pub table_id: u128,
    pub name: String,
    pub ordinal_position: i32,
    pub type_text: String,
    pub type_json: String,
    pub type_name_str: String,
    pub type_precision: Option<i32>,
    pub type_scale: Option<i32>,
    pub type_interval_type: Option<String>,
    pub nullable: bool,
    pub comment: Option<String>,
    pub partition_index: Option<i32>,
}

impl Clone for ColumnRow {
    fn clone(&self) -> (r: Self)
        ensures
            r == *self,
    {
        ColumnRow {
            id: self.id,
            table_id: self.table_id,
            name: self.name.clone(),
            ordinal_position: self.ordinal_position,
            type_text: self.type_text.clone(),
            type_json: self.type_json.clone(),
            type_name_str: self.type_name_str.clone(),
            type_precision: self.type_precision,
            type_scale: self.type_scale,
            type_interval_type: clone_opt(&self.type_interval_type),
            nullable: self.nullable,
            comment: clone_opt(&self.comment),
            partition_index: self.partition_index,
        }
    }
}

} // verus!
