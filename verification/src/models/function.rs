use crate::models::clone_opt;
use vstd::prelude::*;

verus! {

/// A function.
#[derive(Debug)]
pub struct FunctionRow {
    pub id: u128,
    pub schema_id: u128,
    pub name: String,
    pub comment: Option<String>,
    pub owner: Option<String>,
    pub created_at: Option<i64>,
    pub created_by: Option<String>,
    pub updated_at: Option<i64>,
    pub updated_by: Option<String>,
    pub data_type: Option<String>,
    pub full_data_type: Option<String>,
    pub external_language: Option<String>,
    pub is_deterministic: Option<bool>,
    pub is_null_call: Option<bool>,
    pub parameter_style: Option<String>,
    pub routine_body: Option<String>,
    pub routine_definition: Option<String>,
    pub sql_data_access: Option<String>,
    pub security_type: Option<String>,
    pub specific_name: Option<String>,
}

impl Clone for FunctionRow {
    fn clone(&self) -> (r: Self)
        ensures
            r == *self,
    {
        FunctionRow {
            id: self.id,
            schema_id: self.schema_id,
            name: self.name.clone(),
            comment: clone_opt(&self.comment),
            owner: clone_opt(&self.owner),
            created_at: self.created_at,
            created_by: clone_opt(&self.created_by),
            updated_at: self.updated_at,
            updated_by: clone_opt(&self.updated_by),
            data_type: clone_opt(&self.data_type),
            full_data_type: clone_opt(&self.full_data_type),
            external_language: clone_opt(&self.external_language),
            is_deterministic: self.is_deterministic,
            is_null_call: self.is_null_call,
            parameter_style: clone_opt(&self.parameter_style),
            routine_body: clone_opt(&self.routine_body),
            routine_definition: clone_opt(&self.routine_definition),
            sql_data_access: clone_opt(&self.sql_data_access),
            security_type: clone_opt(&self.security_type),
            specific_name: clone_opt(&self.specific_name),
        }
    }
}

/// One parameter of a function; `input_or_return` is 0 for an input, 1 for the return column.
#[derive(Debug)]
pub struct FunctionParamRow {
    pub id: u128,
    pub function_id: u128,
    pub name: String,
    pub input_or_return: i16,
    pub ordinal_position: i32,
    pub type_text: Option<String>,
    pub type_json: Option<String>,
    pub type_name_str: Option<String>,
    pub type_precision: Option<i32>,
    pub type_scale: Option<i32>,
    pub type_interval_type: Option<String>,
    pub comment: Option<String>,
    pub parameter_mode: Option<String>,
    pub parameter_default: Option<String>,
}

impl Clone for FunctionParamRow {
    fn clone(&self) -> (r: Self)
        ensures
            r == *self,
    {
        FunctionParamRow {
            id: self.id,
            function_id: self.function_id,
            name: self.name.clone(),
            input_or_return: self.input_or_return,
            ordinal_position: self.ordinal_position,
            type_text: clone_opt(&self.type_text),
            type_json: clone_opt(&self.type_json),
            type_name_str: clone_opt(&self.type_name_str),
            type_precision: self.type_precision,
            type_scale: self.type_scale,
            type_interval_type: clone_opt(&self.type_interval_type),
            comment: clone_opt(&self.comment),
            parameter_mode: clone_opt(&self.parameter_mode),
            parameter_default: clone_opt(&self.parameter_default),
        }
    }
}

} // verus!
