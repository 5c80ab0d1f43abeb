//! The typed representation of a stored row.

use crate::ids::{uuid_string, uuid_text};
use crate::models::metastore::MetastoreRow;
use crate::models::catalog::CatalogRow;
use crate::models::schema::SchemaRow;
use crate::models::table::TableRow;
use crate::models::table::ColumnRow;
use crate::models::volume::VolumeRow;
use crate::models::function::FunctionRow;
use crate::models::function::FunctionParamRow;
use crate::models::model::RegisteredModelRow;
use crate::models::model::ModelVersionRow;
use crate::models::staging::StagingTableRow;
use crate::models::user::UserRow;
use crate::models::credential::CredentialRow;
use crate::models::external_location::ExternalLocationRow;
use crate::models::property::PropertyRow;
use crate::models::casbin::CasbinRule;
use crate::store::action::EntityKind;
use crate::text::{
    append_chars, chars_of, fixed_decimal, fixed_decimal_chars, lemma_fixed_decimal_order, lex_lt,
    string_of,
};
use vstd::prelude::*;

verus! {

/// One row, of whichever kind. Delta commits and dependencies are never
/// resident, so they have no variant.
#[derive(Debug)]
pub enum Row {
    Metastore(MetastoreRow),
    Catalog(CatalogRow),
    Schema(SchemaRow),
    Table(TableRow),
    Column(ColumnRow),
    Volume(VolumeRow),
    Function(FunctionRow),
    FunctionParameter(FunctionParamRow),
    RegisteredModel(RegisteredModelRow),
    ModelVersion(ModelVersionRow),
    StagingTable(StagingTableRow),
    User(UserRow),
    Credential(CredentialRow),
    ExternalLocation(ExternalLocationRow),
    Property(PropertyRow),
    CasbinRule(CasbinRule),
}

impl Clone for Row {
    fn clone(&self) -> (r: Self)
        ensures
            r == *self,
    {
        match self {
            Row::Metastore(r) => Row::Metastore(r.clone()),
            Row::Catalog(r) => Row::Catalog(r.clone()),
            Row::Schema(r) => Row::Schema(r.clone()),
            Row::Table(r) => Row::Table(r.clone()),
            Row::Column(r) => Row::Column(r.clone()),
            Row::Volume(r) => Row::Volume(r.clone()),
            Row::Function(r) => Row::Function(r.clone()),
            Row::FunctionParameter(r) => Row::FunctionParameter(r.clone()),
            Row::RegisteredModel(r) => Row::RegisteredModel(r.clone()),
            Row::ModelVersion(r) => Row::ModelVersion(r.clone()),
            Row::StagingTable(r) => Row::StagingTable(r.clone()),
            Row::User(r) => Row::User(r.clone()),
            Row::Credential(r) => Row::Credential(r.clone()),
            Row::ExternalLocation(r) => Row::ExternalLocation(r.clone()),
            Row::Property(r) => Row::Property(r.clone()),
            Row::CasbinRule(r) => Row::CasbinRule(r.clone()),
        }
    }
}

/// The kind a row belongs to.
pub open spec fn row_kind(r: Row) -> EntityKind {
    match r {
        Row::Metastore(_) => EntityKind::Metastore,
        Row::Catalog(_) => EntityKind::Catalog,
        Row::Schema(_) => EntityKind::Schema,
        Row::Table(_) => EntityKind::Table,
        Row::Column(_) => EntityKind::Column,
        Row::Volume(_) => EntityKind::Volume,
        Row::Function(_) => EntityKind::Function,
        Row::FunctionParameter(_) => EntityKind::FunctionParameter,
        Row::RegisteredModel(_) => EntityKind::RegisteredModel,
        Row::ModelVersion(_) => EntityKind::ModelVersion,
        Row::StagingTable(_) => EntityKind::StagingTable,
        Row::User(_) => EntityKind::User,
        Row::Credential(_) => EntityKind::Credential,
        Row::ExternalLocation(_) => EntityKind::ExternalLocation,
        Row::Property(_) => EntityKind::Property,
        Row::CasbinRule(_) => EntityKind::CasbinRule,
    }
}

impl Row {
    pub fn kind(&self) -> (k: EntityKind)
        ensures
            k == row_kind(*self),
    {
        match self {
            Row::Metastore(_) => EntityKind::Metastore,
            Row::Catalog(_) => EntityKind::Catalog,
            Row::Schema(_) => EntityKind::Schema,
            Row::Table(_) => EntityKind::Table,
            Row::Column(_) => EntityKind::Column,
            Row::Volume(_) => EntityKind::Volume,
            Row::Function(_) => EntityKind::Function,
            Row::FunctionParameter(_) => EntityKind::FunctionParameter,
            Row::RegisteredModel(_) => EntityKind::RegisteredModel,
            Row::ModelVersion(_) => EntityKind::ModelVersion,
            Row::StagingTable(_) => EntityKind::StagingTable,
            Row::User(_) => EntityKind::User,
            Row::Credential(_) => EntityKind::Credential,
            Row::ExternalLocation(_) => EntityKind::ExternalLocation,
            Row::Property(_) => EntityKind::Property,
            Row::CasbinRule(_) => EntityKind::CasbinRule,
        }
    }
}

/// The separator between natural-key components; it cannot occur in an
/// identifier.
pub open spec fn sep() -> Seq<char> {
    seq!['\u{0}']
}

/// An integer rendered so that lexicographic order is numeric order: a sign
/// character (`-` sorts below `0`) and nineteen digits, negatives offset by
/// `i64::MAX + 1`.
pub open spec fn pad_i64_of(v: i64) -> Seq<char> {
    if v < 0 {
        seq!['-'] + fixed_decimal((i64::MAX + v + 1) as nat, 19)
    } else {
        seq!['0'] + fixed_decimal(v as nat, 19)
    }
}

pub fn pad_i64(v: i64) -> (s: String)
    ensures
        s@ == pad_i64_of(v),
{
    let mut c: Vec<char> = Vec::new();
    if v < 0 {
        c.push('-');
        let n = ((i64::MAX + v) + 1) as u64;
        append_chars(&mut c, fixed_decimal_chars(n, 19).as_slice());
    } else {
        c.push('0');
        append_chars(&mut c, fixed_decimal_chars(v as u64, 19).as_slice());
    }
    string_of(c.as_slice())
}

/// The natural key of a row: the unique tuple of its kind rendered as text,
/// or `None` for kinds that are addressed by id only.
pub open spec fn natural_key_of(r: Row) -> Option<Seq<char>> {
    match r {
        Row::Catalog(c) => Some(c.name@),
        Row::Schema(s) => Some(uuid_text(s.catalog_id) + sep() + s.name@),
        Row::Table(t) => Some(uuid_text(t.schema_id) + sep() + t.name@),
        Row::Volume(v) => Some(uuid_text(v.schema_id) + sep() + v.name@),
        Row::Function(f) => Some(uuid_text(f.schema_id) + sep() + f.name@),
        Row::RegisteredModel(m) => Some(uuid_text(m.schema_id) + sep() + m.name@),
        Row::Column(c) => Some(uuid_text(c.table_id) + sep() + pad_i64_of(c.ordinal_position as i64)),
        Row::Property(p) => Some(
            uuid_text(p.entity_id) + sep() + p.entity_type@ + sep() + p.property_key@,
        ),
        Row::User(u) => Some(u.name@),
        Row::Credential(c) => Some(c.name@),
        Row::ExternalLocation(l) => Some(l.name@),
        Row::CasbinRule(r) => Some(
            r.ptype@ + sep() + r.v0@ + sep() + r.v1@ + sep() + r.v2@ + sep() + r.v3@ + sep() + r.v4@
                + sep() + r.v5@,
        ),
        Row::Metastore(_) | Row::FunctionParameter(_) | Row::ModelVersion(_) | Row::StagingTable(_) => None,
    }
}

/// `id` rendered, then the separator, then `rest`.
fn id_then(id: u128, rest: &str) -> (v: Vec<char>)
    ensures
        v@ == uuid_text(id) + sep() + rest@,
{
    let mut v = chars_of(uuid_string(id).as_str());
    v.push('\u{0}');
    append_chars(&mut v, chars_of(rest).as_slice());
    v
}

fn push_part(v: &mut Vec<char>, part: &str)
    ensures
        final(v)@ == old(v)@ + sep() + part@,
{
    v.push('\u{0}');
    append_chars(v, chars_of(part).as_slice());
}

/// The natural key of a row, as characters.
pub fn natural_key_chars(row: &Row) -> (k: Option<Vec<char>>)
    ensures
        match k {
            Some(v) => natural_key_of(*row) == Some(v@),
            None => natural_key_of(*row) is None,
        },
{
    match row {
        Row::Catalog(c) => Some(chars_of(c.name.as_str())),
        Row::Schema(s) => Some(id_then(s.catalog_id, s.name.as_str())),
        Row::Table(t) => Some(id_then(t.schema_id, t.name.as_str())),
        Row::Volume(v) => Some(id_then(v.schema_id, v.name.as_str())),
        Row::Function(f) => Some(id_then(f.schema_id, f.name.as_str())),
        Row::RegisteredModel(m) => Some(id_then(m.schema_id, m.name.as_str())),
        Row::Column(c) => {
            let p = pad_i64(c.ordinal_position as i64);
            Some(id_then(c.table_id, p.as_str()))
        },
        Row::Property(p) => {
            let mut v = id_then(p.entity_id, p.entity_type.as_str());
            push_part(&mut v, p.property_key.as_str());
            Some(v)
        },
        Row::User(u) => Some(chars_of(u.name.as_str())),
        Row::Credential(c) => Some(chars_of(c.name.as_str())),
        Row::ExternalLocation(l) => Some(chars_of(l.name.as_str())),
        Row::CasbinRule(r) => {
            let mut v = chars_of(r.ptype.as_str());
            push_part(&mut v, r.v0.as_str());
            push_part(&mut v, r.v1.as_str());
            push_part(&mut v, r.v2.as_str());
            push_part(&mut v, r.v3.as_str());
            push_part(&mut v, r.v4.as_str());
            push_part(&mut v, r.v5.as_str());
            Some(v)
        },
        _ => None,
    }
}

/// The natural key of a row: the unique tuple of its kind rendered so that
/// lexicographic order matches the order listings promise.
pub fn natural_key_for(row: &Row) -> (k: Option<String>)
    ensures
        match k {
            Some(s) => natural_key_of(*row) == Some(s@),
            None => natural_key_of(*row) is None,
        },
{
    match natural_key_chars(row) {
        Some(v) => Some(string_of(v.as_slice())),
        None => None,
    }
}

/// Padded integers sort as the integers do: a natural key made with
/// `pad_i64` orders rows numerically, negatives below zero included.
pub proof fn lemma_pad_i64_orders_numerically(a: i64, b: i64)
    ensures
        lex_lt(pad_i64_of(a), pad_i64_of(b)) <==> a < b,
{
    assert(vstd::arithmetic::power::pow(10, 19) == 10000000000000000000int) by {
        reveal_with_fuel(vstd::arithmetic::power::pow, 20);
    }
    let na: nat = if a < 0 { (i64::MAX + a + 1) as nat } else { a as nat };
    let nb: nat = if b < 0 { (i64::MAX + b + 1) as nat } else { b as nat };
    lemma_fixed_decimal_order(na, nb, 19);
    let x = fixed_decimal(na, 19);
    let y = fixed_decimal(nb, 19);
    let sa: char = if a < 0 { '-' } else { '0' };
    let sb: char = if b < 0 { '-' } else { '0' };
    assert(pad_i64_of(a) == seq![sa] + x);
    assert(pad_i64_of(b) == seq![sb] + y);
    assert((seq![sa] + x)[0] == sa);
    assert((seq![sb] + y)[0] == sb);
    assert((seq![sa] + x).drop_first() =~= x);
    assert((seq![sb] + y).drop_first() =~= y);
}

} // verus!
