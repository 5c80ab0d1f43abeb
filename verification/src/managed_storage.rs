//! Where managed data lives: the storage root a schema resolves to (its
//! own, else its catalog's), and the locations derived beneath it:
//! `<root>/schemas/<schema_id>/{tables,volumes,models,staging}/<id>`.

use crate::errors::{ErrorCode, UcError};
use crate::ids::{uuid_string, uuid_text};
use crate::models::catalog::CatalogRow;
use crate::models::schema::SchemaRow;
use crate::repos::schema::full_name;
use crate::repos::{child_key, fails_typed, fails_with, Stored};
use crate::store::action::EntityKind;
use crate::store::Snapshot;
use crate::text::{append_chars, chars_of, signed_decimal_chars, signed_decimal_of, string_of};
use vstd::prelude::*;

verus! {

/// `s` without its trailing slashes.
pub open spec fn trim_slashes(s: Seq<char>) -> Seq<char>
    decreases s.len(),
{
    if s.len() > 0 && s.last() == '/' {
        trim_slashes(s.drop_last())
    } else {
        s
    }
}

fn trimmed_chars(s: &str) -> (v: Vec<char>)
    ensures
        v@ == trim_slashes(s@),
{
    let mut v = chars_of(s);
    while v.len() > 0 && v[v.len() - 1] == '/'
        invariant
            trim_slashes(v@) == trim_slashes(s@),
        decreases v@.len(),
    {
        let ghost before = v@;
        v.pop();
        assert(v@ =~= before.drop_last());
    }
    v
}

/// `s` with trailing slashes removed.
pub fn trim_trailing_slashes(s: &str) -> (r: String)
    ensures
        r@ == trim_slashes(s@),
{
    string_of(trimmed_chars(s).as_slice())
}

/// The message when neither a schema nor its catalog has a storage root.
pub open spec fn no_root_message(catalog: Seq<char>, schema: Seq<char>) -> Seq<char> {
    "No managed storage configured for "@ + catalog + "."@ + schema
        + ". Set storage_root on the catalog or schema, or provide an explicit storage_location."@
}

/// A configured root: present and not empty.
pub open spec fn configured(root: Option<String>) -> bool {
    root is Some && root->0@.len() > 0
}

/// The root a schema's managed data goes under: the schema's own when
/// configured, else its catalog's, trailing slashes removed.
pub open spec fn resolved_root(catalog: CatalogRow, schema: SchemaRow) -> Option<Seq<char>> {
    if configured(schema.storage_root) {
        Some(trim_slashes(schema.storage_root->0@))
    } else if configured(catalog.storage_root) {
        Some(trim_slashes(catalog.storage_root->0@))
    } else {
        None
    }
}

/// How resolving a root from rows turns out.
pub open spec fn root_outcome(catalog: CatalogRow, schema: SchemaRow, r: Result<String, UcError>) -> bool {
    match r {
        Ok(s) => resolved_root(catalog, schema) == Some(s@),
        Err(e) => {
            &&& resolved_root(catalog, schema) is None
            &&& e.code == ErrorCode::InvalidArgument
            &&& e.message@ == no_root_message(catalog.name@, schema.name@)
        },
    }
}

/// The storage root a schema resolves to: its own when configured, else its
/// catalog's, trailing slashes removed; an invalid argument when neither is.
pub fn resolve_from_rows(catalog: &CatalogRow, schema: &SchemaRow) -> (r: Result<String, UcError>)
    ensures
        root_outcome(*catalog, *schema, r),
{
    if let Some(root) = &schema.storage_root {
        if root.unicode_len() > 0 {
            return Ok(trim_trailing_slashes(root.as_str()));
        }
    }
    if let Some(root) = &catalog.storage_root {
        if root.unicode_len() > 0 {
            return Ok(trim_trailing_slashes(root.as_str()));
        }
    }
    let mut m = chars_of("No managed storage configured for ");
    append_chars(&mut m, chars_of(catalog.name.as_str()).as_slice());
    m.push('.');
    append_chars(&mut m, chars_of(schema.name.as_str()).as_slice());
    append_chars(
        &mut m,
        chars_of(". Set storage_root on the catalog or schema, or provide an explicit storage_location.").as_slice(),
    );
    let e = UcError::with_message(ErrorCode::InvalidArgument, string_of(m.as_slice()));
    proof {
        reveal_strlit(".");
    }
    assert(e.message@ =~= no_root_message(catalog.name@, schema.name@));
    Err(e)
}

/// The catalog named `name`, when it is stored as one.
pub open spec fn catalog_named(snap: Snapshot, name: Seq<char>) -> Option<CatalogRow> {
    if snap.index().contains_key((EntityKind::Catalog, name)) {
        CatalogRow::of_row(snap.rows()[(EntityKind::Catalog, snap.index()[(EntityKind::Catalog, name)])])
    } else {
        None
    }
}

/// The schema `catalog.schema`, when both are stored as such.
pub open spec fn schema_named(snap: Snapshot, catalog: Seq<char>, schema: Seq<char>) -> Option<SchemaRow> {
    match catalog_named(snap, catalog) {
        Some(c) => {
            let k = (EntityKind::Schema, child_key(c.id, schema));
            if snap.index().contains_key(k) {
                SchemaRow::of_row(snap.rows()[(EntityKind::Schema, snap.index()[k])])
            } else {
                None
            }
        },
        None => None,
    }
}

/// Resolve the storage root for `catalog.schema`: the schema, then its
/// catalog, then the roots. A missing catalog or schema fails the way the
/// lookups do.
pub fn resolve_storage_root(snap: &Snapshot, catalog_name: &str, schema_name: &str) -> (r: Result<String, UcError>)
    requires
        snap.wf(),
    ensures
        match (catalog_named(*snap, catalog_name@), schema_named(*snap, catalog_name@, schema_name@)) {
            (Some(c), Some(s)) => root_outcome(c, s, r),
            _ => r is Err,
        },
        match catalog_named(*snap, catalog_name@) {
            Some(c) => {
                let k = (EntityKind::Schema, child_key(c.id, schema_name@));
                &&& !snap.index().contains_key(k) ==> fails_with(
                    r,
                    ErrorCode::SchemaNotFound,
                    "Schema"@,
                    full_name(catalog_name@, schema_name@),
                    "not found"@,
                )
                &&& snap.index().contains_key(k) && schema_named(*snap, catalog_name@, schema_name@) is None
                    ==> fails_typed::<SchemaRow, String>(r, snap.rows()[(EntityKind::Schema, snap.index()[k])])
            },
            None => {
                let ck = (EntityKind::Catalog, catalog_name@);
                &&& !snap.index().contains_key(ck) ==> fails_with(
                    r,
                    ErrorCode::SchemaNotFound,
                    "Schema"@,
                    full_name(catalog_name@, schema_name@),
                    "not found"@,
                )
                &&& snap.index().contains_key(ck) ==> fails_typed::<CatalogRow, String>(
                    r,
                    snap.rows()[(EntityKind::Catalog, snap.index()[ck])],
                )
            },
        },
{
    let schema = match crate::repos::schema::get_by_full_name(snap, catalog_name, schema_name) {
        Ok(s) => s,
        Err(e) => return Err(e),
    };
    let catalog = match crate::repos::catalog::get_by_name(snap, catalog_name) {
        Ok(c) => c,
        Err(e) => return Err(e),
    };
    resolve_from_rows(&catalog, &schema)
}

/// `<root>/schemas/<schema_id>/<segment>/<id>`, the root's trailing slashes
/// removed.
pub open spec fn child_location(root: Seq<char>, schema_id: u128, segment: Seq<char>, id: u128) -> Seq<char> {
    trim_slashes(root) + "/schemas/"@ + uuid_text(schema_id) + "/"@ + segment + "/"@ + uuid_text(id)
}

fn child_location_string(root: &str, schema_id: u128, segment: &str, id: u128) -> (s: String)
    ensures
        s@ == child_location(root@, schema_id, segment@, id),
{
    let mut v = trimmed_chars(root);
    append_chars(&mut v, chars_of("/schemas/").as_slice());
    append_chars(&mut v, chars_of(uuid_string(schema_id).as_str()).as_slice());
    v.push('/');
    append_chars(&mut v, chars_of(segment).as_slice());
    v.push('/');
    append_chars(&mut v, chars_of(uuid_string(id).as_str()).as_slice());
    proof {
        reveal_strlit("/");
    }
    let s = string_of(v.as_slice());
    assert(s@ =~= child_location(root@, schema_id, segment@, id));
    s
}

/// Where a managed table's data lives.
pub fn managed_table_location(storage_root: &str, schema_id: u128, table_id: u128) -> (s: String)
    ensures
        s@ == child_location(storage_root@, schema_id, "tables"@, table_id),
{
    child_location_string(storage_root, schema_id, "tables", table_id)
}

/// Where a managed volume's data lives.
pub fn managed_volume_location(storage_root: &str, schema_id: u128, volume_id: u128) -> (s: String)
    ensures
        s@ == child_location(storage_root@, schema_id, "volumes"@, volume_id),
{
    child_location_string(storage_root, schema_id, "volumes", volume_id)
}

/// Where a registered model's data lives.
pub fn managed_model_location(storage_root: &str, schema_id: u128, model_id: u128) -> (s: String)
    ensures
        s@ == child_location(storage_root@, schema_id, "models"@, model_id),
{
    child_location_string(storage_root, schema_id, "models", model_id)
}

/// Where a staging table's data lives.
pub fn staging_table_location(storage_root: &str, schema_id: u128, staging_id: u128) -> (s: String)
    ensures
        s@ == child_location(storage_root@, schema_id, "staging"@, staging_id),
{
    child_location_string(storage_root, schema_id, "staging", staging_id)
}

/// `<model_location>/versions/<version>`, trailing slashes of the model
/// location removed.
pub open spec fn version_location(model_location: Seq<char>, version: i32) -> Seq<char> {
    trim_slashes(model_location) + "/versions/"@ + signed_decimal_of(version as int)
}

/// Where a model version's data lives.
pub fn managed_model_version_location(model_location: &str, version: i32) -> (s: String)
    ensures
        s@ == version_location(model_location@, version),
{
    let mut v = trimmed_chars(model_location);
    append_chars(&mut v, chars_of("/versions/").as_slice());
    append_chars(&mut v, signed_decimal_chars(version as i64).as_slice());
    let s = string_of(v.as_slice());
    assert(s@ =~= version_location(model_location@, version));
    s
}

} // verus!
