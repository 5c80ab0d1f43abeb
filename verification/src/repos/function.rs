//! Functions, unique by `(schema_id, name)`, and their parameters, which
//! carry no uniqueness and are found by scanning.

use crate::errors::{ErrorCode, UcError};
use crate::ids::uuid_text;
use crate::models::function::{FunctionParamRow, FunctionRow};
use crate::pagination::over_fetch;
use crate::repos::{
    all_typed, child_key, child_key_string, child_prefix, child_prefix_string, commits,
    fails_with, fetched, id_error, listing, named_error, page_typed, single, str_opt, typed_all,
    typed_by_key, typed_one, typed_outcome, typed_seq, Stored,
};
use crate::store::action::{Action, EntityKind};
use crate::store::row::Row;
use crate::store::{rows_for, Snapshot};
use vstd::prelude::*;

verus! {

/// Create a function; its `(schema_id, name)` must be free.
pub fn create(snap: &Snapshot, row: &FunctionRow) -> (r: Result<(Vec<Action>, FunctionRow), UcError>)
    requires
        snap.wf(),
    ensures
        snap.index().contains_key((EntityKind::Function, child_key(row.schema_id, row.name@)))
            ==> fails_with(r, ErrorCode::ResourceAlreadyExists, "Function"@, row.name@, "already exists"@),
        !snap.index().contains_key((EntityKind::Function, child_key(row.schema_id, row.name@)))
            ==> commits(r, seq![Action::Upsert { kind: EntityKind::Function, id: row.id, body: Row::Function(*row) }], *row),
{
    let key = child_key_string(row.schema_id, row.name.as_str());
    if snap.id_by_natural_key(EntityKind::Function, key.as_str()).is_some() {
        return Err(named_error(ErrorCode::ResourceAlreadyExists, "Function", row.name.as_str(), "already exists"));
    }
    Ok((single(Action::Upsert { kind: EntityKind::Function, id: row.id, body: Row::Function(row.clone()) }), row.clone()))
}

/// One upsert per parameter, in the order given.
pub open spec fn param_upserts(params: Seq<FunctionParamRow>) -> Seq<Action> {
    params.map_values(|p: FunctionParamRow| Action::Upsert { kind: EntityKind::FunctionParameter, id: p.id, body: Row::FunctionParameter(p) })
}

/// Add a whole parameter list in one commit.
pub fn insert_params(params: &[FunctionParamRow]) -> (r: Result<(Vec<Action>, ()), UcError>)
    ensures
        commits(r, param_upserts(params@), ()),
{
    let mut acts: Vec<Action> = Vec::new();
    let mut i: usize = 0;
    while i < params.len()
        invariant
            i <= params@.len(),
            acts@ == param_upserts(params@.take(i as int)),
        decreases params@.len() - i,
    {
        let p = params[i].clone();
        acts.push(Action::Upsert { kind: EntityKind::FunctionParameter, id: p.id, body: Row::FunctionParameter(p) });
        proof {
            assert(acts@ =~= param_upserts(params@.take(i as int + 1)));
        }
        i = i + 1;
    }
    assert(params@.take(i as int) =~= params@);
    Ok((acts, ()))
}

pub fn get_by_schema_and_name(snap: &Snapshot, schema_id: u128, name: &str) -> (r: Result<FunctionRow, UcError>)
    requires
        snap.wf(),
    ensures
        ({
            let k = (EntityKind::Function, child_key(schema_id, name@));
            &&& snap.index().contains_key(k) ==> typed_one::<FunctionRow>(snap.rows()[(EntityKind::Function, snap.index()[k])], r)
            &&& !snap.index().contains_key(k) ==> fails_with(r, ErrorCode::NotFound, "Function"@, name@, "not found"@)
        }),
{
    let key = child_key_string(schema_id, name);
    typed_by_key::<FunctionRow>(snap, EntityKind::Function, key.as_str(), ErrorCode::NotFound, "Function", name)
}

/// The stored parameters, in id order.
pub open spec fn all_params(snap: Snapshot) -> Seq<Row> {
    rows_for(snap.rows(), EntityKind::FunctionParameter, snap.kind_ids(EntityKind::FunctionParameter))
}

/// The parameters among `s` of function `function_id`, in order.
pub open spec fn params_of(s: Seq<FunctionParamRow>, function_id: u128) -> Seq<FunctionParamRow>
    decreases s.len(),
{
    if s.len() == 0 {
        Seq::empty()
    } else {
        let init = params_of(s.drop_last(), function_id);
        if s.last().function_id == function_id {
            init.push(s.last())
        } else {
            init
        }
    }
}

/// The parameters among `s` that are inputs (`is_input`) or return
/// columns, in order.
pub open spec fn params_by_role(s: Seq<FunctionParamRow>, is_input: bool) -> Seq<FunctionParamRow>
    decreases s.len(),
{
    if s.len() == 0 {
        Seq::empty()
    } else {
        let init = params_by_role(s.drop_last(), is_input);
        if (s.last().input_or_return == 0) == is_input {
            init.push(s.last())
        } else {
            init
        }
    }
}

/// In ordinal order.
pub open spec fn by_ordinal(s: Seq<FunctionParamRow>) -> bool {
    forall|i: int, j: int| 0 <= i < j < s.len() ==> s[i].ordinal_position <= s[j].ordinal_position
}

/// A function's parameters, split into inputs and return columns, each in
/// ordinal order.
pub fn get_params(snap: &Snapshot, function_id: u128) -> (r: Result<(Vec<FunctionParamRow>, Vec<FunctionParamRow>), UcError>)
    requires
        snap.wf(),
    ensures
        match r {
            Ok((input, ret)) => exists|sorted: Seq<FunctionParamRow>|
                {
                    &&& all_typed::<FunctionParamRow>(all_params(*snap))
                    &&& by_ordinal(sorted)
                    &&& sorted.to_multiset() == params_of(typed_seq::<FunctionParamRow>(all_params(*snap)), function_id).to_multiset()
                    &&& input@ == params_by_role(sorted, true)
                    &&& ret@ == params_by_role(sorted, false)
                },
            Err(e) => typed_outcome::<FunctionParamRow>(all_params(*snap), Err(e)),
        },
{
    broadcast use vstd::seq_lib::group_to_multiset_ensures;

    let rows = snap.iter(EntityKind::FunctionParameter);
    let all = match typed_all::<FunctionParamRow>(rows.as_slice()) {
        Ok(v) => v,
        Err(e) => return Err(e),
    };
    let mut out: Vec<FunctionParamRow> = Vec::new();
    let mut i: usize = 0;
    assert(all@.take(0) =~= Seq::<FunctionParamRow>::empty());
    while i < all.len()
        invariant
            i <= all@.len(),
            by_ordinal(out@),
            out@.to_multiset() == params_of(all@.take(i as int), function_id).to_multiset(),
        decreases all@.len() - i,
    {
        proof {
            assert(all@.take(i as int + 1).drop_last() =~= all@.take(i as int));
            assert(all@.take(i as int + 1).last() == all@[i as int]);
        }
        if all[i].function_id == function_id {
            let x = all[i].clone();
            let mut j: usize = 0;
            while j < out.len() && out[j].ordinal_position <= x.ordinal_position
                invariant
                    j <= out@.len(),
                    forall|k: int| 0 <= k < j ==> out@[k].ordinal_position <= x.ordinal_position,
                decreases out@.len() - j,
            {
                j = j + 1;
            }
            let ghost o = out@;
            out.insert(j, x);
            proof {
                vstd::seq_lib::to_multiset_insert(o, j as int, x);
                vstd::seq_lib::to_multiset_build(params_of(all@.take(i as int), function_id), x);
                assert forall|a: int, b: int| 0 <= a < b < out@.len() implies out@[a].ordinal_position <= out@[b].ordinal_position by {
                    if b < j {
                    } else if b == j {
                        assert(out@[a] == o[a]);
                    } else if a < j {
                        assert(out@[b] == o[b - 1]);
                    } else if a == j {
                        assert(out@[b] == o[b - 1]);
                        if b - 1 > j {
                            assert(o[j as int].ordinal_position <= o[b - 1].ordinal_position);
                        }
                    } else {
                        assert(out@[a] == o[a - 1]);
                        assert(out@[b] == o[b - 1]);
                    }
                }
            }
        }
        i = i + 1;
    }
    assert(all@.take(i as int) =~= all@);
    let mut input: Vec<FunctionParamRow> = Vec::new();
    let mut ret: Vec<FunctionParamRow> = Vec::new();
    let mut k: usize = 0;
    while k < out.len()
        invariant
            k <= out@.len(),
            input@ == params_by_role(out@.take(k as int), true),
            ret@ == params_by_role(out@.take(k as int), false),
        decreases out@.len() - k,
    {
        proof {
            assert(out@.take(k as int + 1).drop_last() =~= out@.take(k as int));
            assert(out@.take(k as int + 1).last() == out@[k as int]);
        }
        let p = out[k].clone();
        if p.input_or_return == 0 {
            input.push(p);
        } else {
            ret.push(p);
        }
        k = k + 1;
    }
    assert(out@.take(k as int) =~= out@);
    Ok((input, ret))
}

/// One page of a schema's functions in name order, after `page_token`.
pub fn list(snap: &Snapshot, schema_id: u128, page_token: Option<&str>, max_results: i64) -> (r: Result<(Vec<FunctionRow>, Option<String>), UcError>)
    requires
        snap.wf(),
    ensures
        listing::<FunctionRow>(fetched(*snap, EntityKind::Function, child_prefix(schema_id), str_opt(page_token), max_results), max_results, r),
{
    let prefix = child_prefix_string(schema_id);
    let found = snap.scan_prefix(EntityKind::Function, prefix.as_str(), page_token, over_fetch(max_results));
    page_typed::<FunctionRow>(found, max_results)
}

/// Removals of the parameters among `s` that belong to function `id`, in
/// order.
pub open spec fn param_removals(s: Seq<FunctionParamRow>, id: u128) -> Seq<Action>
    decreases s.len(),
{
    if s.len() == 0 {
        Seq::empty()
    } else {
        let init = param_removals(s.drop_last(), id);
        if s.last().function_id == id {
            init.push(Action::Remove { kind: EntityKind::FunctionParameter, id: s.last().id })
        } else {
            init
        }
    }
}

/// Drop function `id` and its parameters in one commit. A missing function
/// is an error and writes nothing.
pub fn delete(snap: &Snapshot, id: u128) -> (r: Result<(Vec<Action>, ()), UcError>)
    requires
        snap.wf(),
    ensures
        !snap.rows().contains_key((EntityKind::Function, id)) ==> fails_with(r, ErrorCode::NotFound, "Function"@, uuid_text(id), "not found"@),
        snap.rows().contains_key((EntityKind::Function, id)) ==> match r {
            Ok((acts, _)) => {
                &&& all_typed::<FunctionParamRow>(all_params(*snap))
                &&& acts@ == seq![Action::Remove { kind: EntityKind::Function, id }] + param_removals(
                    typed_seq::<FunctionParamRow>(all_params(*snap)),
                    id,
                )
            },
            Err(e) => typed_outcome::<FunctionParamRow>(all_params(*snap), Err(e)),
        },
{
    if snap.get(EntityKind::Function, id).is_none() {
        return Err(id_error(ErrorCode::NotFound, "Function", id, "not found"));
    }
    let rows = snap.iter(EntityKind::FunctionParameter);
    let params = match typed_all::<FunctionParamRow>(rows.as_slice()) {
        Ok(v) => v,
        Err(e) => return Err(e),
    };
    let mut acts = single(Action::Remove { kind: EntityKind::Function, id });
    let ghost head = acts@;
    let mut i: usize = 0;
    assert(params@.take(0) =~= Seq::<FunctionParamRow>::empty());
    assert(acts@ =~= head + param_removals(params@.take(0), id));
    while i < params.len()
        invariant
            i <= params@.len(),
            acts@ == head + param_removals(params@.take(i as int), id),
        decreases params@.len() - i,
    {
        proof {
            assert(params@.take(i as int + 1).drop_last() =~= params@.take(i as int));
            assert(params@.take(i as int + 1).last() == params@[i as int]);
        }
        if params[i].function_id == id {
            acts.push(Action::Remove { kind: EntityKind::FunctionParameter, id: params[i].id });
            assert(acts@ =~= head + param_removals(params@.take(i as int + 1), id));
        }
        i = i + 1;
    }
    assert(params@.take(i as int) =~= params@);
    Ok((acts, ()))
}

/// Listing a schema's functions resumes where the last page stopped: when a listing
/// returns a token, its page holds the first functions the scan selects, the
/// token is the name of the page's last function, and a listing after that token
/// selects exactly the functions that follow the page, so paging neither repeats
/// nor skips one.
pub proof fn lemma_list_resumes_after_token(
    snap: Snapshot,
    schema_id: u128,
    page_token: Option<Seq<char>>,
    max_results: i64,
    r: Result<(Vec<FunctionRow>, Option<String>), UcError>,
)
    requires
        snap.wf(),
        listing::<FunctionRow>(fetched(snap, EntityKind::Function, child_prefix(schema_id), page_token, max_results), max_results, r),
        r matches Ok((_, t)) && t is Some,
    ensures
        ({
            let ids = crate::store::select_ids(snap.index_entries(), EntityKind::Function, child_prefix(schema_id), page_token);
            let (page, token) = r->Ok_0;
            let n = crate::pagination::page_limit(max_results);
            &&& 0 < n < ids.len()
            &&& page@ == crate::repos::typed_seq::<FunctionRow>(crate::store::rows_for(snap.rows(), EntityKind::Function, ids.take(n)))
            &&& token->0@ == page@[n - 1].name@
            &&& crate::store::select_ids(snap.index_entries(), EntityKind::Function, child_prefix(schema_id), Some(token->0@)) == ids.skip(n)
        }),
{
    let prefix = child_prefix(schema_id);
    crate::repos::lemma_listing_resumes::<FunctionRow>(snap, EntityKind::Function, prefix, page_token, max_results, r);
    let ids = crate::store::select_ids(snap.index_entries(), EntityKind::Function, prefix, page_token);
    let n = crate::pagination::page_limit(max_results);
    let x = r->Ok_0.0@[n - 1];
    let key = crate::store::row_key(snap, EntityKind::Function, ids[n - 1]);
    assert(key == crate::ids::uuid_text(x.schema_id) + crate::store::row::sep() + x.name@);
    assert(crate::store::key_rest(key, prefix) =~= x.name@);
}

} // verus!
