//! Decisions of the cache in front of a table: whether a query names one
//! row by its whole primary key, and the script that stores rows in the
//! cache with a time to live; and the steps of the cached operations:
//! which rows an update refreshes or loads, where a query is answered, what
//! a removal drops, and how a cached row is typed.
use vstd::prelude::*;
use vstd::string::StringExecFns;
use crate::json::{Json, entry_value, entries_get, json_get, json_text, cache_text};
use crate::text::{views, str_eq};
use crate::dal::table::{Table, key_of_values, common_info, model_key, table_key};
use crate::error::Error;
use crate::dal::lua::{
    LuaScript, prelude_statements, hmset_statement, hmset_count_statement, expire_statement,
    pair_keys, pair_values, del_statement, srem_statement, utf8_views,
};
use vstd::string::StrSliceExecFns;
use vstd::utf8::encode_utf8;

verus! {

/// The condition key that asks for equality on a column: `column__eq`.
pub open spec fn eq_key(column: Seq<char>) -> Seq<char> {
    column + "__eq"@
}

/// Whether a key occurs among the found pairs.
pub open spec fn has_key(found: Seq<(Seq<char>, Json)>, key: Seq<char>) -> bool {
    exists|i: int| 0 <= i < found.len() && #[trigger] found[i].0 == key
}

/// For each primary key in order, the value of its `__eq` condition, each
/// primary key at most once.
pub open spec fn pk_values(pks: Seq<Seq<char>>, cond: Seq<(String, Json)>) -> Seq<(Seq<char>, Json)>
    decreases pks.len(),
{
    if pks.len() == 0 {
        Seq::empty()
    } else {
        let found = pk_values(pks.drop_last(), cond);
        let pk = pks.last();
        match entry_value(cond, eq_key(pk)) {
            Some(v) => if has_key(found, pk) {
                found
            } else {
                found.push((pk, v))
            },
            None => found,
        }
    }
}

proof fn lemma_pk_values_len(pks: Seq<Seq<char>>, cond: Seq<(String, Json)>)
    ensures
        pk_values(pks, cond).len() <= pks.len(),
    decreases pks.len(),
{
    if pks.len() > 0 {
        lemma_pk_values_len(pks.drop_last(), cond);
    }
}

/// A query names a whole primary key only when it holds an equality
/// condition (`column__eq`) on every primary key column; only such a query
/// is answered from the cache.
pub proof fn lemma_whole_key_needs_every_column(pks: Seq<Seq<char>>, cond: Seq<(String, Json)>)
    ensures
        pk_values(pks, cond).len() == pks.len() ==> forall|i: int|
            0 <= i < pks.len() ==> #[trigger] entry_value(cond, eq_key(pks[i])) is Some,
    decreases pks.len(),
{
    if pks.len() > 0 {
        let rest = pks.drop_last();
        lemma_whole_key_needs_every_column(rest, cond);
        lemma_pk_values_len(rest, cond);
        if pk_values(pks, cond).len() == pks.len() {
            assert forall|i: int| 0 <= i < pks.len() implies #[trigger] entry_value(
                cond,
                eq_key(pks[i]),
            ) is Some by {
                if i < rest.len() {
                    assert(rest[i] == pks[i]);
                }
            }
        }
    }
}

/// The found (primary key, value) pairs, with the values by reference.
pub open spec fn found_views(found: Seq<(String, &Json)>) -> Seq<(Seq<char>, Json)> {
    found.map_values(|p: (String, &Json)| (p.0@, *p.1))
}

/// The values of the `__eq` conditions on the table's primary keys, and
/// whether they name the whole primary key (one value for each primary
/// key column).
pub fn match_pk<'a>(tbl: &Table, cond: &'a Vec<(String, Json)>) -> (r: (Vec<(String, &'a Json)>, bool))
    ensures
        found_views(r.0@) == pk_values(tbl.pks(), cond@),
        r.1 == (pk_values(tbl.pks(), cond@).len() == tbl.pks().len()),
{
    let pks = tbl.get_pks();
    let mut found: Vec<(String, &'a Json)> = Vec::new();
    let mut i: usize = 0;
    while i < pks.len()
        invariant
            i <= pks.len(),
            views(pks@) == tbl.pks(),
            found_views(found@) == pk_values(views(pks@).take(i as int), cond@),
        decreases pks.len() - i,
    {
        let pk = &pks[i];
        assert(views(pks@).take(i as int + 1).drop_last() =~= views(pks@).take(i as int));
        let mut key = String::from_str(pk.as_str());
        key.append("__eq");
        match entries_get(cond, key.as_str()) {
            Some(v) => {
                let mut seen = false;
                let mut j: usize = 0;
                while j < found.len()
                    invariant
                        j <= found.len(),
                        seen == exists|k: int| 0 <= k < j && #[trigger] found_views(found@)[k].0 == pk@,
                    decreases found.len() - j,
                {
                    let same = str_eq(found[j].0.as_str(), pk.as_str());
                    let ghost fv = found_views(found@);
                    assert(fv[j as int].0 == found@[j as int].0@);
                    if same {
                        seen = true;
                        assert(exists|k: int| 0 <= k < j + 1 && #[trigger] fv[k].0 == pk@);
                    } else {
                        assert forall|k: int| 0 <= k < j + 1 && #[trigger] fv[k].0 == pk@ implies 0 <= k
                            < j by {}
                    }
                    j = j + 1;
                }
                assert(seen == has_key(found_views(found@), pk@));
                if !seen {
                    let ghost before = found_views(found@);
                    found.push((pk.clone(), v));
                    assert(found_views(found@) =~= before.push((pk@, *v)));
                }
            },
            None => {},
        }
        i = i + 1;
    }
    assert(views(pks@).take(pks.len() as int) =~= views(pks@));
    let all = found.len() == pks.len();
    (found, all)
}

/// The (field, encoded value) pairs of a row to cache, by their views.
pub open spec fn fields_view(fv: Seq<(String, Vec<u8>)>) -> Seq<(Seq<char>, Seq<u8>)> {
    fv.map_values(|p: (String, Vec<u8>)| (p.0@, p.1@))
}

/// Rows to cache, by their views: each row's key and its fields.
pub open spec fn rows_view(rows: Seq<(String, Vec<(String, Vec<u8>)>)>) -> Seq<
    (Seq<char>, Seq<(Seq<char>, Seq<u8>)>),
> {
    rows.map_values(|r: (String, Vec<(String, Vec<u8>)>)| (r.0@, fields_view(r.1@)))
}

/// The field names of a row to cache.
pub open spec fn field_names(f: Seq<(Seq<char>, Seq<u8>)>) -> Seq<Seq<char>> {
    f.map_values(|p: (Seq<char>, Seq<u8>)| p.0)
}

/// The encoded values of a row to cache.
pub open spec fn field_bytes(f: Seq<(Seq<char>, Seq<u8>)>) -> Seq<Seq<u8>> {
    f.map_values(|p: (Seq<char>, Seq<u8>)| p.1)
}

/// The keys of the script that stores the rows: for each row, its fields,
/// then the row's key.
pub open spec fn rows_keys(rows: Seq<(Seq<char>, Seq<(Seq<char>, Seq<u8>)>)>) -> Seq<Seq<char>>
    decreases rows.len(),
{
    if rows.len() == 0 {
        Seq::empty()
    } else {
        rows_keys(rows.drop_last()) + field_names(rows.last().1) + seq![rows.last().0]
    }
}

/// The values of the script that stores the rows: for each row, its
/// fields' values.
pub open spec fn rows_args(rows: Seq<(Seq<char>, Seq<(Seq<char>, Seq<u8>)>)>) -> Seq<Seq<u8>>
    decreases rows.len(),
{
    if rows.len() == 0 {
        Seq::empty()
    } else {
        rows_args(rows.drop_last()) + field_bytes(rows.last().1)
    }
}

/// The statements of the script that stores the rows: for each row, the
/// hash update of its fields, its count, and its expiry.
pub open spec fn rows_statements(rows: Seq<(Seq<char>, Seq<(Seq<char>, Seq<u8>)>)>, seconds: nat) -> Seq<
    Seq<char>,
>
    decreases rows.len(),
{
    if rows.len() == 0 {
        prelude_statements()
    } else {
        let prev = rows.drop_last();
        let k = rows_keys(prev).len();
        let a = rows_args(prev).len();
        let n = rows.last().1.len();
        rows_statements(prev, seconds).push(hmset_statement(rows.last().0, (k + 1) as nat, (a + 1) as nat, n)).push(
            hmset_count_statement(),
        ).push(expire_statement((k + n + 1) as nat, seconds))
    }
}

/// The number of keys of the script that stores the rows.
pub open spec fn rows_size(rows: Seq<(Seq<char>, Seq<(Seq<char>, Seq<u8>)>)>) -> nat
    decreases rows.len(),
{
    if rows.len() == 0 {
        0
    } else {
        rows_size(rows.drop_last()) + rows.last().1.len() + 1
    }
}

proof fn lemma_rows_size(rows: Seq<(Seq<char>, Seq<(Seq<char>, Seq<u8>)>)>)
    ensures
        rows_keys(rows).len() == rows_size(rows),
        rows_args(rows).len() <= rows_size(rows),
    decreases rows.len(),
{
    if rows.len() > 0 {
        lemma_rows_size(rows.drop_last());
    }
}

proof fn lemma_rows_lengths_grow(rows: Seq<(Seq<char>, Seq<(Seq<char>, Seq<u8>)>)>, i: int)
    requires
        0 <= i <= rows.len(),
    ensures
        rows_keys(rows.take(i)).len() <= rows_keys(rows).len(),
        rows_args(rows.take(i)).len() <= rows_args(rows).len(),
    decreases rows.len() - i,
{
    if i < rows.len() {
        lemma_rows_lengths_grow(rows, i + 1);
        assert(rows.take(i + 1).drop_last() =~= rows.take(i));
    } else {
        assert(rows.take(i) =~= rows);
    }
}

proof fn lemma_pairs_view(fv: Seq<(String, Vec<u8>)>)
    ensures
        pair_keys(fv) == field_names(fields_view(fv)),
        pair_values(fv) == field_bytes(fields_view(fv)),
{
    assert(pair_keys(fv) =~= field_names(fields_view(fv)));
    assert(pair_values(fv) =~= field_bytes(fields_view(fv)));
}

/// The script that stores each row as a hash under its key, with all the
/// fields given, and lets each key expire after `seconds`.  A row is its
/// key and its (field, encoded value) pairs.
pub fn cache_rows_script(rows: Vec<(String, Vec<(String, Vec<u8>)>)>, seconds: u64) -> (s: LuaScript)
    requires
        rows_keys(rows_view(rows@)).len() <= i32::MAX,
        rows_args(rows_view(rows@)).len() <= i32::MAX,
    ensures
        s.wf(),
        s.keys() == rows_keys(rows_view(rows@)),
        s.args() == rows_args(rows_view(rows@)),
        s.statements() == rows_statements(rows_view(rows@), seconds as nat),
{
    let ghost rv = rows_view(rows@);
    let mut script = LuaScript::new();
    let mut i: usize = 0;
    while i < rows.len()
        invariant
            i <= rows.len(),
            rv == rows_view(rows@),
            script.wf(),
            rows_keys(rv).len() <= i32::MAX,
            rows_args(rv).len() <= i32::MAX,
            script.keys() == rows_keys(rv.take(i as int)),
            script.args() == rows_args(rv.take(i as int)),
            script.statements() == rows_statements(rv.take(i as int), seconds as nat),
        decreases rows.len() - i,
    {
        assert(rv.take(i as int + 1).drop_last() =~= rv.take(i as int));
        assert(rv.take(i as int + 1).last() == (rows@[i as int].0@, fields_view(rows@[i as int].1@)));
        proof { lemma_rows_lengths_grow(rv, i as int + 1); }
        let key = rows[i].0.clone();
        let fv = clone_fields(&rows[i].1);
        proof {
            lemma_pairs_view(fv@);
            lemma_pairs_view(rows@[i as int].1@);
        }
        script.hmset(key.clone(), fv);
        script.expire(key, seconds);
        assert(script.keys() =~= rows_keys(rv.take(i as int + 1)));
        assert(script.args() =~= rows_args(rv.take(i as int + 1)));
        i = i + 1;
    }
    assert(rv.take(rows.len() as int) =~= rv);
    script
}

/// A copy of a list of (field, encoded value) pairs.
fn clone_fields(fv: &Vec<(String, Vec<u8>)>) -> (r: Vec<(String, Vec<u8>)>)
    ensures
        fields_view(r@) == fields_view(fv@),
        r@.len() == fv@.len(),
{
    let mut r: Vec<(String, Vec<u8>)> = Vec::new();
    let mut i: usize = 0;
    while i < fv.len()
        invariant
            i <= fv.len(),
            r@.len() == i,
            forall|j: int| 0 <= j < i ==> #[trigger] r@[j].0@ == fv@[j].0@,
            forall|j: int| 0 <= j < i ==> #[trigger] r@[j].1@ == fv@[j].1@,
        decreases fv.len() - i,
    {
        let v = fv[i].1.clone();
        assert(v@ =~= fv@[i as int].1@);
        r.push((fv[i].0.clone(), v));
        i = i + 1;
    }
    assert(fields_view(r@) =~= fields_view(fv@));
    r
}

/// The body of an update: its `conditions` object, then its `values` object.
pub open spec fn update_request_parts(body: Json) -> Result<
    (Seq<(String, Json)>, Seq<(String, Json)>),
    Seq<char>,
> {
    match json_get(body, "conditions"@) {
        None => Err("invalid json format"@),
        Some(Json::Object(c)) => match json_get(body, "values"@) {
            None => Err("invalid json format"@),
            Some(Json::Object(v)) => Ok((c@, v@)),
            Some(_) => Err("invalid json format at token values"@),
        },
        Some(_) => Err("invalid json format at token conditions"@),
    }
}

fn object_at<'a>(body: &'a Json, token: &str) -> (r: Option<&'a Json>)
    ensures
        r matches Some(v) ==> json_get(*body, token@) == Some(*v),
        r is None ==> json_get(*body, token@) is None,
{
    match body {
        Json::Object(entries) => entries_get(entries, token),
        _ => None,
    }
}

/// The conditions and the values of an update's body.
pub fn update_request(body: &Json) -> (r: Result<(&Vec<(String, Json)>, &Vec<(String, Json)>), Error>)
    ensures
        match update_request_parts(*body) {
            Ok((c, v)) => r matches Ok((rc, rv)) && rc@ == c && rv@ == v,
            Err(m) => r matches Err(e) && common_info(e) == Some(m),
        },
{
    let c = match object_at(body, "conditions") {
        None => return Err(Error::CommonError { info: String::from_str("invalid json format") }),
        Some(Json::Object(c)) => c,
        Some(_) => return Err(
            Error::CommonError { info: String::from_str("invalid json format at token conditions") },
        ),
    };
    let v = match object_at(body, "values") {
        None => return Err(Error::CommonError { info: String::from_str("invalid json format") }),
        Some(Json::Object(v)) => v,
        Some(_) => return Err(
            Error::CommonError { info: String::from_str("invalid json format at token values") },
        ),
    };
    Ok((c, v))
}

/// The conditions of a query: its body, which must be an object.
pub fn query_conditions(body: &Json) -> (r: Result<&Vec<(String, Json)>, Error>)
    ensures
        body matches Json::Object(c) ==> (r matches Ok(rc) && rc@ == c@),
        !(body is Object) ==> (r matches Err(e) && common_info(e) == Some("invalid json format"@)),
{
    match body {
        Json::Object(c) => Ok(c),
        _ => Err(Error::CommonError { info: String::from_str("invalid json format") }),
    }
}

/// The cache texts of the found values, when each of them has one.
pub open spec fn found_texts(found: Seq<(Seq<char>, Json)>) -> Option<Seq<Seq<char>>>
    decreases found.len(),
{
    if found.len() == 0 {
        Some(Seq::empty())
    } else {
        match (found_texts(found.drop_last()), json_text(found.last().1)) {
            (Some(ts), Some(t)) => Some(ts.push(t)),
            _ => None,
        }
    }
}

proof fn lemma_found_texts_none_extends(found: Seq<(Seq<char>, Json)>, i: int)
    requires
        0 <= i <= found.len(),
        found_texts(found.take(i)) is None,
    ensures
        found_texts(found) is None,
    decreases found.len() - i,
{
    if i == found.len() {
        assert(found.take(i) =~= found);
    } else {
        assert(found.take(i + 1).drop_last() =~= found.take(i));
        lemma_found_texts_none_extends(found, i + 1);
    }
}

/// When the found values name the whole primary key, they come in the
/// order of the primary keys, one for each.
pub proof fn lemma_whole_key_in_key_order(pks: Seq<Seq<char>>, cond: Seq<(String, Json)>)
    ensures
        pk_values(pks, cond).len() == pks.len() ==> forall|i: int|
            0 <= i < pks.len() ==> #[trigger] pk_values(pks, cond)[i].0 == pks[i],
    decreases pks.len(),
{
    if pks.len() > 0 {
        lemma_whole_key_in_key_order(pks.drop_last(), cond);
        lemma_pk_values_len(pks.drop_last(), cond);
        if pk_values(pks, cond).len() == pks.len() {
            assert forall|i: int| 0 <= i < pks.len() implies #[trigger] pk_values(pks, cond)[i].0
                == pks[i] by {
                if i < pks.len() - 1 {
                    assert(pks.drop_last()[i] == pks[i]);
                }
            }
        }
    }
}

/// Whether the `__eq` conditions name the whole primary key of the table.
pub open spec fn names_whole_key(tbl: Table, cond: Seq<(String, Json)>) -> bool {
    pk_values(tbl.pks(), cond).len() == tbl.pks().len()
}

/// The cache key of the row that the conditions name by its whole primary
/// key, when every value of it has a cache text.
pub open spec fn named_row_key(tbl: Table, cond: Seq<(String, Json)>) -> Option<Seq<char>> {
    match found_texts(pk_values(tbl.pks(), cond)) {
        Some(ts) => Some(key_of_values(tbl.db(), tbl.model(), tbl.pks(), ts)),
        None => None,
    }
}

/// The texts of the found values, when each has one.
fn found_key_texts(found: &Vec<(String, &Json)>) -> (r: Option<Vec<String>>)
    ensures
        match found_texts(found_views(found@)) {
            Some(ts) => r matches Some(v) && views(v@) == ts,
            None => r is None,
        },
{
    let ghost fv = found_views(found@);
    let mut texts: Vec<String> = Vec::new();
    let mut i: usize = 0;
    while i < found.len()
        invariant
            i <= found.len(),
            fv == found_views(found@),
            found_texts(fv.take(i as int)) == Some(views(texts@)),
        decreases found.len() - i,
    {
        assert(fv.take(i as int + 1).drop_last() =~= fv.take(i as int));
        assert(fv.take(i as int + 1).last() == fv[i as int]);
        match cache_text(found[i].1) {
            Some(t) => {
                texts.push(t);
                assert(views(texts@) =~= views(texts@.drop_last()).push(texts@.last()@));
            },
            None => {
                proof { lemma_found_texts_none_extends(fv, i as int + 1); }
                return None;
            },
        }
        i = i + 1;
    }
    assert(fv.take(found.len() as int) =~= fv);
    Some(texts)
}

/// The first step of an update that has a cache.
pub enum UpdateStep<'a> {
    /// The conditions name one row by its whole primary key, under this
    /// cache key: when the cache holds it, refresh it there.
    CheckCached(String),
    /// As `CheckCached`, but a value of the primary key is an array or an
    /// object, whose JSON text (part of the cache key) the service writes:
    /// the values, in the order of the primary keys.
    CheckCachedByValues(Vec<(String, &'a Json)>),
    /// Select the matching rows from the database and load them.
    SelectRows,
}

/// Where an update with a cache starts: at the cached row, when the
/// conditions name one row by its whole primary key, else at the rows that
/// the database selects.
pub fn update_start<'a>(tbl: &Table, cond: &'a Vec<(String, Json)>) -> (r: UpdateStep<'a>)
    ensures
        !names_whole_key(*tbl, cond@) <==> r is SelectRows,
        names_whole_key(*tbl, cond@) ==> match named_row_key(*tbl, cond@) {
            Some(k) => r matches UpdateStep::CheckCached(mid) && mid@ == k,
            None => r matches UpdateStep::CheckCachedByValues(vals) && found_views(vals@) == pk_values(
                tbl.pks(),
                cond@,
            ),
        },
{
    let (found, whole) = match_pk(tbl, cond);
    if !whole {
        return UpdateStep::SelectRows;
    }
    match found_key_texts(&found) {
        Some(texts) => UpdateStep::CheckCached(tbl.values_key(&texts)),
        None => UpdateStep::CheckCachedByValues(found),
    }
}

/// Where a query is answered.
pub enum FindRoute<'a> {
    /// From the cache, under this key (loading the row first when the cache
    /// lacks it).
    FromCache(String),
    /// From the cache, under the key of these primary key values, one of
    /// which is an array or an object whose JSON text the service writes.
    FromCacheByValues(Vec<(String, &'a Json)>),
    /// From the database.
    FromDb,
}

/// A query is answered from the cache when the alias has one and the
/// query names one row by its whole primary key; any other query goes to
/// the database.
pub fn find_route<'a>(tbl: &Table, cond: &'a Vec<(String, Json)>, has_cache: bool) -> (r: FindRoute<'a>)
    ensures
        (has_cache && names_whole_key(*tbl, cond@)) <==> !(r is FromDb),
        has_cache && names_whole_key(*tbl, cond@) ==> match named_row_key(*tbl, cond@) {
            Some(k) => r matches FindRoute::FromCache(mid) && mid@ == k,
            None => r matches FindRoute::FromCacheByValues(vals) && found_views(vals@) == pk_values(
                tbl.pks(),
                cond@,
            ),
        },
{
    if !has_cache {
        return FindRoute::FromDb;
    }
    match update_start(tbl, cond) {
        UpdateStep::CheckCached(mid) => FindRoute::FromCache(mid),
        UpdateStep::CheckCachedByValues(vals) => FindRoute::FromCacheByValues(vals),
        UpdateStep::SelectRows => FindRoute::FromDb,
    }
}

/// The cache keys of rows, each taken from the row's text values.
pub open spec fn rows_model_keys(tbl: Table, rows: Seq<Vec<(String, String)>>) -> Seq<Seq<char>> {
    rows.map_values(|r: Vec<(String, String)>| model_key(tbl.db(), tbl.model(), tbl.pks(), r@))
}

/// `s` is the script that drops the cached rows under the keys `mids`: it
/// deletes the keys and removes them from the table's set of rows.
pub open spec fn drops_keys(s: LuaScript, tbl: Table, mids: Seq<Seq<char>>) -> bool {
    &&& s.wf()
    &&& s.keys() == mids.push(table_key(tbl.db(), tbl.model(), "set"@))
    &&& s.args() == mids.map_values(|k: Seq<char>| encode_utf8(k))
    &&& s.statements() == prelude_statements().push(del_statement(1, mids.len())).push(
        srem_statement((mids.len() + 1) as nat, 1, mids.len()),
    )
}

fn clone_strings(v: &Vec<String>) -> (r: Vec<String>)
    ensures
        views(r@) == views(v@),
        r@.len() == v@.len(),
{
    let mut r: Vec<String> = Vec::new();
    let mut i: usize = 0;
    while i < v.len()
        invariant
            i <= v.len(),
            r@.len() == i,
            forall|j: int| 0 <= j < i ==> #[trigger] r@[j]@ == v@[j]@,
        decreases v.len() - i,
    {
        r.push(v[i].clone());
        i = i + 1;
    }
    assert(views(r@) =~= views(v@));
    r
}

/// The script that drops the cached rows under the keys `mids`.
pub fn drop_keys_script(tbl: &Table, mids: Vec<String>) -> (s: LuaScript)
    requires
        mids@.len() + 1 <= i32::MAX,
    ensures
        drops_keys(s, *tbl, views(mids@)),
{
    let mut script = LuaScript::new();
    let keys = clone_strings(&mids);
    script.del(keys);
    proof {
        assert(utf8_views(mids@) =~= views(mids@).map_values(|k: Seq<char>| encode_utf8(k)));
    }
    script.srem(tbl.get_table_set_key(), mids);
    script
}

/// What a removal drops from the cache before the database: nothing when
/// no row matches, else the cached rows under the keys of the matching
/// rows.
pub fn remove_plan(tbl: &Table, rows: &Vec<Vec<(String, String)>>) -> (r: Option<LuaScript>)
    requires
        rows@.len() + 1 <= i32::MAX,
    ensures
        r is None <==> rows@.len() == 0,
        r matches Some(s) ==> drops_keys(s, *tbl, rows_model_keys(*tbl, rows@)),
{
    if rows.len() == 0 {
        return None;
    }
    let mut mids: Vec<String> = Vec::new();
    let mut i: usize = 0;
    while i < rows.len()
        invariant
            i <= rows.len(),
            mids@.len() == i,
            forall|j: int| 0 <= j < i ==> #[trigger] mids@[j]@ == model_key(tbl.db(), tbl.model(), tbl.pks(), rows@[j]@),
        decreases rows.len() - i,
    {
        mids.push(tbl.get_model_key(&rows[i]));
        i = i + 1;
    }
    assert(views(mids@) =~= rows_model_keys(*tbl, rows@));
    Some(drop_keys_script(tbl, mids))
}

/// After the database update of a cached update: the number of rows the
/// cache loaded, which is the reply; and, when the database update failed,
/// the script that drops those rows from the cache again.
pub fn after_cached_update(tbl: &Table, mids: Vec<String>, db_ok: bool) -> (r: (usize, Option<LuaScript>))
    requires
        mids@.len() + 1 <= i32::MAX,
    ensures
        r.0 == mids@.len(),
        r.1 is None <==> db_ok,
        r.1 matches Some(s) ==> drops_keys(s, *tbl, views(mids@)),
{
    let n = mids.len();
    if db_ok {
        (n, None)
    } else {
        (n, Some(drop_keys_script(tbl, mids)))
    }
}

/// The text under `key` among (name, text) pairs; the first pair counts.
pub open spec fn text_value(pairs: Seq<(String, String)>, key: Seq<char>) -> Option<Seq<char>>
    decreases pairs.len(),
{
    if pairs.len() == 0 {
        None
    } else if pairs[0].0@ == key {
        Some(pairs[0].1@)
    } else {
        text_value(pairs.drop_first(), key)
    }
}

fn text_get<'a>(pairs: &'a Vec<(String, String)>, key: &str) -> (r: Option<&'a String>)
    ensures
        r matches Some(t) ==> text_value(pairs@, key@) == Some(t@),
        r is None ==> text_value(pairs@, key@) is None,
{
    let mut i: usize = 0;
    assert(pairs@.skip(0) =~= pairs@);
    while i < pairs.len()
        invariant
            i <= pairs.len(),
            text_value(pairs@, key@) == text_value(pairs@.skip(i as int), key@),
        decreases pairs.len() - i,
    {
        assert(pairs@.skip(i as int).drop_first() =~= pairs@.skip(i as int + 1));
        if str_eq(pairs[i].0.as_str(), key) {
            return Some(&pairs[i].1);
        }
        i = i + 1;
    }
    None
}

/// The values that name no field of the row, in their order, encoded.
pub open spec fn added_fields(row: Seq<(String, String)>, values: Seq<(String, String)>) -> Seq<
    (Seq<char>, Seq<u8>),
>
    decreases values.len(),
{
    if values.len() == 0 {
        Seq::empty()
    } else {
        let rest = added_fields(row, values.drop_last());
        let v = values.last();
        if text_value(row, v.0@) is None {
            rest.push((v.0@, encode_utf8(v.1@)))
        } else {
            rest
        }
    }
}

proof fn lemma_added_fields_len(row: Seq<(String, String)>, values: Seq<(String, String)>)
    ensures
        added_fields(row, values).len() <= values.len(),
    decreases values.len(),
{
    if values.len() > 0 {
        lemma_added_fields_len(row, values.drop_last());
    }
}

/// The field of a row with the values applied: the value's text where the
/// values name the field, the row's own text otherwise.
pub open spec fn updated_field(p: (String, String), values: Seq<(String, String)>) -> (Seq<char>, Seq<u8>) {
    (
        p.0@,
        encode_utf8(
            match text_value(values, p.0@) {
                Some(t) => t,
                None => p.1@,
            },
        ),
    )
}

/// A row with the values applied, encoded: each field of the row, with the
/// value's text where the values name it, then the values that name no
/// field of the row.
pub open spec fn updated_fields(row: Seq<(String, String)>, values: Seq<(String, String)>) -> Seq<
    (Seq<char>, Seq<u8>),
> {
    row.map_values(|p: (String, String)| updated_field(p, values)) + added_fields(row, values)
}

/// The rows to cache for an update: each row under its key (taken before
/// the values are applied), with the values applied.
pub open spec fn updated_rows(tbl: Table, rows: Seq<Vec<(String, String)>>, values: Seq<(String, String)>) -> Seq<
    (Seq<char>, Seq<(Seq<char>, Seq<u8>)>),
> {
    rows.map_values(
        |r: Vec<(String, String)>|
            (model_key(tbl.db(), tbl.model(), tbl.pks(), r@), updated_fields(r@, values)),
    )
}

/// A bound on the number of keys of the update's script: for each row, its
/// fields, the values and the row's key.
pub open spec fn update_size(rows: Seq<Vec<(String, String)>>, values_len: nat) -> nat
    decreases rows.len(),
{
    if rows.len() == 0 {
        0
    } else {
        update_size(rows.drop_last(), values_len) + rows.last()@.len() + values_len + 1
    }
}

proof fn lemma_update_size(tbl: Table, rows: Seq<Vec<(String, String)>>, values: Seq<(String, String)>)
    ensures
        rows_size(updated_rows(tbl, rows, values)) <= update_size(rows, values.len()),
    decreases rows.len(),
{
    if rows.len() > 0 {
        lemma_update_size(tbl, rows.drop_last(), values);
        assert(updated_rows(tbl, rows, values).drop_last() =~= updated_rows(tbl, rows.drop_last(), values));
        lemma_added_fields_len(rows.last()@, values);
    }
}

/// The fields of a row with the values applied, encoded.
fn updated_row_fields(row: &Vec<(String, String)>, values: &Vec<(String, String)>) -> (r: Vec<(String, Vec<u8>)>)
    ensures
        fields_view(r@) == updated_fields(row@, values@),
{
    let mut r: Vec<(String, Vec<u8>)> = Vec::new();
    let mut i: usize = 0;
    while i < row.len()
        invariant
            i <= row.len(),
            r@.len() == i,
            forall|j: int| 0 <= j < i ==> (#[trigger] r@[j]).0@ == updated_field(row@[j], values@).0 && r@[j].1@ == updated_field(row@[j], values@).1,
        decreases row.len() - i,
    {
        let bytes = match text_get(values, row[i].0.as_str()) {
            Some(t) => t.as_str().as_bytes_vec(),
            None => row[i].1.as_str().as_bytes_vec(),
        };
        r.push((row[i].0.clone(), bytes));
        i = i + 1;
    }
    assert(fields_view(r@) =~= row@.map_values(|p: (String, String)| updated_field(p, values@)));
    let ghost base = fields_view(r@);
    let mut k: usize = 0;
    while k < values.len()
        invariant
            k <= values.len(),
            base == row@.map_values(|p: (String, String)| updated_field(p, values@)),
            fields_view(r@) == base + added_fields(row@, values@.take(k as int)),
        decreases values.len() - k,
    {
        assert(values@.take(k as int + 1).drop_last() =~= values@.take(k as int));
        assert(values@.take(k as int + 1).last() == values@[k as int]);
        let ghost before = r@;
        if text_get(row, values[k].0.as_str()).is_none() {
            r.push((values[k].0.clone(), values[k].1.as_str().as_bytes_vec()));
            assert(fields_view(r@) =~= fields_view(before).push((values@[k as int].0@, encode_utf8(values@[k as int].1@))));
        }
        assert(fields_view(r@) =~= base + added_fields(row@, values@.take(k as int + 1)));
        k = k + 1;
    }
    assert(values@.take(values.len() as int) =~= values@);
    r
}

/// The plan of an update whose rows the database selected: the rows' cache
/// keys, taken before the values are applied, and the script that stores
/// each row with the values applied and lets its key expire after `ttl`.
pub fn rows_update_plan(
    tbl: &Table,
    rows: Vec<Vec<(String, String)>>,
    values: Vec<(String, String)>,
    ttl: u64,
) -> (r: (Vec<String>, LuaScript))
    requires
        update_size(rows@, values@.len()) <= i32::MAX,
    ensures
        views(r.0@) == rows_model_keys(*tbl, rows@),
        r.1.wf(),
        r.1.keys() == rows_keys(updated_rows(*tbl, rows@, values@)),
        r.1.args() == rows_args(updated_rows(*tbl, rows@, values@)),
        r.1.statements() == rows_statements(updated_rows(*tbl, rows@, values@), ttl as nat),
{
    let ghost ur = updated_rows(*tbl, rows@, values@);
    let mut mids: Vec<String> = Vec::new();
    let mut cached: Vec<(String, Vec<(String, Vec<u8>)>)> = Vec::new();
    let mut i: usize = 0;
    while i < rows.len()
        invariant
            i <= rows.len(),
            ur == updated_rows(*tbl, rows@, values@),
            mids@.len() == i,
            cached@.len() == i,
            forall|j: int| 0 <= j < i ==> #[trigger] mids@[j]@ == model_key(tbl.db(), tbl.model(), tbl.pks(), rows@[j]@),
            forall|j: int| 0 <= j < i ==> (#[trigger] cached@[j]).0@ == ur[j].0 && fields_view(cached@[j].1@) == ur[j].1,
        decreases rows.len() - i,
    {
        let mid = tbl.get_model_key(&rows[i]);
        let fields = updated_row_fields(&rows[i], &values);
        cached.push((mid.clone(), fields));
        mids.push(mid);
        i = i + 1;
    }
    assert(views(mids@) =~= rows_model_keys(*tbl, rows@));
    assert(rows_view(cached@) =~= ur);
    proof {
        lemma_update_size(*tbl, rows@, values@);
        lemma_rows_size(ur);
    }
    let script = cache_rows_script(cached, ttl);
    (mids, script)
}

/// The script that loads a selected row into the cache under `mid`: none
/// when the database selected no row, else the script that stores the
/// first row and lets its key expire after `ttl`.
pub fn load_row_plan(mid: String, rows: Vec<Vec<(String, Vec<u8>)>>, ttl: u64) -> (r: Option<LuaScript>)
    requires
        rows@.len() > 0 ==> rows@[0]@.len() + 1 <= i32::MAX,
    ensures
        r is None <==> rows@.len() == 0,
        r matches Some(s) ==> {
            let one = seq![(mid@, fields_view(rows@[0]@))];
            &&& s.wf()
            &&& s.keys() == rows_keys(one)
            &&& s.args() == rows_args(one)
            &&& s.statements() == rows_statements(one, ttl as nat)
        },
{
    if rows.len() == 0 {
        return None;
    }
    let fv = clone_fields(&rows[0]);
    let ghost m = mid@;
    let mut cached: Vec<(String, Vec<(String, Vec<u8>)>)> = Vec::new();
    cached.push((mid, fv));
    let ghost one = rows_view(cached@);
    proof {
        assert(one =~= seq![(m, fields_view(rows@[0]@))]);
        assert(one.drop_last() =~= Seq::<(Seq<char>, Seq<(Seq<char>, Seq<u8>)>)>::empty());
        assert(rows_size(one.drop_last()) == 0);
        assert(rows_size(one) == one[0].1.len() + 1);
        lemma_rows_size(one);
    }
    Some(cache_rows_script(cached, ttl))
}

/// The (name, text) pairs of an update's values, encoded.
pub open spec fn text_fields(values: Seq<(String, String)>) -> Seq<(Seq<char>, Seq<u8>)> {
    values.map_values(|p: (String, String)| (p.0@, encode_utf8(p.1@)))
}

/// The script that refreshes a cached row under `mid` with the update's
/// values and lets its key expire after `ttl` again.
pub fn refresh_plan(mid: String, values: Vec<(String, String)>, ttl: u64) -> (s: LuaScript)
    requires
        values@.len() + 1 <= i32::MAX,
    ensures
        s.wf(),
        s.keys() == rows_keys(seq![(mid@, text_fields(values@))]),
        s.args() == rows_args(seq![(mid@, text_fields(values@))]),
        s.statements() == rows_statements(seq![(mid@, text_fields(values@))], ttl as nat),
{
    let mut fv: Vec<(String, Vec<u8>)> = Vec::new();
    let mut i: usize = 0;
    while i < values.len()
        invariant
            i <= values.len(),
            fv@.len() == i,
            forall|j: int| 0 <= j < i ==> (#[trigger] fv@[j]).0@ == values@[j].0@ && fv@[j].1@ == encode_utf8(values@[j].1@),
        decreases values.len() - i,
    {
        fv.push((values[i].0.clone(), values[i].1.as_str().as_bytes_vec()));
        i = i + 1;
    }
    assert(fields_view(fv@) =~= text_fields(values@));
    let ghost m = mid@;
    let mut cached: Vec<(String, Vec<(String, Vec<u8>)>)> = Vec::new();
    cached.push((mid, fv));
    let ghost one = rows_view(cached@);
    proof {
        assert(one =~= seq![(m, text_fields(values@))]);
        assert(one.drop_last() =~= Seq::<(Seq<char>, Seq<(Seq<char>, Seq<u8>)>)>::empty());
        assert(rows_size(one.drop_last()) == 0);
        assert(rows_size(one) == one[0].1.len() + 1);
        lemma_rows_size(one);
    }
    cache_rows_script(cached, ttl)
}

} // verus!
