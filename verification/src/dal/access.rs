//! SQL statements built from a request body.
//!
//! An insert takes the body's `values` object; an update takes `values` and
//! `conditions`; a select or a delete takes the body itself as its
//! conditions.  Each condition key is `column__operator`, and the optional
//! `operator` entry (`AND` or `OR`) joins the conditions.  Values are bound
//! as named parameters: `:column` (lowercased) for the values and
//! `:condition0`, `:condition1`, ... for the conditions, in that order of
//! binding: conditions first, then values.
use vstd::prelude::*;
use vstd::string::StringExecFns;
use vstd::string::StrSliceExecFns;
use std::rc::Rc;
use crate::json::{Json, JsonNumber, json_get, entry_value, entries_get, json_text, cache_text};
use crate::text::{decimal, joined, views, str_eq, join_strings, push_decimal, lemma_joined_push};
use crate::dal::sql::{
    SqlValue, sql_value_of, convertible, conv_value, json_literal, lemma_literal_of_converted,
    sql_literal_text, lowercase, to_lowercase, first_sep, find_sep, lemma_first_sep_bounds,
    lemma_key_separator,
};
use crate::dal::table::Table;
use crate::error::Error;

verus! {

/// The kind of statement.
#[derive(Clone, Copy, Debug, PartialEq, Eq)]
pub enum DML {
    Insert,
    Delete,
    Update,
    Select,
}

/// Why a statement cannot be built.
pub enum BuildFailure {
    /// Refused, with the reason in words.
    Common(Seq<char>),
    /// The `operator` of the conditions is a float, an array or an object.
    OperatorNotText,
}

/// The exec error is the described failure.
pub open spec fn failure_of(e: Error, f: BuildFailure) -> bool {
    match f {
        BuildFailure::Common(m) => e matches Error::CommonError { info } && info@ == m,
        BuildFailure::OperatorNotText => e is OperatorNotText,
    }
}

/// The object under `token` in the body.
pub open spec fn map_at(body: Json, token: Seq<char>) -> Result<Seq<(String, Json)>, Seq<char>> {
    match json_get(body, token) {
        None => Err("invalid json format"@),
        Some(Json::Object(entries)) => Ok(entries@),
        Some(_) => Err("invalid json format at token '"@ + token + "'"@),
    }
}

/// The entries whose values convert to parameter values, in order.
pub open spec fn converted_entries(entries: Seq<(String, Json)>) -> Seq<(String, Json)>
    decreases entries.len(),
{
    if entries.len() == 0 {
        Seq::empty()
    } else {
        let rest = converted_entries(entries.drop_last());
        if convertible(entries.last().1) {
            rest.push(entries.last())
        } else {
            rest
        }
    }
}

/// The lowercase names of the entries that convert, in order.
pub open spec fn lowered(values: Seq<(String, Json)>) -> Seq<Seq<char>> {
    converted_entries(values).map_values(|e: (String, Json)| lowercase(e.0@))
}

/// The lowercase names of the body's `values` entries that convert (none
/// when the body has no `values` object).
pub open spec fn values_lowered(body: Json) -> Seq<Seq<char>> {
    match map_at(body, "values"@) {
        Ok(values) => lowered(values),
        Err(_) => Seq::empty(),
    }
}

/// Whether `low` names each `values` entry of the body that converts.
pub open spec fn names_fit(body: Json, low: Seq<Seq<char>>) -> bool {
    map_at(body, "values"@) matches Ok(values) ==> low.len() == converted_entries(values).len()
}

/// The parameters bound for the value entries `cols`, named by `low`.
pub open spec fn value_params(cols: Seq<(String, Json)>, low: Seq<Seq<char>>) -> Seq<(Seq<char>, Json)> {
    Seq::new(cols.len(), |k: int| (low[k], cols[k].1))
}

/// The exec parameters are the described ones.
pub open spec fn params_match(ps: Seq<(String, SqlValue)>, spec_ps: Seq<(Seq<char>, Json)>) -> bool {
    &&& ps.len() == spec_ps.len()
    &&& forall|k: int|
        0 <= k < ps.len() ==> #[trigger] ps[k].0@ == spec_ps[k].0 && sql_value_of(
            ps[k].1,
            spec_ps[k].1,
        )
}

/// The insert statement and its parameters, with the value names in
/// lowercase given by `low`.
pub open spec fn insert_outcome_named(model: Seq<char>, body: Json, low: Seq<Seq<char>>) -> Result<
    (Seq<char>, Seq<(Seq<char>, Json)>),
    BuildFailure,
> {
    match map_at(body, "values"@) {
        Err(m) => Err(BuildFailure::Common(m)),
        Ok(values) => {
            let cols = converted_entries(values);
            let names = cols.map_values(|e: (String, Json)| "`"@ + e.0@ + "`"@);
            let holders = low.map_values(|l: Seq<char>| ":"@ + l);
            Ok(
                (
                    "INSERT INTO `"@ + model + "` ("@ + joined(names, ","@) + ") VALUES("@ + joined(
                        holders,
                        ", "@,
                    ) + ")"@,
                    value_params(cols, low),
                ),
            )
        },
    }
}

/// The insert statement and its parameters.
pub open spec fn insert_outcome(model: Seq<char>, body: Json) -> Result<
    (Seq<char>, Seq<(Seq<char>, Json)>),
    BuildFailure,
> {
    insert_outcome_named(model, body, values_lowered(body))
}

/// How the message for an `operator` that is not a string quotes it: JSON's
/// text of null, a boolean or an integer.  A float, an array or an object
/// has no quote here: JSON writes a float otherwise than the display text
/// the library holds, and an array or an object is serialised.
pub open spec fn operator_quote(j: Json) -> Option<Seq<char>> {
    match j {
        Json::Number(JsonNumber::Float(_)) => None,
        Json::String(_) => None,
        _ => json_text(j),
    }
}

/// The `operator` entry of a set of conditions joins them: none joins
/// with nothing (there is then at most one condition to join), `AND` with
/// ` AND `, `OR` with ` OR `; any other text is refused as an invalid
/// operator, naming it.
pub proof fn lemma_operator_joins(conds: Seq<(String, Json)>)
    ensures
        entry_value(conds, "operator"@) is None ==> operator_joiner(conds) == Ok::<Seq<char>, BuildFailure>(Seq::empty()),
        entry_value(conds, "operator"@) matches Some(Json::String(t)) ==> (t@ == "AND"@ ==> operator_joiner(conds) == Ok::<Seq<char>, BuildFailure>(" AND "@)),
        entry_value(conds, "operator"@) matches Some(Json::String(t)) ==> (t@ == "OR"@ ==> operator_joiner(conds) == Ok::<Seq<char>, BuildFailure>(" OR "@)),
        entry_value(conds, "operator"@) matches Some(Json::String(t)) ==> (t@ != "AND"@ && t@ != "OR"@ ==> (operator_joiner(conds) matches Err(BuildFailure::Common(m)) && m == "invalid operator:"@ + t@)),
{
    reveal_strlit("AND");
    reveal_strlit("OR");
    assert("AND"@.len() == 3 && "OR"@.len() == 2);
}

/// A body without the object a statement needs under `token` is refused:
/// with "invalid json format" when the body has no such entry (or is no
/// object), with "invalid json format at token '<token>'" when the entry is
/// not an object; an object entry gives its entries.
pub proof fn lemma_object_at(body: Json, token: Seq<char>)
    ensures
        json_get(body, token) is None ==> map_at(body, token) == Err::<Seq<(String, Json)>, Seq<char>>(
            "invalid json format"@,
        ),
        json_get(body, token) matches Some(Json::Object(e)) ==> map_at(body, token) == Ok::<
            Seq<(String, Json)>,
            Seq<char>,
        >(e@),
        json_get(body, token) matches Some(v) ==> (!(v is Object) ==> map_at(body, token) == Err::<
            Seq<(String, Json)>,
            Seq<char>,
        >("invalid json format at token '"@ + token + "'"@)),
{
}

/// The text that joins the conditions, from the `operator` entry.
pub open spec fn operator_joiner(conds: Seq<(String, Json)>) -> Result<Seq<char>, BuildFailure> {
    match entry_value(conds, "operator"@) {
        None => Ok(Seq::empty()),
        Some(Json::String(s)) => if s@ == "AND"@ {
            Ok(" AND "@)
        } else if s@ == "OR"@ {
            Ok(" OR "@)
        } else {
            Err(BuildFailure::Common("invalid operator:"@ + s@))
        },
        Some(other) => match operator_quote(other) {
            Some(t) => Err(BuildFailure::Common("invalid format at token operator:"@ + t)),
            None => Err(BuildFailure::OperatorNotText),
        },
    }
}

/// The comparison that a binding operator name stands for.
pub open spec fn binary_op(name: Seq<char>) -> Option<Seq<char>> {
    if name == "eq"@ {
        Some("="@)
    } else if name == "ne"@ {
        Some("!="@)
    } else if name == "lt"@ {
        Some("<"@)
    } else if name == "lte"@ {
        Some("<="@)
    } else if name == "gt"@ {
        Some(">"@)
    } else if name == "gte"@ {
        Some(">="@)
    } else if name == "like"@ {
        Some("LIKE"@)
    } else {
        None
    }
}

/// The literals of the array items that convert, in order.
pub open spec fn in_literals(items: Seq<Json>) -> Seq<Seq<char>>
    decreases items.len(),
{
    if items.len() == 0 {
        Seq::empty()
    } else {
        let rest = in_literals(items.drop_last());
        match json_literal(items.last()) {
            Some(l) => rest.push(l),
            None => rest,
        }
    }
}

/// What one condition entry gives.
pub enum CondStep {
    /// The key names no operator; the entry is passed over.
    Skip,
    /// A condition text, and the name of the parameter it binds, if any.
    Piece(Seq<char>, Option<Seq<char>>),
    /// Refused, with the reason in words.
    Fail(Seq<char>),
}

/// The name of the parameter of the condition bound as number `index`.
pub open spec fn condition_name(index: nat) -> Seq<char> {
    "condition"@ + decimal(index)
}

/// The column before the first `__` of a key.
pub open spec fn key_column(key: Seq<char>) -> Seq<char> {
    key.subrange(0, first_sep(key, 0))
}

/// The operator name: the part after the first `__`, up to the next one.
pub open spec fn key_operator(key: Seq<char>) -> Seq<char> {
    let p = first_sep(key, 0);
    key.subrange(p + 2, first_sep(key, p + 2))
}

/// What the condition entry `key: value` gives when `index` parameters are
/// bound before it.
pub open spec fn cond_step(key: Seq<char>, value: Json, index: nat) -> CondStep {
    if first_sep(key, 0) == key.len() {
        CondStep::Skip
    } else {
        let column = key_column(key);
        let op = key_operator(key);
        match binary_op(op) {
            Some(relation) => if convertible(value) {
                CondStep::Piece(
                    column + " "@ + relation + " :"@ + condition_name(index),
                    Some(condition_name(index)),
                )
            } else {
                CondStep::Fail("invalid json format"@)
            },
            None => if op == "is"@ {
                CondStep::Piece(column + " IS NULL"@, None)
            } else if op == "isnot"@ {
                CondStep::Piece(column + " IS NOT NULL"@, None)
            } else if op == "in"@ {
                match value {
                    Json::Array(items) => {
                        let lits = in_literals(items@);
                        if lits.len() > 0 {
                            CondStep::Piece(column + " in ("@ + joined(lits, ","@) + ")"@, None)
                        } else {
                            CondStep::Piece(key, None)
                        }
                    },
                    _ => CondStep::Fail(
                        "invalid format at "@ + key + ", it`s must json array"@,
                    ),
                }
            } else {
                CondStep::Fail("Unsupported operator "@ + key)
            },
        }
    }
}

/// The condition texts and the condition parameters of the entries, taken
/// in order; the first refused entry refuses them all.
pub open spec fn parse_conds(entries: Seq<(String, Json)>) -> Result<
    (Seq<Seq<char>>, Seq<(Seq<char>, Json)>),
    Seq<char>,
>
    decreases entries.len(),
{
    if entries.len() == 0 {
        Ok((Seq::empty(), Seq::empty()))
    } else {
        match parse_conds(entries.drop_last()) {
            Err(m) => Err(m),
            Ok((frags, params)) => {
                let e = entries.last();
                match cond_step(e.0@, e.1, params.len()) {
                    CondStep::Skip => Ok((frags, params)),
                    CondStep::Piece(t, None) => Ok((frags.push(t), params)),
                    CondStep::Piece(t, Some(name)) => Ok((frags.push(t), params.push((name, e.1)))),
                    CondStep::Fail(m) => Err(m),
                }
            },
        }
    }
}

/// The update statement and its parameters, with the value names in
/// lowercase given by `low`.
pub open spec fn update_outcome_named(model: Seq<char>, body: Json, low: Seq<Seq<char>>) -> Result<
    (Seq<char>, Seq<(Seq<char>, Json)>),
    BuildFailure,
> {
    match map_at(body, "values"@) {
        Err(m) => Err(BuildFailure::Common(m)),
        Ok(values) => match map_at(body, "conditions"@) {
            Err(m) => Err(BuildFailure::Common(m)),
            Ok(conds) => match operator_joiner(conds) {
                Err(f) => Err(f),
                Ok(joiner) => match parse_conds(conds) {
                    Err(m) => Err(BuildFailure::Common(m)),
                    Ok((frags, cparams)) => {
                        let cols = converted_entries(values);
                        let set = joined(
                            Seq::new(cols.len(), |k: int| cols[k].0@ + " = :"@ + low[k]),
                            ", "@,
                        );
                        let sql = if frags.len() > 0 {
                            "UPDATE "@ + model + " SET "@ + set + " WHERE "@ + joined(frags, joiner)
                        } else {
                            "UPDATE "@ + model + " SET "@ + set
                        };
                        Ok((sql, cparams + value_params(cols, low)))
                    },
                },
            },
        },
    }
}

/// The update statement and its parameters.
pub open spec fn update_outcome(model: Seq<char>, body: Json) -> Result<
    (Seq<char>, Seq<(Seq<char>, Json)>),
    BuildFailure,
> {
    update_outcome_named(model, body, values_lowered(body))
}

/// The select or delete statement and its parameters: the body is the
/// conditions object, whose conditions, joined by its `operator`, make the
/// `WHERE` clause (none when no entry gives a condition).
pub open spec fn filter_outcome(model: Seq<char>, dml: DML, body: Json) -> Result<
    (Seq<char>, Seq<(Seq<char>, Json)>),
    BuildFailure,
> {
    match body {
        Json::Object(conds) => match operator_joiner(conds@) {
            Err(f) => Err(f),
            Ok(joiner) => match parse_conds(conds@) {
                Err(m) => Err(BuildFailure::Common(m)),
                Ok((frags, ps)) => {
                    let head = if dml is Select {
                        "SELECT * FROM "@ + model
                    } else {
                        "DELETE FROM "@ + model
                    };
                    if frags.len() > 0 {
                        Ok((head + " WHERE "@ + joined(frags, joiner), ps))
                    } else {
                        Ok((head, ps))
                    }
                },
            },
        },
        _ => Err(BuildFailure::Common("invalid json format"@)),
    }
}

/// The statement of a kind that is built, for the table and the body.
pub open spec fn build_outcome(model: Seq<char>, dml: DML, body: Json) -> Result<
    (Seq<char>, Seq<(Seq<char>, Json)>),
    BuildFailure,
> {
    match dml {
        DML::Insert => insert_outcome(model, body),
        DML::Update => update_outcome(model, body),
        _ => filter_outcome(model, dml, body),
    }
}

/// Whether a column name holds no `__` and does not end with `_`.
pub open spec fn plain_column(c: Seq<char>) -> bool {
    &&& forall|i: int| #![trigger c[i]] 0 <= i < c.len() - 1 ==> !(c[i] == '_' && c[i + 1] == '_')
    &&& (c.len() > 0 ==> c.last() != '_')
}

proof fn lemma_key_split(c: Seq<char>, op: Seq<char>)
    requires
        plain_column(c),
        forall|i: int| #![trigger op[i]] 0 <= i < op.len() ==> op[i] != '_',
    ensures
        first_sep(c + "__"@ + op, 0) != (c + "__"@ + op).len(),
        key_column(c + "__"@ + op) == c,
        key_operator(c + "__"@ + op) == op,
{
    reveal_strlit("__");
    assert("__"@ =~= seq!['_', '_']);
    lemma_key_separator(c, op);
    let k = c + "__"@ + op;
    assert(k.subrange(0, c.len() as int) =~= c);
    assert(k.subrange(c.len() + 2int, k.len() as int) =~= op);
}

proof fn lemma_operator_names()
    ensures
        "eq"@.len() == 2 && "eq"@[0] == 'e' && "eq"@[1] == 'q',
        "ne"@.len() == 2 && "ne"@[0] == 'n' && "ne"@[1] == 'e',
        "lt"@.len() == 2 && "lt"@[0] == 'l' && "lt"@[1] == 't',
        "lte"@.len() == 3 && "lte"@[0] == 'l' && "lte"@[2] == 'e',
        "gt"@.len() == 2 && "gt"@[0] == 'g' && "gt"@[1] == 't',
        "gte"@.len() == 3 && "gte"@[0] == 'g' && "gte"@[2] == 'e',
        "like"@.len() == 4 && "like"@[0] == 'l' && "like"@[3] == 'e',
        "is"@.len() == 2 && "is"@[0] == 'i' && "is"@[1] == 's',
        "isnot"@.len() == 5 && "isnot"@[0] == 'i' && "isnot"@[4] == 't',
        "in"@.len() == 2 && "in"@[0] == 'i' && "in"@[1] == 'n',
{
    reveal_strlit("eq");
    reveal_strlit("ne");
    reveal_strlit("lt");
    reveal_strlit("lte");
    reveal_strlit("gt");
    reveal_strlit("gte");
    reveal_strlit("like");
    reveal_strlit("is");
    reveal_strlit("isnot");
    reveal_strlit("in");
    assert("eq"@.len() == 2 && "eq"@[0] == 'e' && "eq"@[1] == 'q');
    assert("ne"@.len() == 2 && "ne"@[0] == 'n' && "ne"@[1] == 'e');
    assert("lt"@.len() == 2 && "lt"@[0] == 'l' && "lt"@[1] == 't');
    assert("lte"@.len() == 3 && "lte"@[0] == 'l' && "lte"@[2] == 'e');
    assert("gt"@.len() == 2 && "gt"@[0] == 'g' && "gt"@[1] == 't');
    assert("gte"@.len() == 3 && "gte"@[0] == 'g' && "gte"@[2] == 'e');
    assert("like"@.len() == 4 && "like"@[0] == 'l' && "like"@[3] == 'e');
    assert("is"@.len() == 2 && "is"@[0] == 'i' && "is"@[1] == 's');
    assert("isnot"@.len() == 5 && "isnot"@[0] == 'i' && "isnot"@[4] == 't');
    assert("in"@.len() == 2 && "in"@[0] == 'i' && "in"@[1] == 'n');
}

proof fn lemma_comparison(c: Seq<char>, op: Seq<char>, rel: Seq<char>, value: Json, index: nat)
    requires
        plain_column(c),
        forall|i: int| #![trigger op[i]] 0 <= i < op.len() ==> op[i] != '_',
        binary_op(op) == Some(rel),
    ensures
        cond_step(c + "__"@ + op, value, index) == (if value is String || value is Number {
            CondStep::Piece(c + " "@ + rel + " :"@ + condition_name(index), Some(condition_name(index)))
        } else {
            CondStep::Fail("invalid json format"@)
        }),
{
    lemma_key_split(c, op);
}

proof fn lemma_op_eq(c: Seq<char>, value: Json, index: nat)
    requires
        plain_column(c),
    ensures
        cond_step(c + "__eq"@, value, index) == (if value is String || value is Number {
            CondStep::Piece(c + " = :condition"@ + decimal(index), Some("condition"@ + decimal(index)))
        } else {
            CondStep::Fail("invalid json format"@)
        }),
{
    reveal_strlit("eq");
    reveal_strlit("ne");
    reveal_strlit("lt");
    reveal_strlit("lte");
    reveal_strlit("gt");
    reveal_strlit("gte");
    reveal_strlit("like");
    reveal_strlit("=");
    lemma_operator_names();
    reveal_strlit("__");
    reveal_strlit("__eq");
    reveal_strlit(" ");
    reveal_strlit(" :");
    reveal_strlit("condition");
    reveal_strlit(" = :condition");
    assert(binary_op("eq"@) == Some("="@));
    lemma_comparison(c, "eq"@, "="@, value, index);
    assert(c + "__"@ + "eq"@ =~= c + "__eq"@);
    assert(c + " "@ + "="@ + " :"@ + condition_name(index) =~= c + " = :condition"@ + decimal(index));
}

proof fn lemma_op_ne(c: Seq<char>, value: Json, index: nat)
    requires
        plain_column(c),
    ensures
        cond_step(c + "__ne"@, value, index) == (if value is String || value is Number {
            CondStep::Piece(c + " != :condition"@ + decimal(index), Some("condition"@ + decimal(index)))
        } else {
            CondStep::Fail("invalid json format"@)
        }),
{
    reveal_strlit("eq");
    reveal_strlit("ne");
    reveal_strlit("lt");
    reveal_strlit("lte");
    reveal_strlit("gt");
    reveal_strlit("gte");
    reveal_strlit("like");
    reveal_strlit("!=");
    lemma_operator_names();
    reveal_strlit("__");
    reveal_strlit("__ne");
    reveal_strlit(" ");
    reveal_strlit(" :");
    reveal_strlit("condition");
    reveal_strlit(" != :condition");
    assert(binary_op("ne"@) == Some("!="@));
    lemma_comparison(c, "ne"@, "!="@, value, index);
    assert(c + "__"@ + "ne"@ =~= c + "__ne"@);
    assert(c + " "@ + "!="@ + " :"@ + condition_name(index) =~= c + " != :condition"@ + decimal(index));
}

proof fn lemma_op_lt(c: Seq<char>, value: Json, index: nat)
    requires
        plain_column(c),
    ensures
        cond_step(c + "__lt"@, value, index) == (if value is String || value is Number {
            CondStep::Piece(c + " < :condition"@ + decimal(index), Some("condition"@ + decimal(index)))
        } else {
            CondStep::Fail("invalid json format"@)
        }),
{
    reveal_strlit("eq");
    reveal_strlit("ne");
    reveal_strlit("lt");
    reveal_strlit("lte");
    reveal_strlit("gt");
    reveal_strlit("gte");
    reveal_strlit("like");
    reveal_strlit("<");
    lemma_operator_names();
    reveal_strlit("__");
    reveal_strlit("__lt");
    reveal_strlit(" ");
    reveal_strlit(" :");
    reveal_strlit("condition");
    reveal_strlit(" < :condition");
    assert(binary_op("lt"@) == Some("<"@));
    lemma_comparison(c, "lt"@, "<"@, value, index);
    assert(c + "__"@ + "lt"@ =~= c + "__lt"@);
    assert(c + " "@ + "<"@ + " :"@ + condition_name(index) =~= c + " < :condition"@ + decimal(index));
}

proof fn lemma_op_lte(c: Seq<char>, value: Json, index: nat)
    requires
        plain_column(c),
    ensures
        cond_step(c + "__lte"@, value, index) == (if value is String || value is Number {
            CondStep::Piece(c + " <= :condition"@ + decimal(index), Some("condition"@ + decimal(index)))
        } else {
            CondStep::Fail("invalid json format"@)
        }),
{
    reveal_strlit("eq");
    reveal_strlit("ne");
    reveal_strlit("lt");
    reveal_strlit("lte");
    reveal_strlit("gt");
    reveal_strlit("gte");
    reveal_strlit("like");
    reveal_strlit("<=");
    lemma_operator_names();
    reveal_strlit("__");
    reveal_strlit("__lte");
    reveal_strlit(" ");
    reveal_strlit(" :");
    reveal_strlit("condition");
    reveal_strlit(" <= :condition");
    assert(binary_op("lte"@) == Some("<="@));
    lemma_comparison(c, "lte"@, "<="@, value, index);
    assert(c + "__"@ + "lte"@ =~= c + "__lte"@);
    assert(c + " "@ + "<="@ + " :"@ + condition_name(index) =~= c + " <= :condition"@ + decimal(index));
}

proof fn lemma_op_gt(c: Seq<char>, value: Json, index: nat)
    requires
        plain_column(c),
    ensures
        cond_step(c + "__gt"@, value, index) == (if value is String || value is Number {
            CondStep::Piece(c + " > :condition"@ + decimal(index), Some("condition"@ + decimal(index)))
        } else {
            CondStep::Fail("invalid json format"@)
        }),
{
    reveal_strlit("eq");
    reveal_strlit("ne");
    reveal_strlit("lt");
    reveal_strlit("lte");
    reveal_strlit("gt");
    reveal_strlit("gte");
    reveal_strlit("like");
    reveal_strlit(">");
    lemma_operator_names();
    reveal_strlit("__");
    reveal_strlit("__gt");
    reveal_strlit(" ");
    reveal_strlit(" :");
    reveal_strlit("condition");
    reveal_strlit(" > :condition");
    assert(binary_op("gt"@) == Some(">"@));
    lemma_comparison(c, "gt"@, ">"@, value, index);
    assert(c + "__"@ + "gt"@ =~= c + "__gt"@);
    assert(c + " "@ + ">"@ + " :"@ + condition_name(index) =~= c + " > :condition"@ + decimal(index));
}

proof fn lemma_op_gte(c: Seq<char>, value: Json, index: nat)
    requires
        plain_column(c),
    ensures
        cond_step(c + "__gte"@, value, index) == (if value is String || value is Number {
            CondStep::Piece(c + " >= :condition"@ + decimal(index), Some("condition"@ + decimal(index)))
        } else {
            CondStep::Fail("invalid json format"@)
        }),
{
    reveal_strlit("eq");
    reveal_strlit("ne");
    reveal_strlit("lt");
    reveal_strlit("lte");
    reveal_strlit("gt");
    reveal_strlit("gte");
    reveal_strlit("like");
    reveal_strlit(">=");
    lemma_operator_names();
    reveal_strlit("__");
    reveal_strlit("__gte");
    reveal_strlit(" ");
    reveal_strlit(" :");
    reveal_strlit("condition");
    reveal_strlit(" >= :condition");
    assert(binary_op("gte"@) == Some(">="@));
    lemma_comparison(c, "gte"@, ">="@, value, index);
    assert(c + "__"@ + "gte"@ =~= c + "__gte"@);
    assert(c + " "@ + ">="@ + " :"@ + condition_name(index) =~= c + " >= :condition"@ + decimal(index));
}

proof fn lemma_op_like(c: Seq<char>, value: Json, index: nat)
    requires
        plain_column(c),
    ensures
        cond_step(c + "__like"@, value, index) == (if value is String || value is Number {
            CondStep::Piece(c + " LIKE :condition"@ + decimal(index), Some("condition"@ + decimal(index)))
        } else {
            CondStep::Fail("invalid json format"@)
        }),
{
    reveal_strlit("eq");
    reveal_strlit("ne");
    reveal_strlit("lt");
    reveal_strlit("lte");
    reveal_strlit("gt");
    reveal_strlit("gte");
    reveal_strlit("like");
    reveal_strlit("LIKE");
    lemma_operator_names();
    reveal_strlit("__");
    reveal_strlit("__like");
    reveal_strlit(" ");
    reveal_strlit(" :");
    reveal_strlit("condition");
    reveal_strlit(" LIKE :condition");
    assert(binary_op("like"@) == Some("LIKE"@));
    lemma_comparison(c, "like"@, "LIKE"@, value, index);
    assert(c + "__"@ + "like"@ =~= c + "__like"@);
    assert(c + " "@ + "LIKE"@ + " :"@ + condition_name(index) =~= c + " LIKE :condition"@ + decimal(index));
}

proof fn lemma_op_is(c: Seq<char>, value: Json, index: nat)
    requires
        plain_column(c),
    ensures
        cond_step(c + "__is"@, value, index) == CondStep::Piece(c + " IS NULL"@, None),
{
    reveal_strlit("eq");
    reveal_strlit("ne");
    reveal_strlit("lt");
    reveal_strlit("lte");
    reveal_strlit("gt");
    reveal_strlit("gte");
    reveal_strlit("like");
    reveal_strlit("is");
    reveal_strlit("isnot");
    lemma_operator_names();
    reveal_strlit("__");
    reveal_strlit("__is");
    lemma_key_split(c, "is"@);
    assert(c + "__"@ + "is"@ =~= c + "__is"@);
    assert(binary_op("is"@) is None);
}

proof fn lemma_op_isnot(c: Seq<char>, value: Json, index: nat)
    requires
        plain_column(c),
    ensures
        cond_step(c + "__isnot"@, value, index) == CondStep::Piece(c + " IS NOT NULL"@, None),
{
    reveal_strlit("eq");
    reveal_strlit("ne");
    reveal_strlit("lt");
    reveal_strlit("lte");
    reveal_strlit("gt");
    reveal_strlit("gte");
    reveal_strlit("like");
    reveal_strlit("is");
    reveal_strlit("isnot");
    lemma_operator_names();
    reveal_strlit("__");
    reveal_strlit("__isnot");
    lemma_key_split(c, "isnot"@);
    assert(c + "__"@ + "isnot"@ =~= c + "__isnot"@);
    assert(binary_op("isnot"@) is None);
}

proof fn lemma_op_in(c: Seq<char>, value: Json, index: nat)
    requires
        plain_column(c),
        !(value is Array),
    ensures
        cond_step(c + "__in"@, value, index) == CondStep::Fail(
            "invalid format at "@ + c + "__in, it`s must json array"@,
        ),
{
    reveal_strlit("eq");
    reveal_strlit("ne");
    reveal_strlit("lt");
    reveal_strlit("lte");
    reveal_strlit("gt");
    reveal_strlit("gte");
    reveal_strlit("like");
    reveal_strlit("is");
    reveal_strlit("isnot");
    reveal_strlit("in");
    lemma_operator_names();
    reveal_strlit("__");
    reveal_strlit("__in");
    reveal_strlit("invalid format at ");
    reveal_strlit(", it`s must json array");
    reveal_strlit("__in, it`s must json array");
    lemma_key_split(c, "in"@);
    assert(c + "__"@ + "in"@ =~= c + "__in"@);
    assert(binary_op("in"@) is None);
    assert("invalid format at "@ + (c + "__in"@) + ", it`s must json array"@ =~= "invalid format at "@ + c
        + "__in, it`s must json array"@);
}

/// Each comparison of the request syntax on a column `c` (any name with
/// no `__` in it and no `_` at its end; single underscores are part of the
/// name) gives its own SQL comparison of `c` with the next condition
/// parameter, when the value is a string or a number, and is refused with
/// "invalid json format" otherwise: `eq` is `=`, `ne` is `!=`, `lt` is `<`,
/// `lte` is `<=`, `gt` is `>`, `gte` is `>=` and `like` is `LIKE`.  `is` and
/// `isnot` test for NULL and bind nothing; `in` on a value that is not an
/// array is refused.
pub proof fn lemma_condition_operators(c: Seq<char>, value: Json, index: nat)
    requires
        plain_column(c),
    ensures
        cond_step(c + "__eq"@, value, index) == (if value is String || value is Number {
            CondStep::Piece(c + " = :condition"@ + decimal(index), Some("condition"@ + decimal(index)))
        } else {
            CondStep::Fail("invalid json format"@)
        }),
        cond_step(c + "__ne"@, value, index) == (if value is String || value is Number {
            CondStep::Piece(c + " != :condition"@ + decimal(index), Some("condition"@ + decimal(index)))
        } else {
            CondStep::Fail("invalid json format"@)
        }),
        cond_step(c + "__lt"@, value, index) == (if value is String || value is Number {
            CondStep::Piece(c + " < :condition"@ + decimal(index), Some("condition"@ + decimal(index)))
        } else {
            CondStep::Fail("invalid json format"@)
        }),
        cond_step(c + "__lte"@, value, index) == (if value is String || value is Number {
            CondStep::Piece(c + " <= :condition"@ + decimal(index), Some("condition"@ + decimal(index)))
        } else {
            CondStep::Fail("invalid json format"@)
        }),
        cond_step(c + "__gt"@, value, index) == (if value is String || value is Number {
            CondStep::Piece(c + " > :condition"@ + decimal(index), Some("condition"@ + decimal(index)))
        } else {
            CondStep::Fail("invalid json format"@)
        }),
        cond_step(c + "__gte"@, value, index) == (if value is String || value is Number {
            CondStep::Piece(c + " >= :condition"@ + decimal(index), Some("condition"@ + decimal(index)))
        } else {
            CondStep::Fail("invalid json format"@)
        }),
        cond_step(c + "__like"@, value, index) == (if value is String || value is Number {
            CondStep::Piece(c + " LIKE :condition"@ + decimal(index), Some("condition"@ + decimal(index)))
        } else {
            CondStep::Fail("invalid json format"@)
        }),
        cond_step(c + "__is"@, value, index) == CondStep::Piece(c + " IS NULL"@, None),
        cond_step(c + "__isnot"@, value, index) == CondStep::Piece(c + " IS NOT NULL"@, None),
        !(value is Array) ==> cond_step(c + "__in"@, value, index) == CondStep::Fail(
            "invalid format at "@ + c + "__in, it`s must json array"@,
        ),
{
    lemma_op_eq(c, value, index);
    lemma_op_ne(c, value, index);
    lemma_op_lt(c, value, index);
    lemma_op_lte(c, value, index);
    lemma_op_gt(c, value, index);
    lemma_op_gte(c, value, index);
    lemma_op_like(c, value, index);
    lemma_op_is(c, value, index);
    lemma_op_isnot(c, value, index);
    if !(value is Array) {
        lemma_op_in(c, value, index);
    }
}

proof fn lemma_one_converted(c: String, v: Json)
    requires
        v is String || v is Number,
    ensures
        converted_entries(seq![(c, v)]) == seq![(c, v)],
{
    let one = seq![(c, v)];
    assert(one.drop_last() =~= Seq::<(String, Json)>::empty());
    assert(one.last() == (c, v));
    assert(converted_entries(one.drop_last()) =~= Seq::<(String, Json)>::empty());
    assert(Seq::<(String, Json)>::empty().push((c, v)) =~= one);
}

/// An insert of one value `c: v` (a string or a number) into `model`, the
/// lowercase name of `c` being `l`, is ``INSERT INTO `model` (`c`) VALUES(:l)``
/// and binds `l` to `v`.
pub proof fn lemma_insert_one(model: Seq<char>, body: Json, vals: Vec<(String, Json)>, c: String, v: Json, l: Seq<char>)
    requires
        json_get(body, "values"@) == Some(Json::Object(vals)),
        vals@ == seq![(c, v)],
        v is String || v is Number,
    ensures
        insert_outcome_named(model, body, seq![l]) == Ok::<(Seq<char>, Seq<(Seq<char>, Json)>), BuildFailure>(
            ("INSERT INTO `"@ + model + "` (`"@ + c@ + "`) VALUES(:"@ + l + ")"@, seq![(l, v)]),
        ),
{
    lemma_one_converted(c, v);
    reveal_strlit("INSERT INTO `");
    reveal_strlit("` (");
    reveal_strlit(") VALUES(");
    reveal_strlit(")");
    reveal_strlit("`");
    reveal_strlit(":");
    reveal_strlit("` (`");
    reveal_strlit("`) VALUES(:");
    let cols = seq![(c, v)];
    let names = cols.map_values(|e: (String, Json)| "`"@ + e.0@ + "`"@);
    let holders = seq![l].map_values(|x: Seq<char>| ":"@ + x);
    assert(names =~= seq!["`"@ + c@ + "`"@]);
    assert(holders =~= seq![":"@ + l]);
    assert(value_params(cols, seq![l]) =~= seq![(l, v)]);
    assert("INSERT INTO `"@ + model + "` ("@ + joined(names, ","@) + ") VALUES("@ + joined(holders, ", "@)
        + ")"@ =~= "INSERT INTO `"@ + model + "` (`"@ + c@ + "`) VALUES(:"@ + l + ")"@);
}

/// A value that is not a string or a number is left out of an insert:
/// inserting only such a value `c: v` into `model` names no column.
pub proof fn lemma_insert_skips(model: Seq<char>, body: Json, vals: Vec<(String, Json)>, c: String, v: Json)
    requires
        json_get(body, "values"@) == Some(Json::Object(vals)),
        vals@ == seq![(c, v)],
        !(v is String || v is Number),
    ensures
        insert_outcome_named(model, body, Seq::empty()) == Ok::<(Seq<char>, Seq<(Seq<char>, Json)>), BuildFailure>(
            ("INSERT INTO `"@ + model + "` () VALUES()"@, Seq::empty()),
        ),
{
    let one = seq![(c, v)];
    assert(one.drop_last() =~= Seq::<(String, Json)>::empty());
    assert(converted_entries(one.drop_last()) =~= Seq::<(String, Json)>::empty());
    assert(converted_entries(one) =~= Seq::<(String, Json)>::empty());
    reveal_strlit("INSERT INTO `");
    reveal_strlit("` (");
    reveal_strlit(") VALUES(");
    reveal_strlit(")");
    reveal_strlit("` () VALUES()");
    assert(converted_entries(one).map_values(|e: (String, Json)| "`"@ + e.0@ + "`"@) =~= Seq::<Seq<char>>::empty());
    assert(Seq::<Seq<char>>::empty().map_values(|x: Seq<char>| ":"@ + x) =~= Seq::<Seq<char>>::empty());
    assert(value_params(converted_entries(one), Seq::empty()) =~= Seq::<(Seq<char>, Json)>::empty());
    assert("INSERT INTO `"@ + model + "` ("@ + Seq::<char>::empty() + ") VALUES("@ + Seq::<char>::empty() + ")"@
        =~= "INSERT INTO `"@ + model + "` () VALUES()"@);
}

/// An `in` condition on a plain column `c` with an array lists the
/// literals of the array's strings and numbers, joined by `,`, as
/// `c in (...)`, binding nothing; with none of them it stays the key itself.
pub proof fn lemma_in_condition(c: Seq<char>, items: Vec<Json>, index: nat)
    requires
        plain_column(c),
    ensures
        in_literals(items@).len() > 0 ==> cond_step(c + "__in"@, Json::Array(items), index) == CondStep::Piece(
            c + " in ("@ + joined(in_literals(items@), ","@) + ")"@,
            None,
        ),
        in_literals(items@).len() == 0 ==> cond_step(c + "__in"@, Json::Array(items), index) == CondStep::Piece(
            c + "__in"@,
            None,
        ),
{
    lemma_operator_names();
    reveal_strlit("__");
    reveal_strlit("__in");
    lemma_key_split(c, "in"@);
    assert(c + "__"@ + "in"@ =~= c + "__in"@);
    assert(binary_op("in"@) is None);
}

/// One `__eq` condition `k: w` on a plain column `d` is `d = :condition0`,
/// binding `condition0` to `w`.
proof fn lemma_one_eq_condition(conds: Seq<(String, Json)>, k: String, d: Seq<char>, w: Json)
    requires
        conds == seq![(k, w)],
        k@ == d + "__eq"@,
        plain_column(d),
        w is String || w is Number,
    ensures
        operator_joiner(conds) == Ok::<Seq<char>, BuildFailure>(Seq::empty()),
        parse_conds(conds) == Ok::<(Seq<Seq<char>>, Seq<(Seq<char>, Json)>), Seq<char>>(
            (seq![d + " = :condition0"@], seq![("condition0"@, w)]),
        ),
{
    reveal_strlit("__eq");
    reveal_strlit("operator");
    reveal_strlit("condition");
    reveal_strlit(" = :condition");
    reveal_strlit(" = :condition0");
    reveal_strlit("condition0");
    assert(k@.last() == 'q');
    assert("operator"@.last() == 'r');
    assert(entry_value(conds.drop_first(), "operator"@) is None);
    assert(entry_value(conds, "operator"@) is None);
    lemma_op_eq(d, w, 0);
    assert(decimal(0) =~= seq!['0']);
    assert(d + " = :condition"@ + decimal(0) =~= d + " = :condition0"@);
    assert("condition"@ + decimal(0) =~= "condition0"@);
    assert(conds.drop_last() =~= Seq::<(String, Json)>::empty());
    assert(conds.last() == (k, w));
    assert(parse_conds(conds.drop_last()) == Ok::<(Seq<Seq<char>>, Seq<(Seq<char>, Json)>), Seq<char>>(
        (Seq::empty(), Seq::empty()),
    ));
    assert(Seq::<Seq<char>>::empty().push(d + " = :condition0"@) =~= seq![d + " = :condition0"@]);
    assert(Seq::<(Seq<char>, Json)>::empty().push(("condition0"@, w)) =~= seq![("condition0"@, w)]);
}

/// An update of one value `c: v` (lowercase name `l`) under one `__eq`
/// condition on a plain column `d` with a string or number `w` is
/// `UPDATE model SET c = :l WHERE d = :condition0`, binding `condition0` to
/// `w`, then `l` to `v`.
pub proof fn lemma_update_one(
    model: Seq<char>,
    body: Json,
    vals: Vec<(String, Json)>,
    c: String,
    v: Json,
    l: Seq<char>,
    conds: Vec<(String, Json)>,
    k: String,
    d: Seq<char>,
    w: Json,
)
    requires
        json_get(body, "values"@) == Some(Json::Object(vals)),
        vals@ == seq![(c, v)],
        v is String || v is Number,
        json_get(body, "conditions"@) == Some(Json::Object(conds)),
        conds@ == seq![(k, w)],
        k@ == d + "__eq"@,
        plain_column(d),
        w is String || w is Number,
    ensures
        update_outcome_named(model, body, seq![l]) == Ok::<(Seq<char>, Seq<(Seq<char>, Json)>), BuildFailure>(
            (
                "UPDATE "@ + model + " SET "@ + c@ + " = :"@ + l + " WHERE "@ + d + " = :condition0"@,
                seq![("condition0"@, w), (l, v)],
            ),
        ),
{
    lemma_one_converted(c, v);
    lemma_one_eq_condition(conds@, k, d, w);
    let cols = seq![(c, v)];
    assert(Seq::new(cols.len(), |j: int| cols[j].0@ + " = :"@ + seq![l][j]) =~= seq![c@ + " = :"@ + l]);
    assert(value_params(cols, seq![l]) =~= seq![(l, v)]);
    assert(seq![("condition0"@, w)] + seq![(l, v)] =~= seq![("condition0"@, w), (l, v)]);
    assert("UPDATE "@ + model + " SET "@ + (c@ + " = :"@ + l) + " WHERE "@ + (d + " = :condition0"@)
        =~= "UPDATE "@ + model + " SET "@ + c@ + " = :"@ + l + " WHERE "@ + d + " = :condition0"@);
}

/// A select or a delete under one `__eq` condition on a plain column `d`
/// with a string or number `w` is `SELECT * FROM model WHERE d =
/// :condition0` or `DELETE FROM model WHERE d = :condition0`, binding
/// `condition0` to `w`; with no conditions it is `SELECT * FROM model` or
/// `DELETE FROM model`.
pub proof fn lemma_filter_one(model: Seq<char>, conds: Vec<(String, Json)>, k: String, d: Seq<char>, w: Json)
    requires
        conds@ == seq![(k, w)],
        k@ == d + "__eq"@,
        plain_column(d),
        w is String || w is Number,
    ensures
        build_outcome(model, DML::Select, Json::Object(conds)) == Ok::<(Seq<char>, Seq<(Seq<char>, Json)>), BuildFailure>(
            ("SELECT * FROM "@ + model + " WHERE "@ + d + " = :condition0"@, seq![("condition0"@, w)]),
        ),
        build_outcome(model, DML::Delete, Json::Object(conds)) == Ok::<(Seq<char>, Seq<(Seq<char>, Json)>), BuildFailure>(
            ("DELETE FROM "@ + model + " WHERE "@ + d + " = :condition0"@, seq![("condition0"@, w)]),
        ),
{
    lemma_one_eq_condition(conds@, k, d, w);
    assert("SELECT * FROM "@ + model + " WHERE "@ + (d + " = :condition0"@) =~= "SELECT * FROM "@ + model
        + " WHERE "@ + d + " = :condition0"@);
    assert("DELETE FROM "@ + model + " WHERE "@ + (d + " = :condition0"@) =~= "DELETE FROM "@ + model
        + " WHERE "@ + d + " = :condition0"@);
}

/// A select or a delete with no conditions is `SELECT * FROM model` or
/// `DELETE FROM model`, binding nothing.
pub proof fn lemma_filter_none(model: Seq<char>, conds: Vec<(String, Json)>)
    requires
        conds@.len() == 0,
    ensures
        build_outcome(model, DML::Select, Json::Object(conds)) == Ok::<(Seq<char>, Seq<(Seq<char>, Json)>), BuildFailure>(
            ("SELECT * FROM "@ + model, Seq::empty()),
        ),
        build_outcome(model, DML::Delete, Json::Object(conds)) == Ok::<(Seq<char>, Seq<(Seq<char>, Json)>), BuildFailure>(
            ("DELETE FROM "@ + model, Seq::empty()),
        ),
{
}

/// The condition parameters are named `condition0`, `condition1`, ... in
/// the order in which the conditions bind them.
pub proof fn lemma_condition_names_consecutive(entries: Seq<(String, Json)>)
    ensures
        parse_conds(entries) matches Ok((frags, ps)) ==> forall|k: int|
            0 <= k < ps.len() ==> #[trigger] ps[k].0 == condition_name(k as nat),
    decreases entries.len(),
{
    if entries.len() > 0 {
        lemma_condition_names_consecutive(entries.drop_last());
    }
}

fn common(info: String) -> (e: Error)
    ensures
        e matches Error::CommonError { info: i } && i@ == info@,
{
    Error::CommonError { info }
}

/// The object under `token` in the body.
fn get_map<'a>(body: &'a Json, token: &str) -> (r: Result<&'a Vec<(String, Json)>, Error>)
    ensures
        match map_at(*body, token@) {
            Ok(entries) => r matches Ok(m) && m@ == entries,
            Err(msg) => r matches Err(e) && failure_of(e, BuildFailure::Common(msg)),
        },
{
    let found = match body {
        Json::Object(entries) => entries_get(entries, token),
        _ => None,
    };
    match found {
        None => Err(common(String::from_str("invalid json format"))),
        Some(Json::Object(entries)) => Ok(entries),
        Some(_) => {
            let mut info = String::from_str("invalid json format at token '");
            info.append(token);
            info.append("'");
            Err(common(info))
        },
    }
}

/// Appends the text and returns the string.
fn with(s: String, piece: &str) -> (r: String)
    ensures
        r@ == s@ + piece@,
{
    let mut s = s;
    s.append(piece);
    s
}

proof fn lemma_converted_prefix_len(values: Seq<(String, Json)>, i: int)
    requires
        0 <= i <= values.len(),
    ensures
        converted_entries(values.take(i)).len() <= converted_entries(values).len(),
    decreases values.len() - i,
{
    if i < values.len() {
        lemma_converted_prefix_len(values, i + 1);
        assert(values.take(i + 1).drop_last() =~= values.take(i));
    } else {
        assert(values.take(i) =~= values);
    }
}

/// The lowercase names of the entries that convert.
fn lowered_names(values: &Vec<(String, Json)>) -> (r: Vec<String>)
    ensures
        views(r@) == lowered(values@),
{
    let mut low: Vec<String> = Vec::new();
    let mut i: usize = 0;
    while i < values.len()
        invariant
            i <= values.len(),
            views(low@) == lowered(values@.take(i as int)),
        decreases values.len() - i,
    {
        assert(values@.take(i as int + 1).drop_last() =~= values@.take(i as int));
        if convertible_value(&values[i].1) {
            let ghost before = views(low@);
            low.push(to_lowercase(values[i].0.as_str()));
            assert(views(low@) =~= before.push(lowercase(values@[i as int].0@)));
        }
        assert(views(low@) =~= lowered(values@.take(i as int + 1)));
        i = i + 1;
    }
    assert(values@.take(values.len() as int) =~= values@);
    low
}

fn convertible_value(j: &Json) -> (r: bool)
    ensures
        r == convertible(*j),
{
    match j {
        Json::String(_) => true,
        Json::Number(_) => true,
        _ => false,
    }
}

/// The value entries that convert, with their names and parameters, the
/// lowercase names given by `low`: the names in backquotes, the
/// placeholders, the `SET` pieces and the bound parameters.
fn value_parts(values: &Vec<(String, Json)>, low: &Vec<String>) -> (r: (
    Vec<String>,
    Vec<String>,
    Vec<String>,
    Vec<(String, SqlValue)>,
))
    requires
        low@.len() == converted_entries(values@).len(),
    ensures
        views(r.0@) == converted_entries(values@).map_values(|e: (String, Json)| "`"@ + e.0@ + "`"@),
        views(r.1@) == views(low@).map_values(|l: Seq<char>| ":"@ + l),
        views(r.2@) == Seq::new(
            converted_entries(values@).len(),
            |k: int| converted_entries(values@)[k].0@ + " = :"@ + views(low@)[k],
        ),
        params_match(r.3@, value_params(converted_entries(values@), views(low@))),
{
    let ghost lv = views(low@);
    let mut names: Vec<String> = Vec::new();
    let mut holders: Vec<String> = Vec::new();
    let mut sets: Vec<String> = Vec::new();
    let mut params: Vec<(String, SqlValue)> = Vec::new();
    let mut i: usize = 0;
    let mut j: usize = 0;
    while i < values.len()
        invariant
            i <= values.len(),
            lv == views(low@),
            low@.len() == converted_entries(values@).len(),
            j == converted_entries(values@.take(i as int)).len(),
            names@.len() == j,
            holders@.len() == j,
            sets@.len() == j,
            params@.len() == j,
            forall|k: int| 0 <= k < j ==> #[trigger] names@[k]@ == "`"@ + converted_entries(values@.take(i as int))[k].0@ + "`"@,
            forall|k: int| 0 <= k < j ==> #[trigger] holders@[k]@ == ":"@ + lv[k],
            forall|k: int| 0 <= k < j ==> #[trigger] sets@[k]@ == converted_entries(values@.take(i as int))[k].0@ + " = :"@ + lv[k],
            forall|k: int| 0 <= k < j ==> (#[trigger] params@[k]).0@ == lv[k],
            forall|k: int| 0 <= k < j ==> sql_value_of((#[trigger] params@[k]).1, converted_entries(values@.take(i as int))[k].1),
        decreases values.len() - i,
    {
        let f = &values[i].0;
        let v = &values[i].1;
        let ghost before = converted_entries(values@.take(i as int));
        assert(values@.take(i as int + 1).drop_last() =~= values@.take(i as int));
        proof { lemma_converted_prefix_len(values@, i as int + 1); }
        match conv_value(v) {
            Some(dbv) => {
                let ghost now = converted_entries(values@.take(i as int + 1));
                assert(now == before.push(values@[i as int]));
                assert(j + 1 <= low.len());
                let lower = &low[j];
                let ghost old_params = params@;
                names.push(with(with(String::from_str("`"), f.as_str()), "`"));
                holders.push(with(String::from_str(":"), lower.as_str()));
                sets.push(with(with(String::from_str(f.as_str()), " = :"), lower.as_str()));
                params.push((lower.clone(), dbv));
                j = j + 1;
                assert forall|k: int| 0 <= k < j implies #[trigger] names@[k]@ == "`"@ + now[k].0@ + "`"@ by {
                    if k < j - 1 { assert(now[k] == before[k]); }
                }
                assert forall|k: int| 0 <= k < j implies #[trigger] sets@[k]@ == now[k].0@ + " = :"@ + lv[k] by {
                    if k < j - 1 { assert(now[k] == before[k]); }
                }
                assert forall|k: int| 0 <= k < j implies (#[trigger] params@[k]).0@ == lv[k] && sql_value_of(params@[k].1, now[k].1) by {
                    if k < j - 1 {
                        assert(now[k] == before[k]);
                        assert(params@[k] == old_params[k]);
                    }
                }
            },
            None => {
                assert(converted_entries(values@.take(i as int + 1)) == before);
            },
        }
        i = i + 1;
    }
    assert(values@.take(values.len() as int) =~= values@);
    let ghost cols = converted_entries(values@);
    assert(views(names@) =~= cols.map_values(|e: (String, Json)| "`"@ + e.0@ + "`"@));
    assert(views(holders@) =~= lv.map_values(|l: Seq<char>| ":"@ + l));
    assert(views(sets@) =~= Seq::new(cols.len(), |k: int| cols[k].0@ + " = :"@ + lv[k]));
    assert forall|k: int| 0 <= k < params@.len() implies #[trigger] params@[k].0@ == value_params(cols, lv)[k].0
        && sql_value_of(params@[k].1, value_params(cols, lv)[k].1) by {}
    (names, holders, sets, params)
}

/// The insert statement and its parameters, for the model and the body,
/// with the lowercase names of the body's `values` entries that convert
/// given by `low` (as `str::to_lowercase` gives them).
pub fn insert_statement(model: &str, body: &Json, low: &Vec<String>) -> (r: Result<
    (String, Vec<(String, SqlValue)>),
    Error,
>)
    requires
        names_fit(*body, views(low@)),
    ensures
        match insert_outcome_named(model@, *body, views(low@)) {
            Ok((sql, ps)) => r matches Ok((s, p)) && s@ == sql && params_match(p@, ps),
            Err(f) => r matches Err(e) && failure_of(e, f),
        },
{
    let values = match get_map(body, "values") {
        Ok(m) => m,
        Err(e) => {
            return Err(e);
        },
    };
    let (names, holders, _sets, params) = value_parts(values, low);
    let sql = with(
        with(
            with(
                with(with(with(String::from_str("INSERT INTO `"), model), "` ("), join_strings(
                    &names,
                    ",",
                ).as_str()),
                ") VALUES(",
            ),
            join_strings(&holders, ", ").as_str(),
        ),
        ")",
    );
    Ok((sql, params))
}

/// The lowercase names of the body's `values` entries that convert.
fn body_lowered(body: &Json) -> (r: Vec<String>)
    ensures
        views(r@) == values_lowered(*body),
{
    match get_map(body, "values") {
        Ok(values) => lowered_names(values),
        Err(_) => {
            let r: Vec<String> = Vec::new();
            assert(views(r@) =~= Seq::<Seq<char>>::empty());
            r
        },
    }
}

/// The text of one condition, and the parameter it binds, from a key
/// holding `__` and the number of parameters bound before it.
fn cond_piece(key: &String, value: &Json, index: usize) -> (r: Result<
    Option<(String, Option<(String, SqlValue)>)>,
    Error,
>)
    ensures
        match cond_step(key@, *value, index as nat) {
            CondStep::Skip => r matches Ok(None),
            CondStep::Piece(t, None) => r matches Ok(Some((s, None))) && s@ == t,
            CondStep::Piece(t, Some(name)) => r matches Ok(Some((s, Some((n, v))))) && s@ == t
                && n@ == name && sql_value_of(v, *value),
            CondStep::Fail(m) => r matches Err(e) && failure_of(e, BuildFailure::Common(m)),
        },
{
    let k = key.as_str();
    let n = k.unicode_len();
    let p = find_sep(k, 0);
    if p == n {
        return Ok(None);
    }
    proof {
        lemma_first_sep_bounds(key@, 0);
        lemma_first_sep_bounds(key@, p + 2);
    }
    let q = find_sep(k, p + 2);
    let column = k.substring_char(0, p);
    let op = k.substring_char(p + 2, q);
    let mut cname = String::from_str("condition");
    push_decimal(&mut cname, index as u64);
    let comparison: Option<&str> = if str_eq(op, "eq") {
        Some("=")
    } else if str_eq(op, "ne") {
        Some("!=")
    } else if str_eq(op, "lt") {
        Some("<")
    } else if str_eq(op, "lte") {
        Some("<=")
    } else if str_eq(op, "gt") {
        Some(">")
    } else if str_eq(op, "gte") {
        Some(">=")
    } else if str_eq(op, "like") {
        Some("LIKE")
    } else {
        None
    };
    match comparison {
        Some(c) => {
            match conv_value(value) {
                Some(v) => {
                    let text = with(
                        with(with(with(String::from_str(column), " "), c), " :"),
                        cname.as_str(),
                    );
                    Ok(Some((text, Some((cname, v)))))
                },
                None => Err(common(String::from_str("invalid json format"))),
            }
        },
        None => {
            if str_eq(op, "is") {
                Ok(Some((with(String::from_str(column), " IS NULL"), None)))
            } else if str_eq(op, "isnot") {
                Ok(Some((with(String::from_str(column), " IS NOT NULL"), None)))
            } else if str_eq(op, "in") {
                match value {
                    Json::Array(items) => {
                        let lits = in_literal_list(items);
                        if lits.len() > 0 {
                            let text = with(
                                with(with(String::from_str(column), " in ("), join_strings(
                                    &lits,
                                    ",",
                                ).as_str()),
                                ")",
                            );
                            Ok(Some((text, None)))
                        } else {
                            Ok(Some((key.clone(), None)))
                        }
                    },
                    _ => Err(
                        common(
                            with(
                                with(String::from_str("invalid format at "), k),
                                ", it`s must json array",
                            ),
                        ),
                    ),
                }
            } else {
                Err(common(with(String::from_str("Unsupported operator "), k)))
            }
        },
    }
}

/// The literals of the array items that convert.
fn in_literal_list(items: &Vec<Json>) -> (r: Vec<String>)
    ensures
        views(r@) == in_literals(items@),
{
    let mut lits: Vec<String> = Vec::new();
    let mut i: usize = 0;
    while i < items.len()
        invariant
            i <= items.len(),
            views(lits@) == in_literals(items@.take(i as int)),
        decreases items.len() - i,
    {
        assert(items@.take(i as int + 1).drop_last() =~= items@.take(i as int));
        match conv_value(&items[i]) {
            Some(v) => {
                proof { lemma_literal_of_converted(v, items@[i as int]); }
                let l = sql_literal_text(&v);
                let ghost before = views(lits@);
                lits.push(l);
                assert(views(lits@) =~= before.push(l@));
            },
            None => {},
        }
        i = i + 1;
    }
    assert(items@.take(items.len() as int) =~= items@);
    lits
}

/// A refusal of a prefix of the entries refuses them all.
proof fn lemma_parse_conds_fail_extends(entries: Seq<(String, Json)>, k: int)
    requires
        0 <= k <= entries.len(),
        parse_conds(entries.take(k)) is Err,
    ensures
        parse_conds(entries) == parse_conds(entries.take(k)),
    decreases entries.len() - k,
{
    if k == entries.len() {
        assert(entries.take(k) =~= entries);
    } else {
        assert(entries.take(k + 1).drop_last() =~= entries.take(k));
        lemma_parse_conds_fail_extends(entries, k + 1);
    }
}

/// The condition texts and parameters of the condition entries.
fn parse_op(cdt: &Vec<(String, Json)>) -> (r: Result<(Vec<String>, Vec<(String, SqlValue)>), Error>)
    ensures
        match parse_conds(cdt@) {
            Ok((frags, ps)) => r matches Ok((f, p)) && views(f@) == frags && params_match(p@, ps),
            Err(m) => r matches Err(e) && failure_of(e, BuildFailure::Common(m)),
        },
{
    let mut frags: Vec<String> = Vec::new();
    let mut params: Vec<(String, SqlValue)> = Vec::new();
    let mut i: usize = 0;
    while i < cdt.len()
        invariant
            i <= cdt.len(),
            parse_conds(cdt@.take(i as int)) matches Ok((fs, ps)) && views(frags@) == fs
                && params_match(params@, ps),
        decreases cdt.len() - i,
    {
        assert(cdt@.take(i as int + 1).drop_last() =~= cdt@.take(i as int));
        let ghost fs = views(frags@);
        let ghost ps = parse_conds(cdt@.take(i as int))->Ok_0.1;
        match cond_piece(&cdt[i].0, &cdt[i].1, params.len()) {
            Err(e) => {
                proof { lemma_parse_conds_fail_extends(cdt@, i as int + 1); }
                return Err(e);
            },
            Ok(None) => {},
            Ok(Some((text, bound))) => {
                frags.push(text);
                assert(views(frags@) =~= fs.push(text@));
                match bound {
                    None => {},
                    Some(param) => {
                        let ghost old_params = params@;
                        params.push(param);
                        proof {
                            let np = ps.push((param.0@, cdt@[i as int].1));
                            assert forall|k: int| 0 <= k < params@.len() implies #[trigger] params@[k].0@
                                == np[k].0 && sql_value_of(params@[k].1, np[k].1) by {
                                if k < old_params.len() {
                                    assert(params@[k] == old_params[k]);
                                }
                            }
                        }
                    },
                }
            },
        }
        i = i + 1;
    }
    assert(cdt@.take(cdt.len() as int) =~= cdt@);
    Ok((frags, params))
}

/// The text that joins the conditions, from their `operator` entry.
fn joiner_of(conds: &Vec<(String, Json)>) -> (r: Result<&'static str, Error>)
    ensures
        match operator_joiner(conds@) {
            Ok(j) => r matches Ok(t) && t@ == j,
            Err(f) => r matches Err(e) && failure_of(e, f),
        },
{
    proof {
        reveal_strlit("");
    }
    match entries_get(conds, "operator") {
        None => Ok(""),
        Some(Json::String(s)) => {
            if str_eq(s.as_str(), "AND") {
                Ok(" AND ")
            } else if str_eq(s.as_str(), "OR") {
                Ok(" OR ")
            } else {
                Err(common(with(String::from_str("invalid operator:"), s.as_str())))
            }
        },
        Some(Json::Number(JsonNumber::Float(_))) => Err(Error::OperatorNotText),
        Some(other) => match cache_text(other) {
            Some(t) => Err(common(with(String::from_str("invalid format at token operator:"), t.as_str()))),
            None => Err(Error::OperatorNotText),
        },
    }
}

/// The update statement and its parameters, for the model and the body,
/// with the lowercase names of the body's `values` entries that convert
/// given by `low` (as `str::to_lowercase` gives them).
pub fn update_statement(model: &str, body: &Json, low: &Vec<String>) -> (r: Result<
    (String, Vec<(String, SqlValue)>),
    Error,
>)
    requires
        names_fit(*body, views(low@)),
    ensures
        match update_outcome_named(model@, *body, views(low@)) {
            Ok((sql, ps)) => r matches Ok((s, p)) && s@ == sql && params_match(p@, ps),
            Err(f) => r matches Err(e) && failure_of(e, f),
        },
{
    let values = match get_map(body, "values") {
        Ok(m) => m,
        Err(e) => {
            return Err(e);
        },
    };
    let conds = match get_map(body, "conditions") {
        Ok(m) => m,
        Err(e) => {
            return Err(e);
        },
    };
    let joiner = match joiner_of(conds) {
        Ok(j) => j,
        Err(e) => {
            return Err(e);
        },
    };
    let (frags, mut params) = match parse_op(conds) {
        Ok(r) => r,
        Err(e) => {
            return Err(e);
        },
    };
    let (_names, _holders, sets, vparams) = value_parts(values, low);
    let head = with(
        with(with(String::from_str("UPDATE "), model), " SET "),
        join_strings(&sets, ", ").as_str(),
    );
    let sql = if frags.len() > 0 {
        with(with(head, " WHERE "), join_strings(&frags, joiner).as_str())
    } else {
        head
    };
    assert(map_at(*body, "values"@) == Ok::<Seq<(String, Json)>, Seq<char>>(values@));
    assert(map_at(*body, "conditions"@) == Ok::<Seq<(String, Json)>, Seq<char>>(conds@));
    assert(update_outcome_named(model@, *body, views(low@)) is Ok);
    assert(sql@ == update_outcome_named(model@, *body, views(low@))->Ok_0.0);
    let ghost cps = params@;
    let mut vparams = vparams;
    let ghost vps = vparams@;
    params.append(&mut vparams);
    proof {
        let cp = parse_conds(conds@)->Ok_0.1;
        let vp = value_params(converted_entries(values@), views(low@));
        assert forall|k: int| 0 <= k < params@.len() implies #[trigger] params@[k].0@ == (cp
            + vp)[k].0 && sql_value_of(params@[k].1, (cp + vp)[k].1) by {
            if k < cps.len() {
                assert(params@[k] == cps[k]);
            } else {
                assert(params@[k] == vps[k - cps.len()]);
            }
        }
        assert(params_match(params@, cp + vp));
        assert(update_outcome_named(model@, *body, views(low@))->Ok_0.1 == cp + vp);
    }
    Ok((sql, params))
}

/// The select or delete statement and its parameters, for the model and
/// the body, which is the conditions object.
fn filter_statement(model: &str, dml: DML, body: &Json) -> (r: Result<(String, Vec<(String, SqlValue)>), Error>)
    requires
        dml is Select || dml is Delete,
    ensures
        match filter_outcome(model@, dml, *body) {
            Ok((sql, ps)) => r matches Ok((s, p)) && s@ == sql && params_match(p@, ps),
            Err(f) => r matches Err(e) && failure_of(e, f),
        },
{
    let conds = match body {
        Json::Object(c) => c,
        _ => {
            return Err(common(String::from_str("invalid json format")));
        },
    };
    let joiner = match joiner_of(conds) {
        Ok(j) => j,
        Err(e) => {
            return Err(e);
        },
    };
    let (frags, params) = match parse_op(conds) {
        Ok(r) => r,
        Err(e) => {
            return Err(e);
        },
    };
    let head = match dml {
        DML::Select => with(String::from_str("SELECT * FROM "), model),
        _ => with(String::from_str("DELETE FROM "), model),
    };
    let sql = if frags.len() > 0 {
        with(with(head, " WHERE "), join_strings(&frags, joiner).as_str())
    } else {
        head
    };
    Ok((sql, params))
}

/// A statement of one kind on one table, built from a request body, with
/// the parameters it binds.
pub struct Access {
    tbl: Rc<Table>,
    sql: String,
    params: Vec<(String, SqlValue)>,
    dml: DML,
    body: Json,
}

impl Access {
    pub closed spec fn table(&self) -> Table {
        *self.tbl
    }

    pub closed spec fn statement(&self) -> Seq<char> {
        self.sql@
    }

    pub closed spec fn bound(&self) -> Seq<(String, SqlValue)> {
        self.params@
    }

    pub closed spec fn kind(&self) -> DML {
        self.dml
    }

    pub closed spec fn request(&self) -> Json {
        self.body
    }

    /// A statement of the given kind on the table, from the body; nothing
    /// is built yet.
    pub fn new(tbl: Rc<Table>, dml: DML, body: Json) -> (a: Access)
        ensures
            a.table() == *tbl,
            a.kind() == dml,
            a.request() == body,
            a.statement() == Seq::<char>::empty(),
            a.bound() == Seq::<(String, SqlValue)>::empty(),
    {
        Access { tbl, sql: String::new(), params: Vec::new(), dml, body }
    }

    /// Builds the statement: its text, and the parameters it binds after
    /// those bound so far.  An insert takes the body's `values`, an update
    /// its `values` and `conditions`; a select or a delete takes the body as
    /// its conditions.  A refused body leaves the statement and the
    /// parameters as they were.
    pub fn build(&mut self) -> (r: Result<(), Error>)
        ensures
            final(self).table() == old(self).table(),
            final(self).kind() == old(self).kind(),
            final(self).request() == old(self).request(),
            match build_outcome(old(self).table().model(), old(self).kind(), old(self).request()) {
                Ok((sql, ps)) => r is Ok && final(self).statement() == sql && final(self).bound().take(
                    old(self).bound().len() as int,
                ) == old(self).bound() && params_match(
                    final(self).bound().skip(old(self).bound().len() as int),
                    ps,
                ),
                Err(f) => r matches Err(e) && failure_of(e, f) && final(self).statement() == old(
                    self,
                ).statement() && final(self).bound() == old(self).bound(),
            },
    {
        let model = self.tbl.get_model();
        let parts = match self.dml {
            DML::Insert => {
                let low = body_lowered(&self.body);
                insert_statement(model.as_str(), &self.body, &low)
            },
            DML::Update => {
                let low = body_lowered(&self.body);
                update_statement(model.as_str(), &self.body, &low)
            },
            _ => filter_statement(model.as_str(), self.dml, &self.body),
        };
        match parts {
            Ok((sql, mut params)) => {
                let ghost before = self.params@;
                let ghost added = params@;
                self.sql = sql;
                self.params.append(&mut params);
                assert(self.params@.take(before.len() as int) =~= before);
                assert(self.params@.skip(before.len() as int) =~= added);
                Ok(())
            },
            Err(e) => Err(e),
        }
    }

    /// The statement's text.
    pub fn sql(&self) -> (r: &String)
        ensures
            r@ == self.statement(),
    {
        &self.sql
    }

    /// The parameters the statement binds.
    pub fn params(&self) -> (r: &Vec<(String, SqlValue)>)
        ensures
            r@ == self.bound(),
    {
        &self.params
    }

    /// The kind of statement.
    pub fn dml(&self) -> (r: DML)
        ensures
            r == self.kind(),
    {
        self.dml
    }
}

} // verus!
