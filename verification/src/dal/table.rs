//! Table metadata: the primary keys and typed fields of a table, the cache
//! keys under which its metadata and rows are kept, and the typing of the
//! text values that the cache gives back.
use vstd::prelude::*;
use vstd::string::StringExecFns;
use vstd::string::StrSliceExecFns;
use vstd::utf8::encode_utf8;
use crate::text::{joined, views, str_eq, join_strings, parse_int, parsed_in_range, int_literal};
use crate::dal::lua::{
    LuaScript, prelude_statements, sadd_statement, hmset_statement, hmset_count_statement,
    pair_keys, pair_values,
};
use crate::error::Error;

verus! {

/// One column of a table as the database describes it.
#[derive(Clone, Debug)]
pub struct TableSchema {
    pub table_name: String,
    pub column_name: String,
    pub data_type: String,
    pub column_key: String,
}

/// A column of a table: its name and its database type.
#[derive(Clone, Debug)]
pub struct Field {
    pub name: String,
    pub tpe: String,
}

/// A table of a database: its name, its primary key columns and its fields.
#[derive(Debug)]
pub struct Table {
    db: String,
    model: String,
    pks: Vec<String>,
    fields: Vec<Field>,
}

/// The names of the primary key columns among the schema rows, in order.
pub open spec fn primary_keys(ts: Seq<TableSchema>) -> Seq<Seq<char>>
    decreases ts.len(),
{
    if ts.len() == 0 {
        Seq::empty()
    } else {
        let rest = primary_keys(ts.drop_last());
        if ts.last().column_key@ == "PRI"@ {
            rest.push(ts.last().column_name@)
        } else {
            rest
        }
    }
}

/// The fields of a table made from schema rows are the rows' columns, in
/// order, each with its name and its data type.
pub proof fn lemma_fields_are_columns(ts: Seq<TableSchema>)
    ensures
        schema_fields(ts).len() == ts.len(),
        forall|i: int| 0 <= i < ts.len() ==> #[trigger] schema_fields(ts)[i] == (ts[i].column_name@, ts[i].data_type@),
{
}

/// The primary keys of a table made from schema rows are the column names
/// of exactly the rows whose column key is `PRI` (not `UNI`, `MUL` or any
/// other), in the order of the rows.
pub proof fn lemma_primary_keys_are_pri_rows(ts: Seq<TableSchema>)
    ensures
        primary_keys(ts) == ts.filter(|t: TableSchema| t.column_key@ == "PRI"@).map_values(
            |t: TableSchema| t.column_name@,
        ),
    decreases ts.len(),
{
    reveal(Seq::filter);
    if ts.len() > 0 {
        lemma_primary_keys_are_pri_rows(ts.drop_last());
        let rest = ts.drop_last().filter(|t: TableSchema| t.column_key@ == "PRI"@);
        assert(ts.filter(|t: TableSchema| t.column_key@ == "PRI"@) == if ts.last().column_key@ == "PRI"@ {
            rest.push(ts.last())
        } else {
            rest
        });
        if ts.last().column_key@ == "PRI"@ {
            assert(rest.push(ts.last()).map_values(|t: TableSchema| t.column_name@) =~= rest.map_values(
                |t: TableSchema| t.column_name@,
            ).push(ts.last().column_name@));
        }
    } else {
        assert(ts.filter(|t: TableSchema| t.column_key@ == "PRI"@) =~= Seq::<TableSchema>::empty());
        assert(ts.filter(|t: TableSchema| t.column_key@ == "PRI"@).map_values(|t: TableSchema| t.column_name@) =~= Seq::<Seq<char>>::empty());
    }
}

/// Whether one of the schema rows names the column.
pub open spec fn is_column(ts: Seq<TableSchema>, name: Seq<char>) -> bool {
    exists|j: int| 0 <= j < ts.len() && #[trigger] schema_fields(ts)[j].0 == name
}

/// Every primary key column of a table made from schema rows is one of
/// the table's fields.
pub proof fn lemma_primary_keys_are_fields(ts: Seq<TableSchema>)
    ensures
        forall|i: int| 0 <= i < primary_keys(ts).len() ==> is_column(ts, #[trigger] primary_keys(ts)[i]),
    decreases ts.len(),
{
    if ts.len() > 0 {
        let rest = ts.drop_last();
        lemma_primary_keys_are_fields(rest);
        assert forall|i: int| 0 <= i < primary_keys(ts).len() implies is_column(
            ts,
            #[trigger] primary_keys(ts)[i],
        ) by {
            if i < primary_keys(rest).len() {
                assert(is_column(rest, primary_keys(rest)[i]));
                let j = choose|j: int|
                    0 <= j < rest.len() && #[trigger] schema_fields(rest)[j].0 == primary_keys(rest)[i];
                assert(primary_keys(ts)[i] == primary_keys(rest)[i]);
                assert(schema_fields(ts)[j].0 == schema_fields(rest)[j].0);
            } else {
                assert(primary_keys(ts)[i] == ts.last().column_name@);
                assert(schema_fields(ts)[ts.len() - 1].0 == primary_keys(ts)[i]);
            }
        }
    }
}

/// The (name, type) of each field.
pub open spec fn field_views(fields: Seq<Field>) -> Seq<(Seq<char>, Seq<char>)> {
    fields.map_values(|f: Field| (f.name@, f.tpe@))
}

/// The (name, type) of each column of the schema rows, in order.
pub open spec fn schema_fields(ts: Seq<TableSchema>) -> Seq<(Seq<char>, Seq<char>)> {
    ts.map_values(|c: TableSchema| (c.column_name@, c.data_type@))
}

/// The cache key of the set of a database's tables.
pub open spec fn db_set_key(db: Seq<char>) -> Seq<char> {
    db + ":"@ + "metadata"@ + ":"@ + "set"@
}

/// The cache key of a piece of a table's metadata.
pub open spec fn table_key(db: Seq<char>, model: Seq<char>, kind: Seq<char>) -> Seq<char> {
    db + ":"@ + model + ":"@ + "metadata"@ + ":"@ + kind
}

/// The cache keys of a table's metadata are `db:model:metadata:kind`, and
/// the database's set of tables is `db:metadata:set`.
pub proof fn lemma_metadata_key_text(db: Seq<char>, model: Seq<char>, kind: Seq<char>)
    ensures
        table_key(db, model, kind) == db + ":"@ + model + ":metadata:"@ + kind,
        db_set_key(db) == db + ":metadata:set"@,
{
    reveal_strlit(":");
    reveal_strlit("metadata");
    reveal_strlit("set");
    reveal_strlit(":metadata:");
    reveal_strlit(":metadata:set");
    assert(db + ":"@ + model + ":"@ + "metadata"@ + ":"@ + kind =~= db + ":"@ + model + ":metadata:"@ + kind);
    assert(db + ":"@ + "metadata"@ + ":"@ + "set"@ =~= db + ":metadata:set"@);
}

/// The metadata kinds of a table.
pub open spec fn metadata_kinds() -> Seq<Seq<char>> {
    seq!["scheme"@, "pk"@, "set"@, "timer"@, "counter"@]
}

/// A table's metadata keys (schema, primary key, row set, timer, counter)
/// are pairwise different, and none of them is the key of the database's
/// set of tables: the cache entries of one table never overwrite each other.
pub proof fn lemma_metadata_keys_distinct(db: Seq<char>, model: Seq<char>)
    ensures
        forall|i: int, j: int|
            0 <= i < j < 5 ==> table_key(db, model, #[trigger] metadata_kinds()[i]) != table_key(
                db,
                model,
                #[trigger] metadata_kinds()[j],
            ),
        forall|i: int|
            0 <= i < 5 ==> db_set_key(db) != table_key(db, model, #[trigger] metadata_kinds()[i]),
{
    reveal_strlit("scheme");
    reveal_strlit("pk");
    reveal_strlit("set");
    reveal_strlit("timer");
    reveal_strlit("counter");
    reveal_strlit("metadata");
    reveal_strlit(":");
    assert("scheme"@.len() == 6);
    assert("pk"@.len() == 2);
    assert("set"@.len() == 3);
    assert("timer"@.len() == 5);
    assert("counter"@.len() == 7);
    assert("metadata"@.len() == 8);
    assert(":"@.len() == 1);
    let kinds = metadata_kinds();
    assert(kinds[0] == "scheme"@ && kinds[1] == "pk"@ && kinds[2] == "set"@ && kinds[3] == "timer"@
        && kinds[4] == "counter"@);
    assert forall|i: int| 0 <= i < 5 implies (#[trigger] kinds[i]).len() == (if i == 0 {
        6int
    } else if i == 1 {
        2
    } else if i == 2 {
        3
    } else if i == 3 {
        5
    } else {
        7
    }) by {
        if i == 0 {
        } else if i == 1 {
        } else if i == 2 {
        } else if i == 3 {
        } else {
        }
    }
    assert forall|i: int, j: int| 0 <= i < j < 5 implies table_key(db, model, #[trigger] kinds[i])
        != table_key(db, model, #[trigger] kinds[j]) by {
        assert(table_key(db, model, kinds[i]).len() == db.len() + model.len() + 11 + kinds[i].len());
        assert(table_key(db, model, kinds[j]).len() == db.len() + model.len() + 11 + kinds[j].len());
    }
    assert forall|i: int| 0 <= i < 5 implies db_set_key(db) != table_key(
        db,
        model,
        #[trigger] kinds[i],
    ) by {
        let k = kinds[i];
        let a = db_set_key(db);
        let b = table_key(db, model, k);
        assert(a.len() == db.len() + 13);
        assert(b.len() == db.len() + model.len() + 11 + k.len());
        if model.len() == 0 && i == 1 {
            assert(a[db.len() as int + 1] == 'm');
            assert(b[db.len() as int + 1] == ':');
        }
    }
}

/// The value of `key` in a row, or the empty text when the row lacks it.
/// The row is a list of (column, value) pairs; the first pair for a column
/// counts.
pub open spec fn row_value(row: Seq<(String, String)>, key: Seq<char>) -> Seq<char>
    decreases row.len(),
{
    if row.len() == 0 {
        Seq::empty()
    } else if row[0].0@ == key {
        row[0].1@
    } else {
        row_value(row.drop_first(), key)
    }
}

/// The cache key of one row: the table, the primary key names and the
/// row's values of them.
pub open spec fn model_key(
    db: Seq<char>,
    model: Seq<char>,
    pks: Seq<Seq<char>>,
    row: Seq<(String, String)>,
) -> Seq<char> {
    key_of_values(db, model, pks, pks.map_values(|p: Seq<char>| row_value(row, p)))
}

/// The cache key of the row whose primary key values are `values`, in the
/// order of the primary keys: `db:model:pk1,pk2,...:v1,v2,...`.
pub open spec fn key_of_values(
    db: Seq<char>,
    model: Seq<char>,
    pks: Seq<Seq<char>>,
    values: Seq<Seq<char>>,
) -> Seq<char> {
    db + ":"@ + model + ":"@ + joined(pks, ","@) + ":"@ + joined(values, ","@)
}

/// The cache key of a row is the database, the table, the primary key
/// names joined by `,` and the row's values of them joined by `,`, each part
/// after a `:`: `db:model:p:v` for one primary key, `db:model:p1,p2:v1,v2`
/// for two.
pub proof fn lemma_row_key_text(
    db: Seq<char>,
    model: Seq<char>,
    p1: Seq<char>,
    p2: Seq<char>,
    v1: Seq<char>,
    v2: Seq<char>,
)
    ensures
        key_of_values(db, model, seq![p1], seq![v1]) == db + ":"@ + model + ":"@ + p1 + ":"@ + v1,
        key_of_values(db, model, seq![p1, p2], seq![v1, v2]) == db + ":"@ + model + ":"@ + p1 + ","@ + p2
            + ":"@ + v1 + ","@ + v2,
{
    assert(seq![p1, p2].drop_last() =~= seq![p1]);
    assert(seq![v1, v2].drop_last() =~= seq![v1]);
    assert(joined(seq![p1], ","@) == p1);
    assert(joined(seq![v1], ","@) == v1);
    assert(seq![p1, p2].last() == p2);
    assert(seq![v1, v2].last() == v2);
    assert(joined(seq![p1, p2], ","@) == p1 + ","@ + p2);
    assert(joined(seq![v1, v2], ","@) == v1 + ","@ + v2);
    assert(db + ":"@ + model + ":"@ + (p1 + ","@ + p2) + ":"@ + (v1 + ","@ + v2) =~= db + ":"@ + model + ":"@
        + p1 + ","@ + p2 + ":"@ + v1 + ","@ + v2);
}

/// A row's cache key depends on the row's primary key columns alone: two
/// rows that agree on every primary key column (a column that both lack
/// counts as the empty text) have the same key, whatever their other
/// columns hold.
pub proof fn lemma_model_key_ignores_other_columns(
    db: Seq<char>,
    model: Seq<char>,
    pks: Seq<Seq<char>>,
    row1: Seq<(String, String)>,
    row2: Seq<(String, String)>,
)
    requires
        forall|i: int| 0 <= i < pks.len() ==> #[trigger] row_value(row1, pks[i]) == row_value(row2, pks[i]),
    ensures
        model_key(db, model, pks, row1) == model_key(db, model, pks, row2),
{
    assert(pks.map_values(|p: Seq<char>| row_value(row1, p)) =~= pks.map_values(
        |p: Seq<char>| row_value(row2, p),
    ));
}

/// How a column's text value is typed, by the column's database type.
#[derive(Clone, Debug, PartialEq)]
pub enum FieldValue {
    /// Character, text, date and time types keep the text.
    Text(String),
    /// Integer types: the parsed value.
    Integer(i64),
    /// Floating-point types keep the text to be parsed as an `f32`
    /// (`single`) or an `f64`.
    Real { text: String, single: bool },
}

/// The database types whose values stay text.
pub open spec fn is_text_type(t: Seq<char>) -> bool {
    ||| t == "char"@
    ||| t == "varchar"@
    ||| t == "text"@
    ||| t == "tinytext"@
    ||| t == "mediumtext"@
    ||| t == "longtext"@
    ||| t == "date"@
    ||| t == "time"@
    ||| t == "datetime"@
    ||| t == "timestamp"@
}

/// The bounds of an integer database type, if it is one.
pub open spec fn int_bounds(t: Seq<char>) -> Option<(int, int)> {
    if t == "int"@ || t == "bigint"@ {
        Some((i64::MIN as int, i64::MAX as int))
    } else if t == "tinyint"@ {
        Some((i8::MIN as int, i8::MAX as int))
    } else if t == "smallint"@ {
        Some((i16::MIN as int, i16::MAX as int))
    } else if t == "mediumint"@ {
        Some((i32::MIN as int, i32::MAX as int))
    } else {
        None
    }
}

/// Whether a database type is a floating-point one, and if so whether single.
pub open spec fn real_kind(t: Seq<char>) -> Option<bool> {
    if t == "float"@ {
        Some(true)
    } else if t == "double"@ || t == "decimal"@ {
        Some(false)
    } else {
        None
    }
}

/// The message for a value that does not fit its field's type.
pub open spec fn convert_failed_info(name: Seq<char>, s: Seq<char>, tpe: Seq<char>) -> Seq<char> {
    "field: "@ + name + " ["@ + s + "] convert to "@ + tpe + " failed"@
}

/// The message for a field of a type that has no typing.
pub open spec fn undefined_type_info(name: Seq<char>, s: Seq<char>, tpe: Seq<char>) -> Seq<char> {
    "field: "@ + name + " ["@ + s + "] convert to undefined "@ + tpe + " error"@
}

/// The message of an error, when it is a common one.
pub open spec fn common_info(e: Error) -> Option<Seq<char>> {
    match e {
        Error::CommonError { info } => Some(info@),
        _ => None,
    }
}

/// The message of the error that typing a field's text gives, if any.
pub open spec fn field_failure(f: Field, s: Seq<char>) -> Option<Seq<char>> {
    if is_text_type(f.tpe@) {
        None
    } else {
        match int_bounds(f.tpe@) {
            Some((lo, hi)) => if parsed_in_range(s, lo, hi) is Some {
                None
            } else {
                Some(convert_failed_info(f.name@, s, f.tpe@))
            },
            None => if real_kind(f.tpe@) is Some {
                None
            } else {
                Some(undefined_type_info(f.name@, s, f.tpe@))
            },
        }
    }
}

/// `v` is the typed value of a field's text.
pub open spec fn typed_as(f: Field, s: Seq<char>, v: FieldValue) -> bool {
    if is_text_type(f.tpe@) {
        v matches FieldValue::Text(t) && t@ == s
    } else {
        match int_bounds(f.tpe@) {
            Some((lo, hi)) => match parsed_in_range(s, lo, hi) {
                Some(n) => v matches FieldValue::Integer(i) && i == n,
                None => false,
            },
            None => match real_kind(f.tpe@) {
                Some(single) => v matches FieldValue::Real { text, single: sg } && text@ == s && sg
                    == single,
                None => false,
            },
        }
    }
}

/// The fields a cached row is read by: the requested ones, or all the
/// table's fields when none are requested.
pub open spec fn chosen_fields(requested: Seq<Field>, all: Seq<Field>) -> Seq<Field> {
    if requested.len() > 0 {
        requested
    } else {
        all
    }
}

/// `e` is the field's name and the typed value of the text `t`, which the
/// field types without error.
pub open spec fn typed_entry(f: Field, t: String, e: (String, FieldValue)) -> bool {
    &&& field_failure(f, t@) is None
    &&& e.0@ == f.name@
    &&& typed_as(f, t@, e.1)
}

/// `typed` holds the first `typed.len()` texts, each named by its field and
/// typed by it without error.
pub open spec fn typed_prefix(fs: Seq<Field>, texts: Seq<String>, typed: Seq<(String, FieldValue)>) -> bool {
    &&& typed.len() <= texts.len()
    &&& forall|i: int| 0 <= i < typed.len() ==> #[trigger] typed_entry(fs[i], texts[i], typed[i])
}

/// The message a field's value gives: name, value, then the tail.
fn field_message(name: &str, s: &str, middle: &str, tpe: &str, tail: &str) -> (r: String)
    ensures
        r@ == "field: "@ + name@ + " ["@ + s@ + middle@ + tpe@ + tail@,
{
    let mut r = String::from_str("field: ");
    r.append(name);
    r.append(" [");
    r.append(s);
    r.append(middle);
    r.append(tpe);
    r.append(tail);
    r
}

/// The text, integer and floating-point type names are three disjoint classes.
proof fn lemma_type_classes_disjoint(t: Seq<char>)
    ensures
        is_text_type(t) ==> int_bounds(t) is None && real_kind(t) is None,
        int_bounds(t) is Some ==> real_kind(t) is None,
{
    reveal_strlit("char");
    reveal_strlit("varchar");
    reveal_strlit("text");
    reveal_strlit("tinytext");
    reveal_strlit("mediumtext");
    reveal_strlit("longtext");
    reveal_strlit("date");
    reveal_strlit("time");
    reveal_strlit("datetime");
    reveal_strlit("timestamp");
    reveal_strlit("int");
    reveal_strlit("bigint");
    reveal_strlit("tinyint");
    reveal_strlit("smallint");
    reveal_strlit("mediumint");
    reveal_strlit("float");
    reveal_strlit("double");
    reveal_strlit("decimal");
    assert("char"@.len() == 4 && "char"@[0] == 'c');
    assert("varchar"@.len() == 7 && "varchar"@[0] == 'v');
    assert("text"@.len() == 4 && "text"@[0] == 't');
    assert("tinytext"@.len() == 8 && "tinytext"@[0] == 't');
    assert("mediumtext"@.len() == 10 && "mediumtext"@[0] == 'm');
    assert("longtext"@.len() == 8 && "longtext"@[0] == 'l');
    assert("date"@.len() == 4 && "date"@[0] == 'd');
    assert("time"@.len() == 4 && "time"@[0] == 't');
    assert("datetime"@.len() == 8 && "datetime"@[0] == 'd');
    assert("timestamp"@.len() == 9 && "timestamp"@[0] == 't');
    assert("int"@.len() == 3 && "int"@[0] == 'i');
    assert("bigint"@.len() == 6 && "bigint"@[0] == 'b');
    assert("tinyint"@.len() == 7 && "tinyint"@[0] == 't');
    assert("smallint"@.len() == 8 && "smallint"@[0] == 's');
    assert("mediumint"@.len() == 9 && "mediumint"@[0] == 'm');
    assert("float"@.len() == 5 && "float"@[0] == 'f');
    assert("double"@.len() == 6 && "double"@[0] == 'd');
    assert("decimal"@.len() == 7 && "decimal"@[0] == 'd');
}

proof fn lemma_type_names()
    ensures
        "char"@.len() == 4 && "char"@[0] == 'c' && "char"@[3] == 'r',
        "varchar"@.len() == 7 && "varchar"@[0] == 'v' && "varchar"@[6] == 'r',
        "text"@.len() == 4 && "text"@[0] == 't' && "text"@[3] == 't',
        "tinytext"@.len() == 8 && "tinytext"@[0] == 't' && "tinytext"@[7] == 't',
        "mediumtext"@.len() == 10 && "mediumtext"@[0] == 'm' && "mediumtext"@[9] == 't',
        "longtext"@.len() == 8 && "longtext"@[0] == 'l' && "longtext"@[7] == 't',
        "date"@.len() == 4 && "date"@[0] == 'd' && "date"@[3] == 'e',
        "time"@.len() == 4 && "time"@[0] == 't' && "time"@[3] == 'e',
        "datetime"@.len() == 8 && "datetime"@[0] == 'd' && "datetime"@[7] == 'e',
        "timestamp"@.len() == 9 && "timestamp"@[0] == 't' && "timestamp"@[8] == 'p',
        "int"@.len() == 3 && "int"@[0] == 'i' && "int"@[2] == 't',
        "bigint"@.len() == 6 && "bigint"@[0] == 'b' && "bigint"@[5] == 't',
        "tinyint"@.len() == 7 && "tinyint"@[0] == 't' && "tinyint"@[6] == 't',
        "smallint"@.len() == 8 && "smallint"@[0] == 's' && "smallint"@[7] == 't',
        "mediumint"@.len() == 9 && "mediumint"@[0] == 'm' && "mediumint"@[8] == 't',
        "float"@.len() == 5 && "float"@[0] == 'f' && "float"@[4] == 't',
        "double"@.len() == 6 && "double"@[0] == 'd' && "double"@[5] == 'e',
        "decimal"@.len() == 7 && "decimal"@[0] == 'd' && "decimal"@[6] == 'l',
{
    reveal_strlit("char");
    reveal_strlit("varchar");
    reveal_strlit("text");
    reveal_strlit("tinytext");
    reveal_strlit("mediumtext");
    reveal_strlit("longtext");
    reveal_strlit("date");
    reveal_strlit("time");
    reveal_strlit("datetime");
    reveal_strlit("timestamp");
    reveal_strlit("int");
    reveal_strlit("bigint");
    reveal_strlit("tinyint");
    reveal_strlit("smallint");
    reveal_strlit("mediumint");
    reveal_strlit("float");
    reveal_strlit("double");
    reveal_strlit("decimal");
    assert("char"@.len() == 4 && "char"@[0] == 'c' && "char"@[3] == 'r');
    assert("varchar"@.len() == 7 && "varchar"@[0] == 'v' && "varchar"@[6] == 'r');
    assert("text"@.len() == 4 && "text"@[0] == 't' && "text"@[3] == 't');
    assert("tinytext"@.len() == 8 && "tinytext"@[0] == 't' && "tinytext"@[7] == 't');
    assert("mediumtext"@.len() == 10 && "mediumtext"@[0] == 'm' && "mediumtext"@[9] == 't');
    assert("longtext"@.len() == 8 && "longtext"@[0] == 'l' && "longtext"@[7] == 't');
    assert("date"@.len() == 4 && "date"@[0] == 'd' && "date"@[3] == 'e');
    assert("time"@.len() == 4 && "time"@[0] == 't' && "time"@[3] == 'e');
    assert("datetime"@.len() == 8 && "datetime"@[0] == 'd' && "datetime"@[7] == 'e');
    assert("timestamp"@.len() == 9 && "timestamp"@[0] == 't' && "timestamp"@[8] == 'p');
    assert("int"@.len() == 3 && "int"@[0] == 'i' && "int"@[2] == 't');
    assert("bigint"@.len() == 6 && "bigint"@[0] == 'b' && "bigint"@[5] == 't');
    assert("tinyint"@.len() == 7 && "tinyint"@[0] == 't' && "tinyint"@[6] == 't');
    assert("smallint"@.len() == 8 && "smallint"@[0] == 's' && "smallint"@[7] == 't');
    assert("mediumint"@.len() == 9 && "mediumint"@[0] == 'm' && "mediumint"@[8] == 't');
    assert("float"@.len() == 5 && "float"@[0] == 'f' && "float"@[4] == 't');
    assert("double"@.len() == 6 && "double"@[0] == 'd' && "double"@[5] == 'e');
    assert("decimal"@.len() == 7 && "decimal"@[0] == 'd' && "decimal"@[6] == 'l');
}

/// A field of a character, text, date or time type (`char`, `varchar`,
/// `text`, `tinytext`, `mediumtext`, `longtext`, `date`, `time`,
/// `datetime`, `timestamp`) never refuses a text and types it as itself.
pub proof fn lemma_text_fields(f: Field, s: Seq<char>, v: FieldValue)
    requires
        f.tpe@ == "char"@ || f.tpe@ == "varchar"@ || f.tpe@ == "text"@ || f.tpe@ == "tinytext"@ || f.tpe@ == "mediumtext"@ || f.tpe@ == "longtext"@ || f.tpe@ == "date"@ || f.tpe@ == "time"@ || f.tpe@ == "datetime"@ || f.tpe@ == "timestamp"@,
    ensures
        field_failure(f, s) is None,
        typed_as(f, s, v) <==> (v matches FieldValue::Text(t) && t@ == s),
{
    lemma_type_names();
}

proof fn lemma_int_field_int(f: Field, s: Seq<char>, v: FieldValue)
    requires
        f.tpe@ == "int"@,
    ensures
        field_failure(f, s) is None <==> (int_literal(s) matches Some(k) && -9223372036854775808 <= k <= 9223372036854775807),
        field_failure(f, s) is None ==> (typed_as(f, s, v) <==> (v matches FieldValue::Integer(i) && int_literal(s) == Some(i as int))),
        field_failure(f, s) is Some ==> field_failure(f, s) == Some("field: "@ + f.name@ + " ["@ + s + "] convert to "@ + f.tpe@ + " failed"@),
{
    lemma_type_names();
    lemma_type_classes_disjoint(f.tpe@);
}

proof fn lemma_int_field_bigint(f: Field, s: Seq<char>, v: FieldValue)
    requires
        f.tpe@ == "bigint"@,
    ensures
        field_failure(f, s) is None <==> (int_literal(s) matches Some(k) && -9223372036854775808 <= k <= 9223372036854775807),
        field_failure(f, s) is None ==> (typed_as(f, s, v) <==> (v matches FieldValue::Integer(i) && int_literal(s) == Some(i as int))),
        field_failure(f, s) is Some ==> field_failure(f, s) == Some("field: "@ + f.name@ + " ["@ + s + "] convert to "@ + f.tpe@ + " failed"@),
{
    lemma_type_names();
    lemma_type_classes_disjoint(f.tpe@);
}

proof fn lemma_int_field_tinyint(f: Field, s: Seq<char>, v: FieldValue)
    requires
        f.tpe@ == "tinyint"@,
    ensures
        field_failure(f, s) is None <==> (int_literal(s) matches Some(k) && -128 <= k <= 127),
        field_failure(f, s) is None ==> (typed_as(f, s, v) <==> (v matches FieldValue::Integer(i) && int_literal(s) == Some(i as int))),
        field_failure(f, s) is Some ==> field_failure(f, s) == Some("field: "@ + f.name@ + " ["@ + s + "] convert to "@ + f.tpe@ + " failed"@),
{
    lemma_type_names();
    lemma_type_classes_disjoint(f.tpe@);
}

proof fn lemma_int_field_smallint(f: Field, s: Seq<char>, v: FieldValue)
    requires
        f.tpe@ == "smallint"@,
    ensures
        field_failure(f, s) is None <==> (int_literal(s) matches Some(k) && -32768 <= k <= 32767),
        field_failure(f, s) is None ==> (typed_as(f, s, v) <==> (v matches FieldValue::Integer(i) && int_literal(s) == Some(i as int))),
        field_failure(f, s) is Some ==> field_failure(f, s) == Some("field: "@ + f.name@ + " ["@ + s + "] convert to "@ + f.tpe@ + " failed"@),
{
    lemma_type_names();
    lemma_type_classes_disjoint(f.tpe@);
}

proof fn lemma_int_field_mediumint(f: Field, s: Seq<char>, v: FieldValue)
    requires
        f.tpe@ == "mediumint"@,
    ensures
        field_failure(f, s) is None <==> (int_literal(s) matches Some(k) && -2147483648 <= k <= 2147483647),
        field_failure(f, s) is None ==> (typed_as(f, s, v) <==> (v matches FieldValue::Integer(i) && int_literal(s) == Some(i as int))),
        field_failure(f, s) is Some ==> field_failure(f, s) == Some("field: "@ + f.name@ + " ["@ + s + "] convert to "@ + f.tpe@ + " failed"@),
{
    lemma_type_names();
    lemma_type_classes_disjoint(f.tpe@);
}

/// A field of an integer type refuses a text exactly when the text is not
/// an integer (an optional sign and decimal digits) within the type's
/// range: `int` and `bigint` from -9223372036854775808 to
/// 9223372036854775807, `tinyint` from -128 to 127, `smallint` from -32768
/// to 32767, `mediumint` from -2147483648 to 2147483647; it types an
/// accepted text as that integer, and a refusal names the field, the text
/// and the type.
pub proof fn lemma_integer_fields(f: Field, s: Seq<char>, v: FieldValue)
    ensures
        f.tpe@ == "int"@ ==> (field_failure(f, s) is None <==> (int_literal(s) matches Some(k) && -9223372036854775808 <= k <= 9223372036854775807)),
        f.tpe@ == "bigint"@ ==> (field_failure(f, s) is None <==> (int_literal(s) matches Some(k) && -9223372036854775808 <= k <= 9223372036854775807)),
        f.tpe@ == "tinyint"@ ==> (field_failure(f, s) is None <==> (int_literal(s) matches Some(k) && -128 <= k <= 127)),
        f.tpe@ == "smallint"@ ==> (field_failure(f, s) is None <==> (int_literal(s) matches Some(k) && -32768 <= k <= 32767)),
        f.tpe@ == "mediumint"@ ==> (field_failure(f, s) is None <==> (int_literal(s) matches Some(k) && -2147483648 <= k <= 2147483647)),
        (f.tpe@ == "int"@ || f.tpe@ == "bigint"@ || f.tpe@ == "tinyint"@ || f.tpe@ == "smallint"@ || f.tpe@ == "mediumint"@) ==> (field_failure(f, s) is None ==> (typed_as(f, s, v) <==> (v matches FieldValue::Integer(i) && int_literal(s) == Some(i as int)))),
        (f.tpe@ == "int"@ || f.tpe@ == "bigint"@ || f.tpe@ == "tinyint"@ || f.tpe@ == "smallint"@ || f.tpe@ == "mediumint"@) ==> (field_failure(f, s) is Some ==> field_failure(f, s) == Some("field: "@ + f.name@ + " ["@ + s + "] convert to "@ + f.tpe@ + " failed"@)),
{
    if f.tpe@ == "int"@ {
        lemma_int_field_int(f, s, v);
    }
    if f.tpe@ == "bigint"@ {
        lemma_int_field_bigint(f, s, v);
    }
    if f.tpe@ == "tinyint"@ {
        lemma_int_field_tinyint(f, s, v);
    }
    if f.tpe@ == "smallint"@ {
        lemma_int_field_smallint(f, s, v);
    }
    if f.tpe@ == "mediumint"@ {
        lemma_int_field_mediumint(f, s, v);
    }
}

/// A field of a floating-point type never refuses a text here and hands
/// it on to be parsed: as an `f32` for `float`, as an `f64` for `double`
/// and `decimal`.
pub proof fn lemma_real_fields(f: Field, s: Seq<char>, v: FieldValue)
    requires
        f.tpe@ == "float"@ || f.tpe@ == "double"@ || f.tpe@ == "decimal"@,
    ensures
        field_failure(f, s) is None,
        typed_as(f, s, v) <==> (v matches FieldValue::Real { text, single } && text@ == s && single == (f.tpe@ == "float"@)),
{
    lemma_type_names();
    lemma_type_classes_disjoint(f.tpe@);
}

/// A field of any other type refuses every text, with a message naming
/// the field, the text and the type.
pub proof fn lemma_other_fields(f: Field, s: Seq<char>, v: FieldValue)
    requires
        f.tpe@ != "char"@ && f.tpe@ != "varchar"@ && f.tpe@ != "text"@ && f.tpe@ != "tinytext"@ && f.tpe@ != "mediumtext"@ && f.tpe@ != "longtext"@ && f.tpe@ != "date"@ && f.tpe@ != "time"@ && f.tpe@ != "datetime"@ && f.tpe@ != "timestamp"@ && f.tpe@ != "int"@ && f.tpe@ != "bigint"@ && f.tpe@ != "tinyint"@ && f.tpe@ != "smallint"@ && f.tpe@ != "mediumint"@ && f.tpe@ != "float"@ && f.tpe@ != "double"@ && f.tpe@ != "decimal"@,
    ensures
        field_failure(f, s) == Some("field: "@ + f.name@ + " ["@ + s + "] convert to undefined "@ + f.tpe@ + " error"@),
        !typed_as(f, s, v),
{
}

impl Field {
    /// Types the text value `s` of this field by the field's database type:
    /// text types keep it, integer types parse it within their bounds,
    /// floating-point types hand it on to be parsed as such; an integer
    /// that does not parse, and a type without typing, are errors.
    pub fn get_value(&self, s: &str) -> (r: Result<FieldValue, Error>)
        ensures
            is_text_type(self.tpe@) ==> (r matches Ok(FieldValue::Text(t)) && t@ == s@),
            int_bounds(self.tpe@) matches Some((lo, hi)) ==> (match parsed_in_range(s@, lo, hi) {
                Some(v) => (r matches Ok(FieldValue::Integer(i)) && i == v),
                None => (r matches Err(e) && common_info(e) == Some(
                    convert_failed_info(self.name@, s@, self.tpe@),
                )),
            }),
            real_kind(self.tpe@) matches Some(single) ==> (r matches Ok(
                FieldValue::Real { text, single: sg },
            ) && text@ == s@ && sg == single),
            !is_text_type(self.tpe@) && int_bounds(self.tpe@) is None && real_kind(self.tpe@) is None
                ==> (r matches Err(e) && common_info(e) == Some(
                undefined_type_info(self.name@, s@, self.tpe@),
            )),
            match r {
                Ok(v) => field_failure(*self, s@) is None && typed_as(*self, s@, v),
                Err(e) => field_failure(*self, s@) is Some && common_info(e) == field_failure(*self, s@),
            },
    {
        let t = self.tpe.as_str();
        proof {
            lemma_type_classes_disjoint(self.tpe@);
            reveal_strlit("char");
            reveal_strlit("varchar");
            reveal_strlit("text");
            reveal_strlit("tinytext");
            reveal_strlit("mediumtext");
            reveal_strlit("longtext");
            reveal_strlit("date");
            reveal_strlit("time");
            reveal_strlit("datetime");
            reveal_strlit("timestamp");
            reveal_strlit("int");
            reveal_strlit("bigint");
            reveal_strlit("tinyint");
            reveal_strlit("smallint");
            reveal_strlit("mediumint");
            reveal_strlit("float");
            reveal_strlit("double");
            reveal_strlit("decimal");
        }
        if str_eq(t, "char") || str_eq(t, "varchar") || str_eq(t, "text") || str_eq(t, "tinytext")
            || str_eq(t, "mediumtext") || str_eq(t, "longtext") || str_eq(t, "date") || str_eq(
            t,
            "time",
        ) || str_eq(t, "datetime") || str_eq(t, "timestamp") {
            return Ok(FieldValue::Text(String::from_str(s)));
        }
        let bounds: Option<(i64, i64)> = if str_eq(t, "int") || str_eq(t, "bigint") {
            Some((i64::MIN, i64::MAX))
        } else if str_eq(t, "tinyint") {
            Some((-128, 127))
        } else if str_eq(t, "smallint") {
            Some((-32768, 32767))
        } else if str_eq(t, "mediumint") {
            Some((-2147483648, 2147483647))
        } else {
            None
        };
        match bounds {
            Some((lo, hi)) => {
                return match parse_int(s, lo, hi) {
                    Some(v) => Ok(FieldValue::Integer(v)),
                    None => Err(
                        Error::CommonError {
                            info: field_message(
                                self.name.as_str(),
                                s,
                                "] convert to ",
                                t,
                                " failed",
                            ),
                        },
                    ),
                };
            },
            None => {},
        }
        if str_eq(t, "float") {
            Ok(FieldValue::Real { text: String::from_str(s), single: true })
        } else if str_eq(t, "double") || str_eq(t, "decimal") {
            Ok(FieldValue::Real { text: String::from_str(s), single: false })
        } else {
            Err(
                Error::CommonError {
                    info: field_message(
                        self.name.as_str(),
                        s,
                        "] convert to undefined ",
                        t,
                        " error",
                    ),
                },
            )
        }
    }
}

/// Types the texts of a cached row (as the cache gives them, in the order
/// of the fields read) by the requested fields, or by all the table's
/// fields when none are requested.  On the first text that a field refuses,
/// gives the fields typed before it and that field's error.
pub fn typed_row(requested: &Vec<Field>, all: &Vec<Field>, texts: &Vec<String>) -> (r: Result<
    Vec<(String, FieldValue)>,
    (Vec<(String, FieldValue)>, Error),
>)
    requires
        texts@.len() <= chosen_fields(requested@, all@).len(),
    ensures
        r matches Ok(v) ==> (v@.len() == texts@.len() && typed_prefix(
            chosen_fields(requested@, all@),
            texts@,
            v@,
        )),
        r matches Err((v, e)) ==> (v@.len() < texts@.len() && typed_prefix(
            chosen_fields(requested@, all@),
            texts@,
            v@,
        ) && field_failure(chosen_fields(requested@, all@)[v@.len() as int], texts@[v@.len() as int]@)
            is Some && common_info(e) == field_failure(
            chosen_fields(requested@, all@)[v@.len() as int],
            texts@[v@.len() as int]@,
        )),
{
    let fields = if requested.len() > 0 {
        requested
    } else {
        all
    };
    let ghost fs = chosen_fields(requested@, all@);
    let mut typed: Vec<(String, FieldValue)> = Vec::new();
    let mut i: usize = 0;
    while i < texts.len()
        invariant
            fields@ == fs,
            fs == chosen_fields(requested@, all@),
            texts@.len() <= fs.len(),
            i <= texts.len(),
            typed@.len() == i,
            typed_prefix(fs, texts@, typed@),
        decreases texts.len() - i,
    {
        let f = &fields[i];
        let t = texts[i].as_str();
        assert(*f == fs[i as int]);
        assert(t@ == texts@[i as int]@);
        let got = f.get_value(t);
        match got {
            Ok(v) => {
                let ghost before = typed@;
                typed.push((f.name.clone(), v));
                assert(typed_entry(fs[i as int], texts@[i as int], typed@[i as int]));
                assert forall|j: int| 0 <= j < typed@.len() implies #[trigger] typed_entry(
                    fs[j],
                    texts@[j],
                    typed@[j],
                ) by {
                    if j < i {
                        assert(typed@[j] == before[j]);
                        assert(typed_entry(fs[j], texts@[j], before[j]));
                    }
                }
            },
            Err(e) => {
                return Err((typed, e));
            },
        }
        i = i + 1;
    }
    Ok(typed)
}

/// Appends `piece` to `s`.
fn with(s: String, piece: &str) -> (r: String)
    ensures
        r@ == s@ + piece@,
{
    let mut s = s;
    s.append(piece);
    s
}

impl Table {
    pub closed spec fn db(&self) -> Seq<char> {
        self.db@
    }

    pub closed spec fn model(&self) -> Seq<char> {
        self.model@
    }

    pub closed spec fn pks(&self) -> Seq<Seq<char>> {
        views(self.pks@)
    }

    pub closed spec fn fields(&self) -> Seq<(Seq<char>, Seq<char>)> {
        field_views(self.fields@)
    }

    /// The table described by the schema rows: every row is a field, and the
    /// rows whose column key is `PRI` give the primary key, in order.
    pub fn new(db: String, model: String, ts: Vec<TableSchema>) -> (t: Table)
        ensures
            t.db() == db@,
            t.model() == model@,
            t.pks() == primary_keys(ts@),
            t.pks() == ts@.filter(|c: TableSchema| c.column_key@ == "PRI"@).map_values(
                |c: TableSchema| c.column_name@,
            ),
            t.fields() == schema_fields(ts@),
    {
        proof { lemma_primary_keys_are_pri_rows(ts@); }
        let mut pks: Vec<String> = Vec::new();
        let mut fields: Vec<Field> = Vec::new();
        let mut i: usize = 0;
        proof { reveal_strlit("PRI"); }
        while i < ts.len()
            invariant
                i <= ts.len(),
                views(pks@) == primary_keys(ts@.take(i as int)),
                field_views(fields@) == schema_fields(ts@.take(i as int)),
            decreases ts.len() - i,
        {
            let f = &ts[i];
            assert(ts@.take(i as int + 1).drop_last() =~= ts@.take(i as int));
            if str_eq(f.column_key.as_str(), "PRI") {
                pks.push(f.column_name.clone());
                assert(views(pks@) =~= primary_keys(ts@.take(i as int)).push(f.column_name@));
            }
            fields.push(Field { name: f.column_name.clone(), tpe: f.data_type.clone() });
            assert(ts@.take(i as int + 1) =~= ts@.take(i as int).push(ts@[i as int]));
            assert(schema_fields(ts@.take(i as int + 1)) =~= schema_fields(ts@.take(i as int)).push(
                (ts@[i as int].column_name@, ts@[i as int].data_type@),
            ));
            assert(field_views(fields@) =~= schema_fields(ts@.take(i as int + 1)));
            i = i + 1;
        }
        assert(ts@.take(ts.len() as int) =~= ts@);
        Table { db, model, pks, fields }
    }

    /// The table with the given parts.
    pub fn default(db: String, model: String, pks: Vec<String>, fields: Vec<Field>) -> (t: Table)
        ensures
            t.db() == db@,
            t.model() == model@,
            t.pks() == views(pks@),
            t.fields() == field_views(fields@),
    {
        Table { db, model, pks, fields }
    }

    /// The key of the set of the database's tables: `db:metadata:set`.
    pub fn get_db_set_key(&self) -> (r: String)
        ensures
            r@ == db_set_key(self.db()),
    {
        let r = with(with(with(with(self.db.clone(), ":"), "metadata"), ":"), "set");
        r
    }

    fn table_key_string(&self, kind: &str) -> (r: String)
        ensures
            r@ == table_key(self.db(), self.model(), kind@),
    {
        with(
            with(with(with(with(with(self.db.clone(), ":"), self.model.as_str()), ":"), "metadata"), ":"),
            kind,
        )
    }

    /// The key of the table's schema: `db:model:metadata:scheme`.
    pub fn get_table_schema_key(&self) -> (r: String)
        ensures
            r@ == table_key(self.db(), self.model(), "scheme"@),
    {
        self.table_key_string("scheme")
    }

    /// The key of the table's primary key: `db:model:metadata:pk`.
    pub fn get_table_pk_key(&self) -> (r: String)
        ensures
            r@ == table_key(self.db(), self.model(), "pk"@),
    {
        self.table_key_string("pk")
    }

    /// The key of the set of the table's cached rows: `db:model:metadata:set`.
    pub fn get_table_set_key(&self) -> (r: String)
        ensures
            r@ == table_key(self.db(), self.model(), "set"@),
    {
        self.table_key_string("set")
    }

    /// The key of the table's access times: `db:model:metadata:timer`.
    pub fn get_table_timer_key(&self) -> (r: String)
        ensures
            r@ == table_key(self.db(), self.model(), "timer"@),
    {
        self.table_key_string("timer")
    }

    /// The key of the table's access counts: `db:model:metadata:counter`.
    pub fn get_table_counter_key(&self) -> (r: String)
        ensures
            r@ == table_key(self.db(), self.model(), "counter"@),
    {
        self.table_key_string("counter")
    }

    pub fn get_db(&self) -> (r: String)
        ensures
            r@ == self.db(),
    {
        self.db.clone()
    }

    pub fn get_model(&self) -> (r: String)
        ensures
            r@ == self.model(),
    {
        self.model.clone()
    }

    pub fn get_pks(&self) -> (r: &Vec<String>)
        ensures
            views(r@) == self.pks(),
    {
        &self.pks
    }

    pub fn get_fields(&self) -> (r: &Vec<Field>)
        ensures
            field_views(r@) == self.fields(),
    {
        &self.fields
    }

    /// The cache key of a row, from the row's text values:
    /// `db:model:pk1,pk2,...:v1,v2,...`, with the empty text for a primary
    /// key that the row lacks.
    pub fn get_model_key(&self, row: &Vec<(String, String)>) -> (r: String)
        ensures
            r@ == model_key(self.db(), self.model(), self.pks(), row@),
    {
        let mut values: Vec<String> = Vec::new();
        let mut i: usize = 0;
        while i < self.pks.len()
            invariant
                i <= self.pks.len(),
                values@.len() == i,
                forall|j: int| 0 <= j < i ==> #[trigger] values@[j]@ == row_value(row@, self.pks@[j]@),
            decreases self.pks.len() - i,
        {
            let v = row_lookup(row, self.pks[i].as_str());
            values.push(v);
            i = i + 1;
        }
        assert(views(values@) =~= self.pks().map_values(|p: Seq<char>| row_value(row@, p)));
        let r = with(with(with(with(self.db.clone(), ":"), self.model.as_str()), ":"), join_strings(&self.pks, ",").as_str());
        with(with(r, ":"), join_strings(&values, ",").as_str())
    }

    /// The cache key of the row whose primary key values, in the order of
    /// the primary keys, are `values`.
    pub fn values_key(&self, values: &Vec<String>) -> (r: String)
        ensures
            r@ == key_of_values(self.db(), self.model(), self.pks(), views(values@)),
    {
        let r = with(with(with(with(self.db.clone(), ":"), self.model.as_str()), ":"), join_strings(&self.pks, ",").as_str());
        with(with(r, ":"), join_strings(values, ",").as_str())
    }

    /// The script that registers the table's schema in the cache: it adds
    /// the table to the database's set of tables and stores each field's
    /// type in the hash of the table's schema.
    pub fn schema_script(&self) -> (s: LuaScript)
        requires
            self.fields().len() + 2 <= i32::MAX,
        ensures
            s.wf(),
            s.keys() == seq![db_set_key(self.db())] + self.fields().map_values(
                |f: (Seq<char>, Seq<char>)| f.0,
            ),
            s.args() == seq![encode_utf8(self.model())] + self.fields().map_values(
                |f: (Seq<char>, Seq<char>)| encode_utf8(f.1),
            ),
            s.statements() == prelude_statements().push(sadd_statement(1, 1, 1)).push(
                hmset_statement(
                    table_key(self.db(), self.model(), "scheme"@),
                    2,
                    2,
                    self.fields().len(),
                ),
            ).push(hmset_count_statement()),
    {
        let mut script = LuaScript::new();
        let mut member: Vec<Vec<u8>> = Vec::new();
        member.push(self.model.as_str().as_bytes_vec());
        script.sadd(self.get_db_set_key(), member);
        let mut fv: Vec<(String, Vec<u8>)> = Vec::new();
        let mut i: usize = 0;
        while i < self.fields.len()
            invariant
                i <= self.fields.len(),
                fv@.len() == i,
                forall|j: int| 0 <= j < i ==> #[trigger] fv@[j].0@ == self.fields@[j].name@,
                forall|j: int| 0 <= j < i ==> #[trigger] fv@[j].1@ == encode_utf8(self.fields@[j].tpe@),
            decreases self.fields.len() - i,
        {
            let f = &self.fields[i];
            fv.push((f.name.clone(), f.tpe.as_str().as_bytes_vec()));
            i = i + 1;
        }
        assert(pair_keys(fv@) =~= self.fields().map_values(|f: (Seq<char>, Seq<char>)| f.0));
        assert(pair_values(fv@) =~= self.fields().map_values(
            |f: (Seq<char>, Seq<char>)| encode_utf8(f.1),
        ));
        script.hmset(self.get_table_schema_key(), fv);
        script
    }
}

/// The value of `key` in the row, or the empty text.
fn row_lookup(row: &Vec<(String, String)>, key: &str) -> (r: String)
    ensures
        r@ == row_value(row@, key@),
{
    let mut i: usize = 0;
    assert(row@.skip(0) =~= row@);
    while i < row.len()
        invariant
            i <= row.len(),
            row_value(row@, key@) == row_value(row@.skip(i as int), key@),
        decreases row.len() - i,
    {
        assert(row@.skip(i as int).drop_first() =~= row@.skip(i as int + 1));
        if str_eq(row[i].0.as_str(), key) {
            return row[i].1.clone();
        }
        i = i + 1;
    }
    String::new()
}

} // verus!
