//! SQL values, their literals, and the text pieces of conditions.
use vstd::prelude::*;
use vstd::string::StrSliceExecFns;
use crate::json::{Json, JsonNumber};
use crate::text::{decimal, int_decimal};

verus! {

/// A value bound to a statement parameter: the text of a JSON string, a
/// signed or unsigned integer, or a double given by its decimal text.
#[derive(Clone, Debug, PartialEq)]
pub enum SqlValue {
    Text(String),
    Int(i64),
    UInt(u64),
    /// A double, by the text that Rust's `Display` writes for it.
    Double(String),
}

/// `v` is the parameter value that a JSON value converts to: a string
/// becomes text, a float a double, an integer a signed integer when it fits
/// one and an unsigned one otherwise.  Nothing else converts.
pub open spec fn sql_value_of(v: SqlValue, j: Json) -> bool {
    match j {
        Json::String(s) => v matches SqlValue::Text(t) && t@ == s@,
        Json::Number(JsonNumber::Float(t)) => v matches SqlValue::Double(d) && d@ == t@,
        Json::Number(JsonNumber::PosInt(u)) => if u <= i64::MAX {
            v == SqlValue::Int(u as i64)
        } else {
            v == SqlValue::UInt(u)
        },
        Json::Number(JsonNumber::NegInt(i)) => v == SqlValue::Int(i),
        _ => false,
    }
}

/// Whether a JSON value converts to a parameter value.
pub open spec fn convertible(j: Json) -> bool {
    j is String || j is Number
}

/// Converts a JSON string or number to a parameter value.
pub fn conv_value(j: &Json) -> (r: Option<SqlValue>)
    ensures
        r is Some <==> convertible(*j),
        r matches Some(v) ==> sql_value_of(v, *j),
{
    match j {
        Json::String(s) => Some(SqlValue::Text(s.clone())),
        Json::Number(JsonNumber::Float(t)) => Some(SqlValue::Double(t.clone())),
        Json::Number(JsonNumber::PosInt(u)) => if *u <= 9223372036854775807u64 {
            Some(SqlValue::Int(*u as i64))
        } else {
            Some(SqlValue::UInt(*u))
        },
        Json::Number(JsonNumber::NegInt(i)) => Some(SqlValue::Int(*i)),
        _ => None,
    }
}

/// A text with each single quote doubled.
pub open spec fn quote_doubled(s: Seq<char>) -> Seq<char>
    decreases s.len(),
{
    if s.len() == 0 {
        Seq::empty()
    } else {
        quote_doubled(s.drop_last()) + if s.last() == '\'' {
            seq!['\'', '\'']
        } else {
            seq![s.last()]
        }
    }
}

/// The SQL literal of a value with backslash escapes off: text in single
/// quotes with its quotes doubled, integers in decimal, doubles by their
/// text.
pub open spec fn sql_literal(v: SqlValue) -> Seq<char> {
    match v {
        SqlValue::Text(s) => seq!['\''] + quote_doubled(s@) + seq!['\''],
        SqlValue::Int(i) => int_decimal(i as int),
        SqlValue::UInt(u) => decimal(u as nat),
        SqlValue::Double(t) => t@,
    }
}

/// The literal of a JSON value, when it converts.
pub open spec fn json_literal(j: Json) -> Option<Seq<char>> {
    match j {
        Json::String(s) => Some(seq!['\''] + quote_doubled(s@) + seq!['\'']),
        Json::Number(JsonNumber::Float(t)) => Some(t@),
        Json::Number(JsonNumber::PosInt(u)) => Some(decimal(u as nat)),
        Json::Number(JsonNumber::NegInt(i)) => Some(int_decimal(i as int)),
        _ => None,
    }
}

/// Doubling quotes works character by character: a quote becomes two
/// quotes, any other character stays, and the text of two joined pieces is
/// the joined texts of the pieces.
pub proof fn lemma_quote_doubling(a: Seq<char>, b: Seq<char>, c: char)
    ensures
        quote_doubled(Seq::empty()) == Seq::<char>::empty(),
        quote_doubled(seq!['\'']) == seq!['\'', '\''],
        c != '\'' ==> quote_doubled(seq![c]) == seq![c],
        quote_doubled(a + b) == quote_doubled(a) + quote_doubled(b),
    decreases b.len(),
{
    assert(seq!['\''].drop_last() =~= Seq::<char>::empty());
    assert(seq![c].drop_last() =~= Seq::<char>::empty());
    assert(quote_doubled(Seq::<char>::empty()) == Seq::<char>::empty());
    assert(seq!['\''].last() == '\'');
    assert(seq![c].last() == c);
    assert(quote_doubled(seq!['\'']) =~= seq!['\'', '\'']);
    if b.len() == 0 {
        assert(a + b =~= a);
        assert(quote_doubled(a) + quote_doubled(b) =~= quote_doubled(a));
    } else {
        lemma_quote_doubling(a, b.drop_last(), c);
        assert((a + b).drop_last() =~= a + b.drop_last());
        assert((a + b).last() == b.last());
    }
}

/// What a JSON value is written as in SQL: a string in single quotes with
/// its quotes doubled, an integer in decimal (with `-` when negative), a
/// float by its text; `null`, booleans, arrays and objects have no literal.
pub proof fn lemma_json_literals(j: Json)
    ensures
        j matches Json::String(s) ==> json_literal(j) == Some(seq!['\''] + quote_doubled(s@) + seq!['\'']),
        j matches Json::Number(JsonNumber::PosInt(u)) ==> json_literal(j) == Some(decimal(u as nat)),
        j matches Json::Number(JsonNumber::NegInt(i)) ==> json_literal(j) == Some(int_decimal(i as int)),
        j matches Json::Number(JsonNumber::Float(t)) ==> json_literal(j) == Some(t@),
        (j is Null || j is Bool || j is Array || j is Object) ==> json_literal(j) is None,
        convertible(j) <==> (j is String || j is Number),
{
}

pub proof fn lemma_literal_of_converted(v: SqlValue, j: Json)
    requires
        sql_value_of(v, j),
    ensures
        json_literal(j) == Some(sql_literal(v)),
{
}

/// Calls `mysql::Value::as_sql(true)` on the bytes of a text or on an
/// integer.  Trusted: for bytes that are UTF-8 text `as_sql` puts the text
/// in single quotes and doubles each single quote in it; for `Int` and
/// `UInt` it writes the integer with `{}`.
#[verifier::external_body]
fn mysql_literal(v: &SqlValue) -> (r: String)
    requires
        !(v is Double),
    ensures
        v matches SqlValue::Text(s) ==> r@ == seq!['\''] + quote_doubled(s@) + seq!['\''],
        v matches SqlValue::Int(i) ==> r@ == int_decimal(i as int),
        v matches SqlValue::UInt(u) ==> r@ == decimal(u as nat),
{
    let value = match v {
        SqlValue::Text(s) => mysql::Value::Bytes(s.as_bytes().to_vec()),
        SqlValue::Int(i) => mysql::Value::Int(*i),
        SqlValue::UInt(u) => mysql::Value::UInt(*u),
        SqlValue::Double(_) => mysql::Value::NULL,
    };
    value.as_sql(true)
}

/// The SQL literal of a value, as `mysql::Value::as_sql(true)` writes it;
/// a double is written by its text, which is what `as_sql` writes for the
/// double it denotes.
pub fn sql_literal_text(v: &SqlValue) -> (r: String)
    ensures
        r@ == sql_literal(*v),
{
    match v {
        SqlValue::Double(t) => t.clone(),
        _ => mysql_literal(v),
    }
}

/// The lowercase form of a text, as `str::to_lowercase` gives it.
pub uninterp spec fn lowercase(s: Seq<char>) -> Seq<char>;

/// Calls `str::to_lowercase`.  Trusted: the result is the named lowercase
/// form of the text.
#[verifier::external_body]
pub fn to_lowercase(s: &str) -> (r: String)
    ensures
        r@ == lowercase(s@),
{
    s.to_lowercase()
}

/// Whether `__` starts at position `i`.
pub open spec fn sep_at(s: Seq<char>, i: int) -> bool {
    0 <= i && i + 1 < s.len() && s[i] == '_' && s[i + 1] == '_'
}

/// The position of the first `__` at or after `from`, or the length of the
/// text when there is none.
pub open spec fn first_sep(s: Seq<char>, from: int) -> int
    decreases s.len() - from,
{
    if from < 0 || from + 1 >= s.len() {
        s.len() as int
    } else if sep_at(s, from) {
        from
    } else {
        first_sep(s, from + 1)
    }
}

pub proof fn lemma_first_sep_bounds(s: Seq<char>, from: int)
    requires
        0 <= from,
    ensures
        from <= first_sep(s, from) || first_sep(s, from) == s.len(),
        first_sep(s, from) <= s.len(),
        first_sep(s, from) < s.len() ==> first_sep(s, from) + 2 <= s.len(),
    decreases s.len() - from,
{
    if from + 1 < s.len() && !sep_at(s, from) {
        lemma_first_sep_bounds(s, from + 1);
    }
}

proof fn lemma_first_sep_none(s: Seq<char>, from: int)
    requires
        0 <= from,
        forall|i: int| #![trigger s[i]] from <= i < s.len() - 1 ==> !(s[i] == '_' && s[i + 1] == '_'),
    ensures
        first_sep(s, from) == s.len(),
    decreases s.len() - from,
{
    if from + 1 < s.len() {
        lemma_first_sep_none(s, from + 1);
    }
}

proof fn lemma_first_sep_found(s: Seq<char>, from: int, p: int)
    requires
        0 <= from <= p,
        p + 1 < s.len(),
        s[p] == '_' && s[p + 1] == '_',
        forall|i: int| #![trigger s[i]] from <= i < p ==> !(s[i] == '_' && s[i + 1] == '_'),
    ensures
        first_sep(s, from) == p,
    decreases p - from,
{
    if from < p {
        lemma_first_sep_found(s, from + 1, p);
    }
}

/// The separator of a condition key is the first occurrence of the two
/// characters `__`: when there is one, `first_sep` is its position and no
/// `__` starts before it; when there is none, `first_sep` is the length.
/// A single `_` is no separator.
pub proof fn lemma_first_sep_is_double_underscore(s: Seq<char>, from: int)
    requires
        0 <= from <= s.len(),
    ensures
        from <= first_sep(s, from) <= s.len(),
        first_sep(s, from) < s.len() ==> s[first_sep(s, from)] == '_' && s[first_sep(s, from) + 1]
            == '_',
        forall|i: int| #![trigger s[i]] from <= i < first_sep(s, from) && i + 1 < s.len() ==> !(s[i] == '_' && s[i + 1]
            == '_'),
    decreases s.len() - from,
{
    if from + 1 < s.len() {
        lemma_first_sep_is_double_underscore(s, from + 1);
    }
}

/// In a key `c__op` whose column `c` holds no `__` and does not end with
/// `_` (single underscores are fine), the first `__` is the one after `c`;
/// when `op` holds no `_`, no `__` follows it.
pub proof fn lemma_key_separator(c: Seq<char>, op: Seq<char>)
    requires
        forall|i: int| #![trigger c[i]] 0 <= i < c.len() - 1 ==> !(c[i] == '_' && c[i + 1] == '_'),
        c.len() > 0 ==> c.last() != '_',
        forall|i: int| #![trigger op[i]] 0 <= i < op.len() ==> op[i] != '_',
    ensures
        first_sep(c + seq!['_', '_'] + op, 0) == c.len(),
        first_sep(c + seq!['_', '_'] + op, c.len() + 2int) == c.len() + 2 + op.len(),
{
    let k = c + seq!['_', '_'] + op;
    assert(k.len() == c.len() + 2 + op.len());
    assert forall|i: int| #![trigger k[i]] 0 <= i < c.len() implies !(k[i] == '_' && k[i + 1] == '_') by {
        assert(k[i] == c[i]);
        if i + 1 < c.len() {
            assert(k[i + 1] == c[i + 1]);
        } else {
            assert(c.last() == c[i]);
        }
    }
    assert(k[c.len() as int] == '_' && k[c.len() + 1int] == '_');
    lemma_first_sep_found(k, 0, c.len() as int);
    assert forall|i: int| #![trigger k[i]] c.len() + 2 <= i < k.len() - 1 implies !(k[i] == '_' && k[i + 1] == '_') by {
        assert(k[i] == op[i - c.len() - 2]);
    }
    lemma_first_sep_none(k, c.len() + 2int);
}

/// Finds the first `__` at or after `from`.
pub fn find_sep(s: &str, from: usize) -> (r: usize)
    ensures
        r == first_sep(s@, from as int),
{
    let n = s.unicode_len();
    if from >= n {
        return n;
    }
    let mut i = from;
    while i + 1 < n
        invariant
            n == s@.len(),
            from <= i < n,
            first_sep(s@, from as int) == first_sep(s@, i as int),
        decreases n - i,
    {
        if s.get_char(i) == '_' && s.get_char(i + 1) == '_' {
            return i;
        }
        i = i + 1;
    }
    n
}

} // verus!
