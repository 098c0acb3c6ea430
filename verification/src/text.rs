//! Text building blocks shared by the key, script and SQL builders:
//! decimal rendering of integers, joining with a separator, and the
//! digest of a script text.
use vstd::prelude::*;
use vstd::string::StringExecFns;
use vstd::string::StrSliceExecFns;

verus! {

/// The character of a decimal digit.
pub open spec fn digit_char(d: nat) -> char {
    (d + 48) as char
}

/// The decimal rendering of a natural number, without sign or leading zeros.
pub open spec fn decimal(n: nat) -> Seq<char>
    decreases n,
{
    if n < 10 {
        seq![digit_char(n)]
    } else {
        decimal(n / 10) + seq![digit_char(n % 10)]
    }
}

/// The decimal rendering of an integer, with a leading `-` when negative.
pub open spec fn int_decimal(i: int) -> Seq<char> {
    if i < 0 {
        seq!['-'] + decimal((-i) as nat)
    } else {
        decimal(i as nat)
    }
}

/// The parts joined with `sep` between each two neighbours.
pub open spec fn joined(parts: Seq<Seq<char>>, sep: Seq<char>) -> Seq<char>
    decreases parts.len(),
{
    if parts.len() == 0 {
        Seq::empty()
    } else if parts.len() == 1 {
        parts[0]
    } else {
        joined(parts.drop_last(), sep) + sep + parts.last()
    }
}

/// The views of a list of strings.
pub open spec fn views(list: Seq<String>) -> Seq<Seq<char>> {
    list.map_values(|s: String| s@)
}

pub proof fn lemma_joined_push(parts: Seq<Seq<char>>, x: Seq<char>, sep: Seq<char>)
    ensures
        joined(parts.push(x), sep) == if parts.len() == 0 {
            x
        } else {
            joined(parts, sep) + sep + x
        },
{
    assert(parts.push(x).drop_last() =~= parts);
}

/// The string of one decimal digit.
fn digit_str(d: u64) -> (s: &'static str)
    requires
        d < 10,
    ensures
        s@ == seq![digit_char(d as nat)],
{
    if d == 0 {
        proof { reveal_strlit("0"); }
        "0"
    } else if d == 1 {
        proof { reveal_strlit("1"); }
        "1"
    } else if d == 2 {
        proof { reveal_strlit("2"); }
        "2"
    } else if d == 3 {
        proof { reveal_strlit("3"); }
        "3"
    } else if d == 4 {
        proof { reveal_strlit("4"); }
        "4"
    } else if d == 5 {
        proof { reveal_strlit("5"); }
        "5"
    } else if d == 6 {
        proof { reveal_strlit("6"); }
        "6"
    } else if d == 7 {
        proof { reveal_strlit("7"); }
        "7"
    } else if d == 8 {
        proof { reveal_strlit("8"); }
        "8"
    } else {
        proof { reveal_strlit("9"); }
        "9"
    }
}

/// Appends the decimal rendering of `n`.
pub fn push_decimal(s: &mut String, n: u64)
    ensures
        final(s)@ == old(s)@ + decimal(n as nat),
    decreases n,
{
    if n >= 10 {
        push_decimal(s, n / 10);
    }
    s.append(digit_str(n % 10));
}

/// Appends the decimal rendering of a signed integer.
pub fn push_int_decimal(s: &mut String, i: i64)
    ensures
        final(s)@ == old(s)@ + int_decimal(i as int),
{
    if i < 0 {
        proof { reveal_strlit("-"); }
        s.append("-");
        let magnitude: u64 = if i == i64::MIN {
            9223372036854775808u64
        } else {
            (-i) as u64
        };
        push_decimal(s, magnitude);
    } else {
        push_decimal(s, i as u64);
    }
}

/// Joins the strings with `sep` between each two neighbours.
pub fn join_strings(list: &Vec<String>, sep: &str) -> (res: String)
    ensures
        res@ == joined(views(list@), sep@),
{
    let mut res = String::new();
    let mut i: usize = 0;
    while i < list.len()
        invariant
            i <= list.len(),
            res@ == joined(views(list@.take(i as int)), sep@),
        decreases list.len() - i,
    {
        proof {
            lemma_joined_push(views(list@.take(i as int)), list@[i as int]@, sep@);
            assert(views(list@.take(i as int + 1)) =~= views(list@.take(i as int)).push(
                list@[i as int]@,
            ));
        }
        if i > 0 {
            res.append(sep);
        }
        res.append(list[i].as_str());
        i = i + 1;
    }
    assert(list@.take(list.len() as int) =~= list@);
    res
}

/// The views of a list of string slices.
pub open spec fn str_views(list: Seq<&str>) -> Seq<Seq<char>> {
    list.map_values(|s: &str| s@)
}

/// Joins the string slices with `sep` between each two neighbours.
pub fn join_strs(list: &Vec<&str>, sep: &str) -> (res: String)
    ensures
        res@ == joined(str_views(list@), sep@),
{
    let mut res = String::new();
    let mut i: usize = 0;
    while i < list.len()
        invariant
            i <= list.len(),
            res@ == joined(str_views(list@.take(i as int)), sep@),
        decreases list.len() - i,
    {
        proof {
            lemma_joined_push(str_views(list@.take(i as int)), list@[i as int]@, sep@);
            assert(str_views(list@.take(i as int + 1)) =~= str_views(list@.take(i as int)).push(
                list@[i as int]@,
            ));
        }
        if i > 0 {
            res.append(sep);
        }
        res.append(list[i]);
        i = i + 1;
    }
    assert(list@.take(list.len() as int) =~= list@);
    res
}

/// Whether two strings hold the same characters.
pub fn str_eq(a: &str, b: &str) -> (r: bool)
    ensures
        r == (a@ == b@),
{
    let n = a.unicode_len();
    let m = b.unicode_len();
    if n != m {
        return false;
    }
    let mut i: usize = 0;
    while i < n
        invariant
            n == a@.len(),
            m == b@.len(),
            n == m,
            i <= n,
            a@.take(i as int) =~= b@.take(i as int),
        decreases n - i,
    {
        if a.get_char(i) != b.get_char(i) {
            assert(a@[i as int] != b@[i as int]);
            return false;
        }
        assert(a@.take(i as int + 1) =~= a@.take(i as int).push(a@[i as int]));
        assert(b@.take(i as int + 1) =~= b@.take(i as int).push(b@[i as int]));
        i = i + 1;
    }
    assert(a@ =~= a@.take(n as int));
    assert(b@ =~= b@.take(n as int));
    true
}

/// Whether a character is an ASCII decimal digit.
pub open spec fn is_digit(c: char) -> bool {
    '0' <= c && c <= '9'
}

/// The value of a sequence of decimal digits (0 for the empty sequence).
pub open spec fn digits_value(s: Seq<char>) -> nat
    decreases s.len(),
{
    if s.len() == 0 {
        0
    } else {
        (digits_value(s.drop_last()) * 10 + (s.last() as int - 48)) as nat
    }
}

pub open spec fn all_digits(s: Seq<char>) -> bool {
    forall|i: int| 0 <= i < s.len() ==> #[trigger] is_digit(s[i])
}

/// The integer that a text denotes in the syntax of Rust's integer
/// `FromStr`: an optional `+` or `-`, then one or more decimal digits.
pub open spec fn int_literal(s: Seq<char>) -> Option<int> {
    if s.len() > 0 && (s[0] == '-' || s[0] == '+') {
        let body = s.skip(1);
        if body.len() > 0 && all_digits(body) {
            Some(
                if s[0] == '-' {
                    -(digits_value(body) as int)
                } else {
                    digits_value(body) as int
                },
            )
        } else {
            None
        }
    } else if s.len() > 0 && all_digits(s) {
        Some(digits_value(s) as int)
    } else {
        None
    }
}

/// What parsing a text as an integer between `min` and `max` gives.
pub open spec fn parsed_in_range(s: Seq<char>, min: int, max: int) -> Option<int> {
    match int_literal(s) {
        Some(v) => if min <= v && v <= max {
            Some(v)
        } else {
            None
        },
        None => None,
    }
}

proof fn lemma_digits_value_push(s: Seq<char>, c: char)
    requires
        is_digit(c),
    ensures
        digits_value(s.push(c)) == digits_value(s) * 10 + (c as int - 48),
{
    assert(s.push(c).drop_last() =~= s);
}

proof fn lemma_decimal_digits(n: nat)
    ensures
        decimal(n).len() > 0,
        all_digits(decimal(n)),
        digits_value(decimal(n)) == n,
    decreases n,
{
    if n >= 10 {
        lemma_decimal_digits(n / 10);
        let c = digit_char(n % 10);
        assert(decimal(n) == decimal(n / 10).push(c));
        lemma_digits_value_push(decimal(n / 10), c);
        assert(c as int == n % 10 + 48);
        assert(n == (n / 10) * 10 + n % 10);
    } else {
        assert(decimal(n) =~= seq![digit_char(n)]);
        assert(decimal(n).drop_last() =~= Seq::<char>::empty());
        assert(digit_char(n) as int == n + 48);
        assert(digits_value(Seq::<char>::empty()) == 0);
    }
}

/// Reading an integer back from its decimal rendering gives the integer:
/// `-` followed by the digits for a negative one, the digits alone or with a
/// leading `+` for any other.
pub proof fn lemma_int_literal_reads_decimal(n: int)
    ensures
        int_literal(int_decimal(n)) == Some(n),
        n >= 0 ==> int_literal(seq!['+'] + decimal(n as nat)) == Some(n),
{
    if n < 0 {
        lemma_decimal_digits((-n) as nat);
        assert((seq!['-'] + decimal((-n) as nat)).skip(1) =~= decimal((-n) as nat));
    } else {
        lemma_decimal_digits(n as nat);
        assert(is_digit(decimal(n as nat)[0]));
        assert((seq!['+'] + decimal(n as nat)).skip(1) =~= decimal(n as nat));
    }
}

/// A text is no integer when it is empty, when it is a sign alone, or when
/// one of its characters is neither a decimal digit nor a sign at the
/// start.
pub proof fn lemma_int_literal_rejects(s: Seq<char>, i: int)
    ensures
        s.len() == 0 ==> int_literal(s) is None,
        s == seq!['+'] || s == seq!['-'] ==> int_literal(s) is None,
        0 <= i < s.len() && !('0' <= s[i] && s[i] <= '9') && !(i == 0 && (s[i] == '+' || s[i] == '-'))
            ==> int_literal(s) is None,
{
    if 0 <= i < s.len() {
        assert(!('0' <= s[i] && s[i] <= '9') ==> !is_digit(s[i]));
    }
    if s.len() > 0 && (s[0] == '-' || s[0] == '+') && 0 < i < s.len() {
        assert(s.skip(1)[i - 1] == s[i]);
        assert(!('0' <= s[i] && s[i] <= '9') ==> !is_digit(s.skip(1)[i - 1]));
    }
    if s == seq!['+'] || s == seq!['-'] {
        assert(s.skip(1).len() == 0);
    }
}

/// Parses the digits of `s` from `start` on; `None` when one of them is not
/// a digit or there is none, and a value above 2^63 when the value exceeds
/// that bound (the exact value is then of no use to any caller).
fn digits_from(s: &str, start: usize) -> (r: Option<u128>)
    requires
        start <= s@.len(),
    ensures
        r is Some <==> (s@.skip(start as int).len() > 0 && all_digits(s@.skip(start as int))),
        r matches Some(v) ==> (if digits_value(s@.skip(start as int)) <= 9223372036854775808 {
            v == digits_value(s@.skip(start as int))
        } else {
            v > 9223372036854775808
        }),
{
    let n = s.unicode_len();
    if start >= n {
        return None;
    }
    let mut acc: u128 = 0;
    let mut big = false;
    let mut i: usize = start;
    while i < n
        invariant
            n == s@.len(),
            start <= i <= n,
            all_digits(s@.subrange(start as int, i as int)),
            !big ==> acc == digits_value(s@.subrange(start as int, i as int)),
            !big ==> acc <= 9223372036854775808,
            big ==> digits_value(s@.subrange(start as int, i as int)) > 9223372036854775808,
        decreases n - i,
    {
        let c = s.get_char(i);
        if !('0' <= c && c <= '9') {
            assert(!is_digit(s@.skip(start as int)[i - start]));
            return None;
        }
        let d = (c as u32 - 48) as u128;
        proof {
            lemma_digits_value_push(s@.subrange(start as int, i as int), c);
            assert(s@.subrange(start as int, i as int + 1) =~= s@.subrange(start as int, i as int).push(c));
        }
        if !big {
            acc = acc * 10 + d;
            if acc > 9223372036854775808 {
                big = true;
            }
        }
        i = i + 1;
    }
    assert(s@.subrange(start as int, n as int) =~= s@.skip(start as int));
    if big {
        Some(9223372036854775809)
    } else {
        Some(acc)
    }
}

/// Parses `s` as an integer between `min` and `max`, as Rust's `FromStr`
/// for an integer type with those bounds does.
pub fn parse_int(s: &str, min: i64, max: i64) -> (r: Option<i64>)
    requires
        min <= 0 <= max,
    ensures
        r == (match parsed_in_range(s@, min as int, max as int) {
            Some(v) => Some(v as i64),
            None => None::<i64>,
        }),
{
    let n = s.unicode_len();
    if n == 0 {
        return None;
    }
    let c0 = s.get_char(0);
    if c0 == '-' || c0 == '+' {
        match digits_from(s, 1) {
            None => None,
            Some(v) => {
                if c0 == '-' {
                    if v <= (0i128 - min as i128) as u128 {
                        Some((0i128 - v as i128) as i64)
                    } else {
                        None
                    }
                } else {
                    if v <= max as u128 {
                        Some(v as i64)
                    } else {
                        None
                    }
                }
            },
        }
    } else {
        let r = digits_from(s, 0);
        assert(s@.skip(0) =~= s@);
        match r {
            None => None,
            Some(v) => {
                if v <= max as u128 {
                    Some(v as i64)
                } else {
                    None
                }
            },
        }
    }
}

} // verus!
