use vstd::prelude::*;

verus! {

/// serde_json's value type, which the parse and write wrappers below go
/// through; opaque here.
#[verifier::external_type_specification]
#[verifier::external_body]
pub struct ExValue(serde_json::Value);

/// A JSON value as the envelope logic reads it.
///
/// A number is held as the text serde_json prints for it, so `1` and `1.0`
/// stay distinct and an id is echoed in the form it was received.
#[derive(Debug)]
pub enum Json {
    Null,
    Bool(bool),
    Number(String),
    Str(String),
    Array(Vec<Json>),
    Object(Vec<(String, Json)>),
}

/// What serde_json parses `b` to, if `b` is one JSON text.
pub uninterp spec fn parsed_json(b: Seq<u8>) -> Option<Json>;

/// The JSON text serde_json writes for `j`.
pub uninterp spec fn json_text(j: Json) -> Seq<char>;

/// The value of `key` in an object's fields; a later entry overrides an earlier one.
pub open spec fn field_of(fields: Seq<(String, Json)>, key: Seq<char>) -> Option<Json>
    decreases fields.len(),
{
    if fields.len() == 0 {
        None
    } else if fields.last().0@ == key {
        Some(fields.last().1)
    } else {
        field_of(fields.drop_last(), key)
    }
}

/// The character of a decimal digit.
pub open spec fn digit_char(d: int) -> char {
    if d == 0 { '0' }
    else if d == 1 { '1' }
    else if d == 2 { '2' }
    else if d == 3 { '3' }
    else if d == 4 { '4' }
    else if d == 5 { '5' }
    else if d == 6 { '6' }
    else if d == 7 { '7' }
    else if d == 8 { '8' }
    else { '9' }
}

/// Decimal digits of a natural number, without leading zeros.
pub open spec fn nat_text(n: nat) -> Seq<char>
    decreases n,
{
    if n < 10 {
        seq![digit_char(n as int)]
    } else {
        nat_text(n / 10).push(digit_char((n % 10) as int))
    }
}

/// Decimal text of an integer, with a leading `-` when it is negative.
pub open spec fn int_text(n: int) -> Seq<char> {
    if n < 0 {
        seq!['-'] + nat_text((-n) as nat)
    } else {
        nat_text(n as nat)
    }
}

pub open spec fn is_digit(c: char) -> bool {
    '0' <= c && c <= '9'
}

pub open spec fn digit_value(c: char) -> int {
    (c as u32) as int - ('0' as u32) as int
}

pub open spec fn all_digits(s: Seq<char>) -> bool {
    &&& s.len() > 0
    &&& forall|i: int| 0 <= i < s.len() ==> is_digit(#[trigger] s[i])
}

pub open spec fn digits_value(s: Seq<char>) -> int
    decreases s.len(),
{
    if s.len() == 0 {
        0
    } else {
        digits_value(s.drop_last()) * 10 + digit_value(s.last())
    }
}

/// The integer that `s` writes in decimal, with an optional sign.
pub open spec fn signed_value(s: Seq<char>) -> Option<int> {
    if s.len() > 0 && s[0] == '-' && all_digits(s.drop_first()) {
        Some(-digits_value(s.drop_first()))
    } else if s.len() > 0 && s[0] == '+' && all_digits(s.drop_first()) {
        Some(digits_value(s.drop_first()))
    } else if all_digits(s) {
        Some(digits_value(s))
    } else {
        None
    }
}

/// Decimal digits never write a negative number.
pub proof fn lemma_digits_nonneg(s: Seq<char>)
    requires
        forall|i: int| 0 <= i < s.len() ==> is_digit(#[trigger] s[i]),
    ensures
        digits_value(s) >= 0,
    decreases s.len(),
{
    if s.len() > 0 {
        assert(is_digit(s[s.len() - 1]));
        lemma_digits_nonneg(s.drop_last());
    }
}

/// What `unsigned_value` reads is never negative.
pub proof fn lemma_unsigned_nonneg(s: Seq<char>)
    ensures
        unsigned_value(s) matches Some(v) ==> v >= 0,
{
    if s.len() > 0 && s[0] == '+' && all_digits(s.drop_first()) {
        lemma_digits_nonneg(s.drop_first());
    } else if all_digits(s) {
        lemma_digits_nonneg(s);
    }
}

/// The decimal text of a natural number is digits that read back as it.
pub proof fn lemma_nat_text_reads_back(n: nat)
    ensures
        all_digits(nat_text(n)),
        digits_value(nat_text(n)) == n,
    decreases n,
{
    let d = (n % 10) as int;
    assert(digit_value(digit_char(d)) == d && is_digit(digit_char(d))) by {
        if d == 0 {} else if d == 1 {} else if d == 2 {} else if d == 3 {} else if d == 4 {}
        else if d == 5 {} else if d == 6 {} else if d == 7 {} else if d == 8 {} else {}
    }
    if n >= 10 {
        lemma_nat_text_reads_back(n / 10);
        let s = nat_text(n / 10);
        assert(nat_text(n).drop_last() =~= s);
        assert(nat_text(n).last() == digit_char(d));
        assert(digits_value(nat_text(n)) == digits_value(s) * 10 + d);
        assert((n / 10) * 10 + d == n);
        assert forall|i: int| 0 <= i < nat_text(n).len() implies is_digit(#[trigger] nat_text(n)[i]) by {
            if i < s.len() {
                assert(nat_text(n)[i] == s[i]);
            }
        }
    } else {
        assert(nat_text(n).drop_last() =~= Seq::<char>::empty());
        assert(nat_text(n).last() == digit_char(d));
        assert(digits_value(nat_text(n)) == digits_value(Seq::<char>::empty()) * 10 + d);
    }
}

/// The decimal text of an integer reads back as it.
pub proof fn lemma_int_text_reads_back(n: int)
    ensures
        signed_value(int_text(n)) == Some(n),
{
    if n < 0 {
        let m = (-n) as nat;
        lemma_nat_text_reads_back(m);
        assert((seq!['-'] + nat_text(m)).drop_first() =~= nat_text(m));
    } else {
        lemma_nat_text_reads_back(n as nat);
        assert(is_digit(nat_text(n as nat)[0]));
    }
}

/// The natural number that `s` writes in decimal, with an optional `+`.
pub open spec fn unsigned_value(s: Seq<char>) -> Option<int> {
    if s.len() > 0 && s[0] == '+' && all_digits(s.drop_first()) {
        Some(digits_value(s.drop_first()))
    } else if all_digits(s) {
        Some(digits_value(s))
    } else {
        None
    }
}

/// Converts a serde_json value to the model, node for node: relies on
/// `serde_json::Map::into_iter` for an object's entries and on the `Display`
/// impl of `serde_json::Number` for a number's text. Claims nothing.
#[verifier::external_body]
fn json_of_value(v: serde_json::Value) -> Json {
    match v {
        serde_json::Value::Null => Json::Null,
        serde_json::Value::Bool(b) => Json::Bool(b),
        serde_json::Value::Number(n) => Json::Number(n.to_string()),
        serde_json::Value::String(s) => Json::Str(s),
        serde_json::Value::Array(a) => Json::Array(a.into_iter().map(json_of_value).collect()),
        serde_json::Value::Object(m) => Json::Object(
            m.into_iter().map(|(k, x)| (k, json_of_value(x))).collect(),
        ),
    }
}

/// Converts the model back to a serde_json value, node for node: relies on
/// `FromIterator` of `serde_json::Map` for an object and on the `FromStr` impl
/// of `serde_json::Number` for a number, whose text becomes null where it does
/// not read as one. Claims nothing.
#[verifier::external_body]
fn value_of_json(j: &Json) -> serde_json::Value {
    match j {
        Json::Null => serde_json::Value::Null,
        Json::Bool(b) => serde_json::Value::Bool(*b),
        Json::Number(t) => t.parse::<serde_json::Number>().map_or(serde_json::Value::Null, serde_json::Value::Number),
        Json::Str(s) => serde_json::Value::String(s.clone()),
        Json::Array(a) => serde_json::Value::Array(a.iter().map(value_of_json).collect()),
        Json::Object(f) => serde_json::Value::Object(
            f.iter().map(|(k, x)| (k.clone(), value_of_json(x))).collect(),
        ),
    }
}

/// Relies on serde_json::from_slice into a serde_json::Value: the outcome
/// depends on the bytes alone, and is `None` where they are not one JSON text.
#[verifier::external_body]
fn parse_value(b: &[u8]) -> (r: Option<Json>)
    ensures
        r == parsed_json(b@),
{
    serde_json::from_slice::<serde_json::Value>(b).ok().map(json_of_value)
}

/// Relies on serde_json::to_string of a serde_json::Value: the text depends
/// on the value alone.
#[verifier::external_body]
fn write_value(j: &Json) -> (r: String)
    ensures
        r@ == json_text(*j),
{
    serde_json::to_string(&value_of_json(j)).unwrap_or_default()
}

/// Relies on the `Display` impl of `i32` (std): plain decimal digits, with
/// `-` before a negative number.
#[verifier::external_body]
fn i32_text(n: i32) -> (r: String)
    ensures
        r@ == int_text(n as int),
{
    n.to_string()
}

/// Relies on `str::parse::<i32>` (std): an optional sign and one or more
/// decimal digits whose value fits in `i32`, and nothing else.
#[verifier::external_body]
fn parse_i32(s: &str) -> (r: Option<i32>)
    ensures
        r == (match signed_value(s@) {
            Some(v) => if i32::MIN <= v <= i32::MAX { Some(v as i32) } else { None },
            None => None,
        }),
{
    s.parse::<i32>().ok()
}

/// Relies on the `Display` impl of `u64` (std): plain decimal digits.
#[verifier::external_body]
fn u64_text(n: u64) -> (r: String)
    ensures
        r@ == nat_text(n as nat),
{
    n.to_string()
}

/// Relies on `str::parse::<u64>` (std): an optional `+` and one or more
/// decimal digits whose value fits in `u64`, and nothing else.
#[verifier::external_body]
fn parse_u64(s: &str) -> (r: Option<u64>)
    ensures
        r == (match unsigned_value(s@) {
            Some(v) => if v <= u64::MAX { Some(v as u64) } else { None },
            None => None,
        }),
{
    s.parse::<u64>().ok()
}

impl Json {
    /// The number whose text is the decimal form of `n`.
    pub fn from_u64(n: u64) -> (r: Json)
        ensures
            r matches Json::Number(t) && t@ == nat_text(n as nat),
    {
        Json::Number(u64_text(n))
    }

    /// The value of this number as a `u64`, where it is one.
    pub fn as_u64(&self) -> (r: Option<u64>)
        ensures
            r == (match *self {
                Json::Number(t) => match unsigned_value(t@) {
                    Some(v) => if v <= u64::MAX { Some(v as u64) } else { None },
                    None => None,
                },
                _ => None,
            }),
            r matches Some(n) ==> unsigned_value(self->Number_0@) == Some(n as int),
    {
        match self {
            Json::Number(t) => {
                proof {
                    lemma_unsigned_nonneg(t@);
                }
                parse_u64(t.as_str())
            },
            _ => None,
        }
    }

    /// Parses one JSON text.
    pub fn parse(b: &[u8]) -> (r: Option<Json>)
        ensures
            r == parsed_json(b@),
    {
        parse_value(b)
    }

    /// The JSON text of this value.
    pub fn to_text(&self) -> (r: String)
        ensures
            r@ == json_text(*self),
    {
        write_value(self)
    }

    /// The number whose text is the decimal form of `n`.
    pub fn from_i32(n: i32) -> (r: Json)
        ensures
            r matches Json::Number(t) && t@ == int_text(n as int),
    {
        Json::Number(i32_text(n))
    }

    /// The value of this number as an `i32`, where it is one.
    pub fn as_i32(&self) -> (r: Option<i32>)
        ensures
            r == (match *self {
                Json::Number(t) => match signed_value(t@) {
                    Some(v) => if i32::MIN <= v <= i32::MAX { Some(v as i32) } else { None },
                    None => None,
                },
                _ => None,
            }),
    {
        match self {
            Json::Number(t) => parse_i32(t.as_str()),
            _ => None,
        }
    }
}

/// Looking a key up in `e` followed by `s`: an entry of `s` wins over `e`.
pub proof fn lemma_field_of_front(e: (String, Json), s: Seq<(String, Json)>, key: Seq<char>)
    ensures
        field_of(seq![e] + s, key) == (if field_of(s, key).is_some() {
            field_of(s, key)
        } else if e.0@ == key {
            Some(e.1)
        } else {
            None
        }),
    decreases s.len(),
{
    if s.len() == 0 {
        assert((seq![e] + s).drop_last() =~= Seq::<(String, Json)>::empty());
        assert((seq![e] + s).last() == e);
    } else {
        assert((seq![e] + s).last() == s.last());
        assert((seq![e] + s).drop_last() =~= seq![e] + s.drop_last());
        lemma_field_of_front(e, s.drop_last(), key);
    }
}

/// Where all keys differ, a key gives the value of its one entry, and a key
/// with no entry gives nothing.
pub proof fn lemma_field_of_distinct(f: Seq<(String, Json)>, key: Seq<char>)
    requires
        forall|a: int, b: int| 0 <= a < b < f.len() ==> f[a].0@ != f[b].0@,
    ensures
        (forall|i: int| 0 <= i < f.len() ==> f[i].0@ != key) ==> field_of(f, key) is None,
        forall|i: int| 0 <= i < f.len() && f[i].0@ == key ==> field_of(f, key) == Some(f[i].1),
    decreases f.len(),
{
    if f.len() > 0 {
        let g = f.drop_last();
        lemma_field_of_distinct(g, key);
        assert forall|i: int| 0 <= i < g.len() implies g[i] == f[i] by {}
    }
}

/// Takes an object's fields apart: the value of each key of `keys`, the last
/// entry of a key winning, as `field_of` states.
pub fn take_fields(fields: Vec<(String, Json)>, keys: &Vec<String>) -> (r: Vec<Option<Json>>)
    requires
        forall|a: int, b: int| 0 <= a < b < keys@.len() ==> keys@[a]@ != keys@[b]@,
    ensures
        r@.len() == keys@.len(),
        forall|a: int| 0 <= a < keys@.len() ==> r@[a] == field_of(fields@, keys@[a]@),
{
    let ghost full = fields@;
    let mut rest = fields;
    let mut r: Vec<Option<Json>> = Vec::new();
    let mut a: usize = 0;
    while a < keys.len()
        invariant
            a <= keys@.len(),
            r@.len() == a,
            forall|b: int| 0 <= b < a ==> r@[b] is None,
        decreases keys@.len() - a,
    {
        r.push(None);
        a = a + 1;
    }
    assert(full.subrange(full.len() as int, full.len() as int) =~= Seq::<(String, Json)>::empty());
    assert(rest@ =~= full.subrange(0, full.len() as int));
    while rest.len() > 0
        invariant
            r@.len() == keys@.len(),
            rest@.len() <= full.len(),
            rest@ == full.subrange(0, rest@.len() as int),
            forall|a: int, b: int| 0 <= a < b < keys@.len() ==> keys@[a]@ != keys@[b]@,
            forall|b: int|
                0 <= b < keys@.len() ==> r@[b] == field_of(
                    full.subrange(rest@.len() as int, full.len() as int),
                    keys@[b]@,
                ),
        decreases rest@.len(),
    {
        let ghost i = rest@.len() as int;
        let entry = rest.pop().unwrap();
        proof {
            assert(full.subrange(i - 1, full.len() as int) =~= seq![entry] + full.subrange(i, full.len() as int));
            assert(rest@ =~= full.subrange(0, i - 1));
            assert forall|k: Seq<char>| true implies field_of(seq![entry] + full.subrange(i, full.len() as int), k)
                == (if field_of(full.subrange(i, full.len() as int), k).is_some() {
                    field_of(full.subrange(i, full.len() as int), k)
                } else if entry.0@ == k {
                    Some(entry.1)
                } else {
                    None
                }) by {
                lemma_field_of_front(entry, full.subrange(i, full.len() as int), k);
            }
        }
        let (k, v) = entry;
        let mut found: Option<usize> = None;
        let mut b: usize = 0;
        while b < keys.len()
            invariant
                b <= keys@.len(),
                found matches Some(j) ==> j < b && keys@[j as int]@ == k@,
                found is None ==> forall|c: int| 0 <= c < b ==> keys@[c]@ != k@,
            decreases keys@.len() - b,
        {
            if found.is_none() && keys[b] == k {
                found = Some(b);
            }
            b = b + 1;
        }
        if let Some(j) = found {
            if r[j].is_none() {
                r.set(j, Some(v));
            }
        }
        proof {
            assert forall|b: int| 0 <= b < keys@.len() implies r@[b] == field_of(
                full.subrange(i - 1, full.len() as int),
                keys@[b]@,
            ) by {
                lemma_field_of_front(entry, full.subrange(i, full.len() as int), keys@[b]@);
            }
        }
    }
    assert(full.subrange(0, full.len() as int) =~= full);
    r
}

} // verus!
