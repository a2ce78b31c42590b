//! JSON values and their texts. Values are those of `serde_json`; what is said
//! of a value is said of its compact text.

use serde_json::Value;
use vstd::prelude::*;

use crate::text::{decimal, decimal_injective, digit};

verus! {

/// `serde_json::Value`, any JSON value.
#[verifier::external_type_specification]
#[verifier::external_body]
pub struct ExValue(serde_json::Value);

/// The compact JSON text of a value: no white space, object members in the
/// order of the map. Two values with the same text are the same value.
pub uninterp spec fn json_text(v: Value) -> Seq<char>;

/// What parsing a JSON text gives: the compact text of the value, or the
/// message of the parse error.
pub uninterp spec fn json_parsed(text: Seq<char>) -> Result<Seq<char>, Seq<char>>;

/// The text of the member `key` of the value with the given compact text;
/// there is none if the value is no object or has no such member.
pub uninterp spec fn json_member(text: Seq<char>, key: Seq<char>) -> Option<Seq<char>>;

/// A hexadecimal digit in lower case.
pub open spec fn hex_digit(d: nat) -> char {
    if d < 10 {
        digit(d)
    } else {
        (87 + d) as char
    }
}

/// A character inside a JSON string.
pub open spec fn escape(c: char) -> Seq<char> {
    let n = c as nat;
    if c == '"' {
        seq!['\\', '"']
    } else if c == '\\' {
        seq!['\\', '\\']
    } else if n == 8 {
        seq!['\\', 'b']
    } else if n == 9 {
        seq!['\\', 't']
    } else if n == 10 {
        seq!['\\', 'n']
    } else if n == 12 {
        seq!['\\', 'f']
    } else if n == 13 {
        seq!['\\', 'r']
    } else if n < 32 {
        seq!['\\', 'u', '0', '0', hex_digit(n / 16), hex_digit(n % 16)]
    } else {
        seq![c]
    }
}

/// A string inside its JSON quotes.
pub open spec fn escaped(s: Seq<char>) -> Seq<char>
    decreases s.len(),
{
    if s.len() == 0 {
        Seq::empty()
    } else {
        escape(s[0]) + escaped(s.drop_first())
    }
}

/// The JSON text of a string.
pub open spec fn quote(s: Seq<char>) -> Seq<char> {
    seq!['"'] + escaped(s) + seq!['"']
}

/// The JSON text of an integer.
pub open spec fn integer(n: int) -> Seq<char> {
    if n < 0 {
        seq!['-'] + decimal((-n) as nat)
    } else {
        decimal(n as nat)
    }
}

/// Texts separated by commas.
pub open spec fn commas(parts: Seq<Seq<char>>) -> Seq<char>
    decreases parts.len(),
{
    if parts.len() == 0 {
        Seq::empty()
    } else if parts.len() == 1 {
        parts[0]
    } else {
        commas(parts.drop_last()) + seq![','] + parts.last()
    }
}

/// The JSON text of an array with the given elements.
pub open spec fn array_text(items: Seq<Seq<char>>) -> Seq<char> {
    seq!['['] + commas(items) + seq![']']
}

/// The JSON text of an object with the given members.
pub open spec fn object_text(members: Seq<(Seq<char>, Seq<char>)>) -> Seq<char> {
    seq!['{'] + commas(
        members.map_values(|m: (Seq<char>, Seq<char>)| quote(m.0) + seq![':'] + m.1),
    ) + seq!['}']
}

/// `serde_json::from_str`: parses one JSON text. The error is turned into its
/// message.
#[verifier::external_body]
pub(crate) fn parse(text: &str) -> (r: Result<Value, String>)
    ensures
        match r {
            Ok(v) => json_parsed(text@) == Ok::<Seq<char>, Seq<char>>(json_text(v)),
            Err(e) => json_parsed(text@) == Err::<Seq<char>, Seq<char>>(e@),
        },
{
    serde_json::from_str(text).map_err(|e: serde_json::Error| e.to_string())
}

/// `serde_json::to_string`: the compact text of a value, which has no line
/// break: nothing is written between tokens, and in a string a line break is
/// escaped. Writing a `Value` to memory does not fail: its keys are strings and
/// its numbers are finite.
#[verifier::external_body]
pub(crate) fn to_text(v: &Value) -> (r: String)
    ensures
        r@ == json_text(*v),
        !r@.contains('\n'),
{
    serde_json::to_string(v).unwrap_or_default()
}

/// `Value::get` with a string: the member of that name.
#[verifier::external_body]
pub(crate) fn member<'a>(v: &'a Value, key: &str) -> (r: Option<&'a Value>)
    ensures
        match r {
            Some(m) => json_member(json_text(*v), key@) == Some(json_text(*m)),
            None => json_member(json_text(*v), key@) is None,
        },
{
    v.get(key)
}

/// `Value::clone`: the same value once more.
#[verifier::external_body]
pub(crate) fn copy_value(v: &Value) -> (r: Value)
    ensures
        json_text(r) == json_text(*v),
{
    v.clone()
}

/// `Value::as_str`: the characters of a string, and nothing for any other
/// value.
#[verifier::external_body]
fn value_as_str(v: &Value) -> (r: Option<&str>)
    ensures
        match r {
            Some(s) => json_text(*v) == quote(s@),
            None => forall|s: Seq<char>| json_text(*v) != #[trigger] quote(s),
        },
{
    v.as_str()
}

/// `Value::as_u64`: the number, if the value is an integer that fits, and
/// nothing for any other value.
#[verifier::external_body]
fn value_as_u64(v: &Value) -> (r: Option<u64>)
    ensures
        match r {
            Some(n) => json_text(*v) == decimal(n as nat),
            None => forall|n: u64| json_text(*v) != #[trigger] decimal(n as nat),
        },
{
    v.as_u64()
}

/// `Value::Null`: the value whose text is `null`.
#[verifier::external_body]
pub(crate) fn null_value() -> (r: Value)
    ensures
        json_text(r) == "null"@,
{
    Value::Null
}

/// `Value::from` a `bool`.
#[verifier::external_body]
pub(crate) fn bool_value(b: bool) -> (r: Value)
    ensures
        json_text(r) == if b {
            "true"@
        } else {
            "false"@
        },
{
    Value::from(b)
}

/// `Value::from` a `u64`: its text is the decimal numeral.
#[verifier::external_body]
pub(crate) fn u64_value(n: u64) -> (r: Value)
    ensures
        json_text(r) == integer(n as int),
{
    Value::from(n)
}

/// `Value::from` an `i64`: its text is the decimal numeral, with a minus sign
/// if it is negative.
#[verifier::external_body]
pub(crate) fn i64_value(n: i64) -> (r: Value)
    ensures
        json_text(r) == integer(n as int),
{
    Value::from(n)
}

/// `Value::from` a `&str`: its text is the string in quotes, with quotes,
/// backslashes and control characters escaped.
#[verifier::external_body]
pub(crate) fn str_value(s: &str) -> (r: Value)
    ensures
        json_text(r) == quote(s@),
{
    Value::from(s)
}

/// `Value::from` a `Vec<Value>`: an array of these elements.
#[verifier::external_body]
pub(crate) fn array_value(items: Vec<Value>) -> (r: Value)
    ensures
        json_text(r) == array_text(items@.map_values(|v: Value| json_text(v))),
{
    Value::from(items)
}

/// The members as texts.
pub open spec fn member_texts(members: Seq<(&'static str, Value)>) -> Seq<(Seq<char>, Seq<char>)> {
    members.map_values(|m: (&'static str, Value)| (m.0@, json_text(m.1)))
}

/// `Value::from_iter` over members: an object of these members. An object
/// keeps its members sorted by name; the names given begin with ascending
/// characters, so that this is the order in which they are given.
#[verifier::external_body]
pub(crate) fn object_value(members: Vec<(&'static str, Value)>) -> (r: Value)
    requires
        forall|i: int| 0 <= i < members.len() ==> (#[trigger] members[i]).0@.len() > 0,
        forall|i: int, j: int|
            0 <= i < j < members.len() ==> (#[trigger] members[i]).0@[0] < (
            #[trigger] members[j]).0@[0],
    ensures
        json_text(r) == object_text(member_texts(members@)),
{
    Value::from_iter(members)
}

/// The string that a JSON text stands for, if it stands for one.
pub open spec fn string_of(text: Seq<char>) -> Option<Seq<char>> {
    if exists|s: Seq<char>| text == #[trigger] quote(s) {
        Some(choose|s: Seq<char>| text == #[trigger] quote(s))
    } else {
        None
    }
}

/// The number that a JSON text stands for, if it stands for one in range.
pub open spec fn u64_of(text: Seq<char>) -> Option<u64> {
    if exists|n: u64| text == #[trigger] decimal(n as nat) {
        Some(choose|n: u64| text == #[trigger] decimal(n as nat))
    } else {
        None
    }
}

/// The string that a value is.
pub(crate) fn as_string(v: &Value) -> (r: Option<String>)
    ensures
        match r {
            Some(s) => string_of(json_text(*v)) == Some(s@),
            None => string_of(json_text(*v)) is None,
        },
{
    match value_as_str(v) {
        Some(s) => {
            proof {
                let t = string_of(json_text(*v))->0;
                assert(json_text(*v) == quote(s@));
                quote_injective(s@, t);
            }
            Some(s.to_owned())
        },
        None => None,
    }
}

/// The unsigned integer that a value is.
pub(crate) fn as_u64(v: &Value) -> (r: Option<u64>)
    ensures
        r == u64_of(json_text(*v)),
{
    let r = value_as_u64(v);
    proof {
        if let Some(n) = r {
            let m = u64_of(json_text(*v))->0;
            assert(json_text(*v) == decimal(n as nat));
            decimal_injective(n as nat, m as nat);
        }
    }
    r
}

/// Strings with the same JSON text are the same.
pub proof fn quote_injective(a: Seq<char>, b: Seq<char>)
    requires
        quote(a) == quote(b),
    ensures
        a == b,
{
    let qa = quote(a);
    let qb = quote(b);
    assert(qa.subrange(1, qa.len() - 1) =~= escaped(a));
    assert(qb.subrange(1, qb.len() - 1) =~= escaped(b));
    escaped_injective(a, b);
}

proof fn lemma_hex_digit(d: nat)
    requires
        d < 16,
    ensures
        hex_digit(d) as nat == if d < 10 {
            48 + d
        } else {
            87 + d
        },
{
}

/// The first escaped character can be told from a text.
proof fn escape_prefix_free(ca: char, ra: Seq<char>, cb: char, rb: Seq<char>)
    requires
        escape(ca) + ra == escape(cb) + rb,
    ensures
        ca == cb,
        ra == rb,
{
    let na: nat = ca as nat;
    let nb: nat = cb as nat;
    let ea = escape(ca);
    let eb = escape(cb);
    let s = ea + ra;
    assert(s[0] == ea[0] && s[0] == eb[0]);
    if ea.len() >= 2 {
        assert(s[1] == ea[1]);
    }
    if eb.len() >= 2 {
        assert(s[1] == eb[1]);
    }
    if ea.len() == 6 && eb.len() == 6 {
        assert(s[4] == ea[4] && s[4] == eb[4]);
        assert(s[5] == ea[5] && s[5] == eb[5]);
        lemma_hex_digit(na / 16);
        lemma_hex_digit(na % 16);
        lemma_hex_digit(nb / 16);
        lemma_hex_digit(nb % 16);
        assert(na / 16 == nb / 16 && na % 16 == nb % 16);
        assert(na == nb);
    }
    assert(na == nb);
    assert(ra =~= s.skip(ea.len() as int));
    assert(rb =~= s.skip(eb.len() as int));
}

proof fn escaped_injective(a: Seq<char>, b: Seq<char>)
    requires
        escaped(a) == escaped(b),
    ensures
        a == b,
    decreases a.len(),
{
    if a.len() == 0 {
        if b.len() > 0 {
            assert(escaped(b).len() >= 1);
        }
        assert(a =~= b);
    } else if b.len() == 0 {
        assert(escaped(a).len() >= 1);
    } else {
        escape_prefix_free(a[0], escaped(a.drop_first()), b[0], escaped(b.drop_first()));
        escaped_injective(a.drop_first(), b.drop_first());
        assert(a =~= seq![a[0]] + a.drop_first());
        assert(b =~= seq![b[0]] + b.drop_first());
    }
}

} // verus!
