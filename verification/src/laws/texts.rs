//! What the texts say that scripts, users and clients see.

use vstd::prelude::*;

use crate::json::{commas, escaped, integer, quote, string_of, u64_of};
use crate::process::{
    joined, pid_line, spec_error_source, spec_render, ErrorClass, Pid, Printable,
};
use crate::text::{
    decimal, decimal_injective, is_white_space, opt_text, trim_end, trim_start,
};

verus! {

/// The number that a sequence of digits stands for.
pub open spec fn number(digits: Seq<char>) -> int
    decreases digits.len(),
{
    if digits.len() == 0 {
        0
    } else {
        number(digits.drop_last()) * 10 + (digits.last() as int - '0' as int)
    }
}

/// A numeral is made of digits, does not begin with a zero unless it is one, and
/// stands for its number.
pub proof fn numerals(n: nat)
    ensures
        number(decimal(n)) == n,
        decimal(n).len() >= 1,
        forall|i: int| 0 <= i < decimal(n).len() ==> '0' <= #[trigger] decimal(n)[i] <= '9',
        decimal(n).len() > 1 ==> decimal(n)[0] != '0',
    decreases n,
{
    reveal_with_fuel(number, 2);
    if n < 10 {
        assert(decimal(n).drop_last() =~= Seq::<char>::empty());
    } else {
        numerals(n / 10);
        assert(decimal(n).drop_last() =~= decimal(n / 10));
        if n / 10 < 10 {
            assert(decimal(n / 10) =~= seq![crate::text::digit(n / 10)]);
        }
        assert(decimal(n)[0] == decimal(n / 10)[0]);
    }
}

/// A negative number has a minus sign before the numeral of its size, any other
/// is just its numeral.
pub proof fn signed_numerals(n: nat)
    ensures
        integer(n as int) == decimal(n),
        n > 0 ==> integer(-(n as int)) == seq!['-'] + decimal(n),
{
}

/// A JSON text is read as the number whose numeral it is, and as no number if it
/// is the numeral of none; and likewise as the string that it quotes.
pub proof fn reading_back(text: Seq<char>, n: u64, s: Seq<char>)
    ensures
        u64_of(text) == Some(n) <==> text == decimal(n as nat),
        string_of(text) == Some(s) <==> text == quote(s),
        u64_of(text) is None <==> forall|m: u64| text != #[trigger] decimal(m as nat),
        string_of(text) is None <==> forall|t: Seq<char>| text != #[trigger] quote(t),
{
    if let Some(m) = u64_of(text) {
        if text == decimal(n as nat) {
            decimal_injective(m as nat, n as nat);
        }
    }
    if let Some(t) = string_of(text) {
        if text == quote(s) {
            crate::json::quote_injective(t, s);
        }
    }
}

/// A string without quotes, backslashes and control characters stands between
/// its quotes as it is.
pub proof fn plain_strings_are_quoted_as_they_are(s: Seq<char>)
    requires
        forall|i: int|
            0 <= i < s.len() ==> #[trigger] s[i] != '"' && s[i] != '\\' && s[i] as int >= 32,
    ensures
        quote(s) == seq!['"'] + s + seq!['"'],
    decreases s.len(),
{
    lemma_plain(s);
}

proof fn lemma_plain(s: Seq<char>)
    requires
        forall|i: int|
            0 <= i < s.len() ==> #[trigger] s[i] != '"' && s[i] != '\\' && s[i] as int >= 32,
    ensures
        escaped(s) == s,
    decreases s.len(),
{
    if s.len() > 0 {
        lemma_plain(s.drop_first());
        assert(s =~= seq![s[0]] + s.drop_first());
        assert(escaped(s) =~= s);
    } else {
        assert(escaped(s) =~= s);
    }
}

/// Texts are joined by one separator between any two of them: none for one
/// text, and one between the halves wherever the texts are cut in two.
pub proof fn joining(a: Seq<Seq<char>>, b: Seq<Seq<char>>, x: Seq<char>)
    ensures
        joined(Seq::<Seq<char>>::empty()) == Seq::<char>::empty(),
        commas(Seq::<Seq<char>>::empty()) == Seq::<char>::empty(),
        joined(seq![x]) == x,
        commas(seq![x]) == x,
        a.len() > 0 && b.len() > 0 ==> {
            &&& joined(a + b) == joined(a) + seq![' '] + joined(b)
            &&& commas(a + b) == commas(a) + seq![','] + commas(b)
        },
    decreases b.len(),
{
    reveal_strlit(" ");
    assert(" "@ =~= seq![' ']);
    if a.len() > 0 && b.len() > 0 {
        assert((a + b).drop_last() =~= a + b.drop_last());
        assert((a + b).last() == b.last());
        if b.len() == 1 {
            assert(a + b.drop_last() =~= a);
            assert(joined(b) == b[0]);
        } else {
            joining(a, b.drop_last(), x);
            assert(joined(a + b) =~= joined(a) + seq![' '] + joined(b));
            assert(commas(a + b) =~= commas(a) + seq![','] + commas(b));
        }
    }
}

/// A line of a process begins with its pid in brackets.
pub proof fn lines(pid: Pid, text: Seq<char>)
    ensures
        pid_line(pid, text) == seq!['[', 'p', 'i', 'd', ' '] + decimal(pid as nat) + seq![
            ']',
            ' ',
        ] + text,
{
    reveal_strlit("[pid ");
    reveal_strlit("] ");
    assert("[pid "@ =~= seq!['[', 'p', 'i', 'd', ' ']);
    assert("] "@ =~= seq![']', ' ']);
}

/// A string is printed as it is, a value that has a JSON text as that text, and
/// anything else as `undefined`.
pub proof fn printing(v: Printable)
    ensures
        match v {
            Printable::Text(s) => spec_render(v) == s@,
            Printable::Json(Some(json)) => spec_render(v) == json@,
            Printable::Json(None) => spec_render(v) == "undefined"@,
            Printable::Undefined => spec_render(v) == "undefined"@,
        },
{
}

/// An error is constructed by `new`, its class, and the message in parentheses.
pub proof fn constructing_errors(class: Seq<char>, literal: Option<Seq<char>>)
    ensures
        ({
            let message = match literal {
                Some(l) => l,
                None => seq!['"', 'e', 'r', 'r', 'o', 'r', '"'],
            };
            spec_error_source(class, literal) == seq!['n', 'e', 'w', ' '] + class + seq!['(']
                + message + seq![')']
        }),
        ErrorClass::TypeError.spec_as_str() == "TypeError"@,
        ErrorClass::PermissionError.spec_as_str() == "PermissionError"@,
{
    reveal_strlit("new ");
    reveal_strlit("(");
    reveal_strlit(")");
    reveal_strlit("\"error\"");
    assert("new "@ =~= seq!['n', 'e', 'w', ' ']);
    assert("("@ =~= seq!['(']);
    assert(")"@ =~= seq![')']);
    assert("\"error\""@ =~= seq!['"', 'e', 'r', 'r', 'o', 'r', '"']);
}

/// Trimming takes white space off both ends of a text, and all that is there.
pub proof fn trimming(s: Seq<char>)
    ensures
        ({
            let t = trim_end(trim_start(s));
            &&& exists|i: int, j: int|
                {
                    &&& 0 <= i <= j <= s.len()
                    &&& t == #[trigger] s.subrange(i, j)
                    &&& forall|k: int|
                        0 <= k < s.len() && (k < i || k >= j) ==> is_white_space(#[trigger] s[k])
                }
            &&& t.len() > 0 ==> !is_white_space(t[0]) && !is_white_space(t.last())
        }),
{
    let i = lemma_trim_start(s);
    let m = trim_start(s);
    let j = lemma_trim_end(m);
    let t = trim_end(m);
    assert(t =~= s.subrange(i, i + j));
    assert forall|k: int| 0 <= k < s.len() && (k < i || k >= i + j) implies is_white_space(
        #[trigger] s[k],
    ) by {
        if k >= i + j {
            assert(m[k - i] == s[k]);
        }
    }
    if t.len() > 0 {
        assert(t[0] == m[0]);
    }
}

proof fn lemma_trim_start(s: Seq<char>) -> (i: int)
    ensures
        0 <= i <= s.len(),
        trim_start(s) == s.subrange(i, s.len() as int),
        forall|k: int| 0 <= k < i ==> is_white_space(#[trigger] s[k]),
        trim_start(s).len() > 0 ==> !is_white_space(trim_start(s)[0]),
    decreases s.len(),
{
    if s.len() > 0 && is_white_space(s[0]) {
        let rest = s.drop_first();
        let i = lemma_trim_start(rest);
        assert(trim_start(s) =~= s.subrange(i + 1, s.len() as int));
        assert forall|k: int| 0 <= k < i + 1 implies is_white_space(#[trigger] s[k]) by {
            if k > 0 {
                assert(rest[k - 1] == s[k]);
            }
        }
        i + 1
    } else {
        assert(s =~= s.subrange(0, s.len() as int));
        0
    }
}

proof fn lemma_trim_end(s: Seq<char>) -> (j: int)
    ensures
        0 <= j <= s.len(),
        trim_end(s) == s.subrange(0, j),
        forall|k: int| j <= k < s.len() ==> is_white_space(#[trigger] s[k]),
        trim_end(s).len() > 0 ==> !is_white_space(trim_end(s).last()),
    decreases s.len(),
{
    if s.len() > 0 && is_white_space(s.last()) {
        let rest = s.drop_last();
        let j = lemma_trim_end(rest);
        assert(trim_end(s) =~= s.subrange(0, j));
        assert forall|k: int| j <= k < s.len() implies is_white_space(#[trigger] s[k]) by {
            if k < s.len() - 1 {
                assert(rest[k] == s[k]);
            }
        }
        j
    } else {
        assert(s =~= s.subrange(0, s.len() as int));
        s.len() as int
    }
}

/// An optional string has the text that it has, if it is there.
pub proof fn optional_texts(s: String)
    ensures
        opt_text(Some(s)) == Some(s@),
        opt_text(None) is None,
{
}

} // verus!
