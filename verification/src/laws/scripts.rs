//! What is asked of the script engine, in which order, and what is made of its
//! answers.

use rquickjs::{Ctx, Function, Value};
use vstd::prelude::*;

use crate::engine::{
    all_print, clears, clears_recv, defines_errors, describes_pending, fails, fails_at,
    is_description, is_given, is_literal, is_raised, is_unprintable, logs, message_payload, prints,
    prints_through, report_of, restrict_pid, sets, settles_recv, settles_with_nothing,
    spec_entry_hook, spec_error_class_source, starts, stash_sleep, stash_yield, stores_recv, took,
    took_nothing, wake, ENTRY, ERROR_DESCRIBER, RECV_REJECT, RECV_RESOLVE, SLEEP_RESOLVE,
    TIMEOUT_SOURCE, YIELD_RESOLVE,
};
use crate::laws::texts::{constructing_errors, lines};
use crate::process::{
    joined, pid_line, spec_error_source, spec_render, Pid, Printable, WakeKind,
};
use crate::scheduler::{Payload, SliceStart};
use crate::script::{
    begins, called, carries, catches, displayed, evaluates_to, evaluates_to_function, has_bool,
    has_pid, holds, is_exception, makes_text, pending, raises, reads_as, script_value, stores,
    stringifies, ScriptValue,
};
use crate::text::{decimal, opt_text};

verus! {

/// The functions that settle suspended calls are kept under names of their own,
/// and so is the promise of the entry script.
pub proof fn names()
    ensures
        RECV_RESOLVE@ == "__otter_recv_resolve"@,
        RECV_REJECT@ == "__otter_recv_reject"@,
        SLEEP_RESOLVE@ == "__otter_sleep_resolve"@,
        YIELD_RESOLVE@ == "__otter_yield_resolve"@,
        ENTRY@ == "__otter_entry"@,
        "__otter_recv_resolve"@ != "__otter_recv_reject"@,
        "__otter_recv_resolve"@ != "__otter_sleep_resolve"@,
        "__otter_recv_resolve"@ != "__otter_yield_resolve"@,
        "__otter_recv_reject"@ != "__otter_sleep_resolve"@,
        "__otter_recv_reject"@ != "__otter_yield_resolve"@,
        "__otter_sleep_resolve"@ != "__otter_yield_resolve"@,
{
    reveal_strlit("__otter_recv_resolve");
    reveal_strlit("__otter_recv_reject");
    reveal_strlit("__otter_sleep_resolve");
    reveal_strlit("__otter_yield_resolve");
    assert("__otter_recv_resolve"@[8] == 'r');
    assert("__otter_recv_reject"@[8] == 'r');
    assert("__otter_sleep_resolve"@[8] == 's');
    assert("__otter_yield_resolve"@[8] == 'y');
    assert("__otter_recv_resolve"@.len() == 20 && "__otter_recv_reject"@.len() == 19);
}

/// A script value is printed as `undefined` if it is that, as it is if it is a
/// string, and otherwise as the JSON text that the engine gives of it, or as
/// `undefined` if the engine gives none. Only a string that is no text, and a
/// value that the engine refuses to render, cannot be printed.
pub proof fn printing_values<'js>(
    before: Ctx<'js>,
    v: Value<'js>,
    p: Printable,
    e: rquickjs::Error,
    after: Ctx<'js>,
)
    ensures
        prints(before, v, p, after) ==> match script_value(v) {
            ScriptValue::Undefined => spec_render(p) == "undefined"@ && after == before,
            ScriptValue::Text(s) => spec_render(p) == s && after == before,
            ScriptValue::BrokenText => false,
            _ => exists|json: Option<Seq<char>>| #[trigger]
                stringifies(before, v, Ok(json), after) && spec_render(p) == match json {
                    Some(text) => text,
                    None => "undefined"@,
                },
        },
        is_unprintable(before, v, e, after) ==> match script_value(v) {
            ScriptValue::Undefined => false,
            ScriptValue::Text(_) => false,
            ScriptValue::BrokenText => after == before,
            _ => stringifies(before, v, Err(e), after),
        },
{
    if prints(before, v, p, after) {
        if let Printable::Json(json) = p {
            assert(stringifies(before, v, Ok(opt_text(json)), after));
        }
    }
}

/// A logged line begins with the pid of the process and holds the printed
/// arguments in order, separated by single spaces. The engine is asked for them
/// one after the other.
pub proof fn logging<'js>(
    before: Ctx<'js>,
    pid: Pid,
    args: Seq<Value<'js>>,
    line: Seq<char>,
    after: Ctx<'js>,
)
    requires
        logs(before, pid, args, line, after),
    ensures
        exists|states: Seq<Ctx<'js>>, parts: Seq<Printable>, texts: Seq<Seq<char>>|
            {
                &&& states.len() == args.len() + 1
                &&& states[0] == before
                &&& states.last() == after
                &&& parts.len() == args.len()
                &&& #[trigger] texts.len() == args.len()
                &&& #[trigger] prints_through(states, args, parts)
                &&& forall|i: int|
                    0 <= i < args.len() ==> {
                        &&& prints(states[i], #[trigger] args[i], parts[i], states[i + 1])
                        &&& texts[i] == spec_render(parts[i])
                    }
                &&& line == seq!['[', 'p', 'i', 'd', ' '] + decimal(pid as nat) + seq![
                    ']',
                    ' ',
                ] + joined(texts)
            },
{
    let parts = choose|parts: Seq<Printable>| #[trigger]
        all_print(before, args, parts, after) && line == pid_line(
            pid,
            joined(parts.map_values(|p: Printable| spec_render(p))),
        );
    let states = choose|states: Seq<Ctx<'js>>| #[trigger]
        prints_through(states, args, parts) && states[0] == before && states.last() == after;
    let texts = parts.map_values(|p: Printable| spec_render(p));
    lines(pid, joined(texts));
    assert(texts.len() == args.len());
    assert(prints_through(states, args, parts));
}

/// Strings are logged as they are, and without asking the engine anything.
pub proof fn logging_strings<'js>(
    before: Ctx<'js>,
    pid: Pid,
    args: Seq<Value<'js>>,
    texts: Seq<Seq<char>>,
    line: Seq<char>,
    after: Ctx<'js>,
)
    requires
        logs(before, pid, args, line, after),
        texts.len() == args.len(),
        forall|i: int|
            0 <= i < args.len() ==> script_value(#[trigger] args[i]) == ScriptValue::Text(texts[i]),
    ensures
        after == before,
        line == seq!['[', 'p', 'i', 'd', ' '] + decimal(pid as nat) + seq![']', ' '] + joined(
            texts,
        ),
{
    let parts = choose|parts: Seq<Printable>| #[trigger]
        all_print(before, args, parts, after) && line == pid_line(
            pid,
            joined(parts.map_values(|p: Printable| spec_render(p))),
        );
    let states = choose|states: Seq<Ctx<'js>>| #[trigger]
        prints_through(states, args, parts) && states[0] == before && states.last() == after;
    lemma_states_stay(states, args, parts, texts, args.len() as int);
    assert(parts.map_values(|p: Printable| spec_render(p)) =~= texts) by {
        assert forall|i: int| 0 <= i < args.len() implies spec_render(#[trigger] parts[i])
            == texts[i] by {
            assert(script_value(args[i]) == ScriptValue::Text(texts[i]));
        }
    }
    lines(pid, joined(texts));
}

proof fn lemma_states_stay<'js>(
    states: Seq<Ctx<'js>>,
    args: Seq<Value<'js>>,
    parts: Seq<Printable>,
    texts: Seq<Seq<char>>,
    k: int,
)
    requires
        prints_through(states, args, parts),
        0 <= k <= args.len(),
        texts.len() == args.len(),
        forall|i: int|
            0 <= i < args.len() ==> script_value(#[trigger] args[i]) == ScriptValue::Text(texts[i]),
    ensures
        states[k] == states[0],
    decreases k,
{
    if k > 0 {
        lemma_states_stay(states, args, parts, texts, k - 1);
        assert(script_value(args[k - 1]) == ScriptValue::Text(texts[k - 1]));
    }
}

/// Logging fails only at an argument that cannot be printed, after all that
/// stand before it could.
pub proof fn failing_to_log<'js>(
    before: Ctx<'js>,
    args: Seq<Value<'js>>,
    e: rquickjs::Error,
    after: Ctx<'js>,
)
    requires
        fails(before, args, e, after),
    ensures
        exists|i: int, mid: Ctx<'js>|
            {
                &&& 0 <= i < args.len()
                &&& !(script_value(args[i]) is Undefined) && !(script_value(args[i]) is Text)
                &&& #[trigger] is_unprintable(mid, args[i], e, after)
            },
{
    let i = choose|i: int| #[trigger] fails_at(before, args, i, e, after);
    let (parts, mid) = choose|parts: Seq<Printable>, mid: Ctx<'js>|
        {
            &&& #[trigger] all_print(before, args.take(i), parts, mid)
            &&& is_unprintable(mid, args[i], e, after)
        };
    assert(is_unprintable(mid, args[i], e, after));
}

/// A policy sets what the engine gives as its property `canSpawnAndKill` if it
/// is an object. Anything else, and a policy that is missing, sets nothing, and
/// the engine is not asked.
pub proof fn policies<'js>(
    before: Ctx<'js>,
    policy: Option<Value<'js>>,
    r: Result<Option<bool>, rquickjs::Error>,
    after: Ctx<'js>,
)
    requires
        sets(before, policy, r, after),
    ensures
        is_given(policy) <==> policy is Some && (script_value(policy->0) is Object || script_value(
            policy->0,
        ) is Function),
        is_given(policy) ==> has_bool(before, policy->0, "canSpawnAndKill"@, r, after),
        !is_given(policy) ==> r == Ok::<Option<bool>, rquickjs::Error>(None) && after == before,
{
}

/// An error is raised by evaluating `new Class(message)`, where the message is
/// the JSON text that the engine gives of it. What that evaluates to is thrown,
/// and is pending afterwards. If it cannot be evaluated, nothing is thrown, and
/// the error carries the message.
pub proof fn raising<'js>(
    before: Ctx<'js>,
    class: Seq<char>,
    msg: Seq<char>,
    e: rquickjs::Error,
    after: Ctx<'js>,
)
    requires
        is_raised(before, class, msg, e, after),
    ensures
        exists|
            literal: Option<Seq<char>>,
            c1: Ctx<'js>,
            source: Seq<char>,
            r: Result<Value<'js>, rquickjs::Error>,
            c2: Ctx<'js>,
        |
            {
                &&& #[trigger] is_literal(before, msg, literal, c1)
                &&& source == seq!['n', 'e', 'w', ' '] + class + seq!['('] + match literal {
                    Some(l) => l,
                    None => seq!['"', 'e', 'r', 'r', 'o', 'r', '"'],
                } + seq![')']
                &&& #[trigger] evaluates_to(c1, source, r, c2)
                &&& r is Ok ==> {
                    &&& pending(after) == Some(r->Ok_0)
                    &&& raises(c2, r->Ok_0, e, after)
                    &&& is_exception(e)
                }
                &&& r is Err ==> carries(e, msg) && after == c2
            },
{
    let (literal, c1) = choose|literal: Option<Seq<char>>, c1: Ctx<'js>| #[trigger]
        is_literal(before, msg, literal, c1) && exists|
            r: Result<Value<'js>, rquickjs::Error>,
            c2: Ctx<'js>,
        | #[trigger]
            evaluates_to(c1, spec_error_source(class, literal), r, c2) && match r {
                Ok(v) => {
                    &&& raises(c2, v, e, after)
                    &&& pending(after) == Some(v)
                    &&& is_exception(e)
                },
                Err(_) => carries(e, msg) && after == c2,
            };
    constructing_errors(class, literal);
    let source = spec_error_source(class, literal);
    let (r, c2) = choose|r: Result<Value<'js>, rquickjs::Error>, c2: Ctx<'js>| #[trigger]
        evaluates_to(c1, source, r, c2) && match r {
            Ok(v) => {
                &&& raises(c2, v, e, after)
                &&& pending(after) == Some(v)
                &&& is_exception(e)
            },
            Err(_) => carries(e, msg) && after == c2,
        };
    assert(is_literal(before, msg, literal, c1));
    assert(evaluates_to(c1, source, r, c2));
}

/// The literal of a message is the JSON text that the engine gives of the string
/// with its characters. There is none exactly if the engine refuses the string,
/// or gives no text of it.
pub proof fn literals<'js>(
    before: Ctx<'js>,
    msg: Seq<char>,
    literal: Option<Seq<char>>,
    after: Ctx<'js>,
)
    requires
        is_literal(before, msg, literal, after),
    ensures
        literal is Some ==> exists|v: Value<'js>, mid: Ctx<'js>|
            {
                &&& #[trigger] makes_text(before, msg, Ok(v), mid)
                &&& stringifies(mid, v, Ok(literal), after)
            },
        literal is None ==> {
            ||| exists|e: rquickjs::Error| #[trigger] makes_text(before, msg, Err(e), after)
            ||| exists|
                v: Value<'js>,
                mid: Ctx<'js>,
                json: Result<Option<Seq<char>>, rquickjs::Error>,
            |
                {
                    &&& #[trigger] makes_text(before, msg, Ok(v), mid)
                    &&& #[trigger] stringifies(mid, v, json, after)
                    &&& json is Err || json->Ok_0 is None
                }
        },
{
    let (t, mid) = choose|t: Result<Value<'js>, rquickjs::Error>, mid: Ctx<'js>| #[trigger]
        makes_text(before, msg, t, mid) && match t {
            Ok(v) => exists|json: Result<Option<Seq<char>>, rquickjs::Error>| #[trigger]
                stringifies(mid, v, json, after) && literal == match json {
                    Ok(l) => l,
                    Err(_) => None,
                },
            Err(_) => literal is None && after == mid,
        };
    match t {
        Ok(v) => {
            let json = choose|json: Result<Option<Seq<char>>, rquickjs::Error>| #[trigger]
                stringifies(mid, v, json, after) && literal == match json {
                    Ok(l) => l,
                    Err(_) => None,
                };
            assert(makes_text(before, msg, Ok(v), mid));
            assert(stringifies(mid, v, json, after));
        },
        Err(e) => {
            assert(makes_text(before, msg, Err(e), after));
        },
    }
}

/// A thrown value is described by the string that the describer returns for that
/// very value. It is an unknown error if it is `null` or `undefined`, and if the
/// describer cannot be had, fails, or returns no text.
pub proof fn describing<'js>(
    before: Ctx<'js>,
    v: Value<'js>,
    report: Seq<char>,
    after: Ctx<'js>,
)
    requires
        is_description(before, v, report, after),
    ensures
        script_value(v) is Null || script_value(v) is Undefined ==> {
            &&& report == "unknown error"@
            &&& after == before
        },
        !(script_value(v) is Null || script_value(v) is Undefined) ==> {
            ||| exists|f: Function<'js>, mid: Ctx<'js>, r: Result<Value<'js>, rquickjs::Error>|
                {
                    &&& #[trigger] evaluates_to_function(before, ERROR_DESCRIBER@, Ok(f), mid)
                    &&& #[trigger] called(mid, f, v, r, after)
                    &&& r is Ok && script_value(r->Ok_0) is Text ==> script_value(r->Ok_0)
                        == ScriptValue::Text(report)
                    &&& !(r is Ok && script_value(r->Ok_0) is Text) ==> report
                        == "unknown error"@
                }
            ||| exists|e: rquickjs::Error|
                {
                    &&& #[trigger] evaluates_to_function(before, ERROR_DESCRIBER@, Err(e), after)
                    &&& report == "unknown error"@
                }
        },
        ERROR_DESCRIBER@
            == "(function(e){ if (e == null) return String(e); var m = String(e); return e.stack ? m + '\\n' + e.stack : m; })"@,
{
    if !(script_value(v) is Null || script_value(v) is Undefined) {
        let (f, mid) = choose|f: Result<Function<'js>, rquickjs::Error>, mid: Ctx<'js>| #[trigger]
            evaluates_to_function(before, ERROR_DESCRIBER@, f, mid) && match f {
                Ok(f) => exists|r: Result<Value<'js>, rquickjs::Error>| #[trigger]
                    called(mid, f, v, r, after) && report == report_of(r),
                Err(_) => report == "unknown error"@ && after == mid,
            };
        match f {
            Ok(f) => {
                let r = choose|r: Result<Value<'js>, rquickjs::Error>| #[trigger]
                    called(mid, f, v, r, after) && report == report_of(r);
                assert(evaluates_to_function(before, ERROR_DESCRIBER@, Ok(f), mid));
                assert(called(mid, f, v, r, after));
            },
            Err(e) => {
                assert(evaluates_to_function(before, ERROR_DESCRIBER@, Err(e), after));
            },
        }
    }
}

/// The exception that is described is the one that was pending, and it is not
/// pending any more when it is described.
pub proof fn describing_the_pending_exception<'js>(
    before: Ctx<'js>,
    report: Seq<char>,
    after: Ctx<'js>,
)
    requires
        describes_pending(before, report, after),
    ensures
        exists|v: Value<'js>, mid: Ctx<'js>|
            {
                &&& #[trigger] catches(before, v, mid)
                &&& pending(before) is Some ==> v == pending(before)->0
                &&& pending(mid) is None
                &&& is_description(mid, v, report, after)
            },
        pending(before) is Some && (script_value(pending(before)->0) is Null || script_value(
            pending(before)->0,
        ) is Undefined) ==> report == "unknown error"@,
{
    let (v, mid) = choose|v: Value<'js>, mid: Ctx<'js>|
        {
            &&& #[trigger] catches(before, v, mid)
            &&& pending(before) matches Some(p) ==> v == p
            &&& pending(mid) is None
            &&& is_description(mid, v, report, after)
        };
    assert(catches(before, v, mid));
    describing(mid, v, report, after);
}

/// Two error classes are defined, one after the other, each under its own name
/// as a class that extends `Error` and has that name. The first that the engine
/// refuses ends it.
pub proof fn defining_errors<'js>(
    before: Ctx<'js>,
    r: Result<(), rquickjs::Error>,
    after: Ctx<'js>,
    class: Seq<char>,
)
    requires
        defines_errors(before, r, after),
    ensures
        spec_error_class_source(class) == "var "@ + class
            + " = class extends Error { constructor(msg) { super(msg); this.name = '"@ + class
            + "'; } };"@,
        r is Ok ==> exists|a: Value<'js>, mid: Ctx<'js>, b: Value<'js>|
            {
                &&& #[trigger] evaluates_to(
                    before,
                    spec_error_class_source("TimeoutError"@),
                    Ok(a),
                    mid,
                )
                &&& #[trigger] evaluates_to(
                    mid,
                    spec_error_class_source("PermissionError"@),
                    Ok(b),
                    after,
                )
            },
        r is Err ==> {
            ||| evaluates_to(before, spec_error_class_source("TimeoutError"@), Err(r->Err_0), after)
            ||| exists|a: Value<'js>, mid: Ctx<'js>|
                {
                    &&& #[trigger] evaluates_to(
                        before,
                        spec_error_class_source("TimeoutError"@),
                        Ok(a),
                        mid,
                    )
                    &&& evaluates_to(
                        mid,
                        spec_error_class_source("PermissionError"@),
                        Err(r->Err_0),
                        after,
                    )
                }
        },
{
    let timeout = spec_error_class_source("TimeoutError"@);
    let permission = spec_error_class_source("PermissionError"@);
    let (a, mid) = choose|a: Result<Value<'js>, rquickjs::Error>, mid: Ctx<'js>| #[trigger]
        evaluates_to(before, timeout, a, mid) && match a {
            Ok(_) => exists|b: Result<Value<'js>, rquickjs::Error>| #[trigger]
                evaluates_to(mid, permission, b, after) && match b {
                    Ok(_) => r is Ok,
                    Err(e) => r == Err::<(), rquickjs::Error>(e),
                },
            Err(e) => r == Err::<(), rquickjs::Error>(e) && after == mid,
        };
    if let Ok(v) = a {
        let b = choose|b: Result<Value<'js>, rquickjs::Error>| #[trigger]
            evaluates_to(mid, permission, b, after) && match b {
                Ok(_) => r is Ok,
                Err(e) => r == Err::<(), rquickjs::Error>(e),
            };
        assert(evaluates_to(before, timeout, Ok(v), mid));
        if let Ok(u) = b {
            assert(evaluates_to(mid, permission, Ok(u), after));
        }
    }
}

/// Starting an entry script succeeds only if the engine evaluated that very
/// source under that name, its promise was kept, and the hook that reports its
/// end was attached. If the engine refuses the source, the error describes the
/// exception.
pub proof fn starting_scripts<'js>(
    before: Ctx<'js>,
    name: Seq<char>,
    source: Seq<char>,
    r: Result<(), String>,
    after: Ctx<'js>,
)
    requires
        starts(before, name, source, r, after),
    ensures
        spec_entry_hook()
            == "__otter_entry.then(() => __otter_done(), (e) => __otter_error("@
            + ERROR_DESCRIBER@ + "(e)));"@,
        r is Ok ==> exists|entry: Value<'js>, c1: Ctx<'js>, c2: Ctx<'js>, h: Value<'js>|
            {
                &&& #[trigger] begins(before, name, source, Ok(entry), c1)
                &&& #[trigger] stores(c1, "__otter_entry"@, entry, Ok(()), c2)
                &&& #[trigger] evaluates_to(c2, spec_entry_hook(), Ok(h), after)
            },
        r is Err ==> {
            ||| exists|e: rquickjs::Error, c1: Ctx<'js>|
                {
                    &&& #[trigger] begins(before, name, source, Err(e), c1)
                    &&& describes_pending(c1, r->Err_0@, after)
                }
            ||| exists|entry: Value<'js>, c1: Ctx<'js>, e: rquickjs::Error|
                {
                    &&& #[trigger] begins(before, name, source, Ok(entry), c1)
                    &&& #[trigger] stores(c1, "__otter_entry"@, entry, Err(e), after)
                    &&& r->Err_0@ == displayed(e)
                }
            ||| exists|entry: Value<'js>, c1: Ctx<'js>, c2: Ctx<'js>, e: rquickjs::Error|
                {
                    &&& #[trigger] begins(before, name, source, Ok(entry), c1)
                    &&& #[trigger] stores(c1, "__otter_entry"@, entry, Ok(()), c2)
                    &&& #[trigger] evaluates_to(c2, spec_entry_hook(), Err(e), after)
                    &&& r->Err_0@ == displayed(e)
                }
        },
{
    let (p, c1) = choose|p: Result<Value<'js>, rquickjs::Error>, c1: Ctx<'js>| #[trigger]
        begins(before, name, source, p, c1) && match p {
            Ok(entry) => exists|s: Result<(), rquickjs::Error>, c2: Ctx<'js>| #[trigger]
                stores(c1, ENTRY@, entry, s, c2) && match s {
                    Ok(_) => exists|h: Result<Value<'js>, rquickjs::Error>| #[trigger]
                        evaluates_to(c2, spec_entry_hook(), h, after) && match h {
                            Ok(_) => r is Ok,
                            Err(e) => r matches Err(m) && m@ == displayed(e),
                        },
                    Err(e) => r matches Err(m) && m@ == displayed(e) && after == c2,
                },
            Err(_) => r matches Err(m) && describes_pending(c1, m@, after),
        };
    if let Err(e) = p {
        assert(begins(before, name, source, Err(e), c1));
    }
    if let Ok(entry) = p {
        let (s, c2) = choose|s: Result<(), rquickjs::Error>, c2: Ctx<'js>| #[trigger]
            stores(c1, ENTRY@, entry, s, c2) && match s {
                Ok(_) => exists|h: Result<Value<'js>, rquickjs::Error>| #[trigger]
                    evaluates_to(c2, spec_entry_hook(), h, after) && match h {
                        Ok(_) => r is Ok,
                        Err(e) => r matches Err(m) && m@ == displayed(e),
                    },
                Err(e) => r matches Err(m) && m@ == displayed(e) && after == c2,
            };
        assert(begins(before, name, source, Ok(entry), c1));
        match s {
            Ok(u) => {
                assert(u == ());
                assert(stores(c1, "__otter_entry"@, entry, Ok(()), c2));
                let h = choose|h: Result<Value<'js>, rquickjs::Error>| #[trigger]
                    evaluates_to(c2, spec_entry_hook(), h, after) && match h {
                        Ok(_) => r is Ok,
                        Err(e) => r matches Err(m) && m@ == displayed(e),
                    };
                match h {
                    Ok(t) => {
                        assert(evaluates_to(c2, spec_entry_hook(), Ok(t), after));
                    },
                    Err(e) => {
                        assert(evaluates_to(c2, spec_entry_hook(), Err(e), after));
                    },
                }
            },
            Err(e) => {
                assert(stores(c1, "__otter_entry"@, entry, Err(e), after));
            },
        }
    }
}

/// The two functions that settle a `recv` are kept each under its own name: the
/// one that takes the message first, then the one that takes the timeout.
pub proof fn keeping_resolvers<'js>(
    before: Ctx<'js>,
    resolve: Value<'js>,
    reject: Value<'js>,
    r: Result<(), rquickjs::Error>,
    after: Ctx<'js>,
)
    requires
        stores_recv(before, resolve, reject, r, after),
    ensures
        r is Ok ==> exists|mid: Ctx<'js>|
            {
                &&& #[trigger] stores(before, "__otter_recv_resolve"@, resolve, Ok(()), mid)
                &&& stores(mid, "__otter_recv_reject"@, reject, Ok(()), after)
            },
        r is Err ==> {
            ||| stores(before, "__otter_recv_resolve"@, resolve, r, after)
            ||| exists|mid: Ctx<'js>|
                {
                    &&& #[trigger] stores(before, "__otter_recv_resolve"@, resolve, Ok(()), mid)
                    &&& stores(mid, "__otter_recv_reject"@, reject, r, after)
                }
        },
{
    let (s, mid) = choose|s: Result<(), rquickjs::Error>, mid: Ctx<'js>| #[trigger]
        stores(before, RECV_RESOLVE@, resolve, s, mid) && match s {
            Ok(_) => stores(mid, RECV_REJECT@, reject, r, after),
            Err(e) => r == Err::<(), rquickjs::Error>(e) && after == mid,
        };
    if let Ok(u) = s {
        assert(u == ());
        assert(stores(before, "__otter_recv_resolve"@, resolve, Ok(()), mid));
        if let Ok(t) = r {
            assert(t == ());
        }
    }
}

/// Whether the two functions that settle a `recv` were both forgotten.
pub open spec fn forgets_recv<'js>(before: Ctx<'js>, after: Ctx<'js>) -> bool {
    exists|u: Value<'js>, mid: Ctx<'js>, v: Value<'js>|
        {
            &&& script_value(u) is Undefined
            &&& script_value(v) is Undefined
            &&& #[trigger] stores(before, "__otter_recv_resolve"@, u, Ok(()), mid)
            &&& #[trigger] stores(mid, "__otter_recv_reject"@, v, Ok(()), after)
        }
}

proof fn lemma_forgets_recv<'js>(before: Ctx<'js>, after: Ctx<'js>)
    requires
        clears_recv(before, true, after),
    ensures
        forgets_recv(before, after),
{
    let mid = choose|mid: Ctx<'js>| #[trigger]
        clears(before, RECV_RESOLVE@, true, mid) && clears(
            mid,
            RECV_REJECT@,
            true,
            after,
        );
    let (u, s) = choose|u: Value<'js>, s: Result<(), rquickjs::Error>|
        {
            &&& script_value(u) is Undefined
            &&& #[trigger] stores(before, RECV_RESOLVE@, u, s, mid)
            &&& true == (s is Ok)
        };
    let (v, t) = choose|v: Value<'js>, t: Result<(), rquickjs::Error>|
        {
            &&& script_value(v) is Undefined
            &&& #[trigger] stores(mid, RECV_REJECT@, v, t, after)
            &&& true == (t is Ok)
        };
    assert(s->Ok_0 == () && t->Ok_0 == ());
    assert(stores(before, "__otter_recv_resolve"@, u, Ok(()), mid));
    assert(stores(mid, "__otter_recv_reject"@, v, Ok(()), after));
}

/// A pending `recv` is woken by a message: its resolver is called with the value
/// of that very text, and both functions are forgotten. If none is pending there
/// is nothing to do.
pub proof fn waking_with_a_message<'js>(before: Ctx<'js>, start: SliceStart, after: Ctx<'js>)
    requires
        start is Message,
        took(before, start, true, after),
    ensures
        ({
            ||| holds(before, "__otter_recv_resolve"@, Ok(None), after)
            ||| exists|
                f: Function<'js>,
                c1: Ctx<'js>,
                v: Value<'js>,
                c2: Ctx<'js>,
                u: Value<'js>,
                c3: Ctx<'js>,
            |
                {
                    &&& #[trigger] holds(before, "__otter_recv_resolve"@, Ok(Some(f)), c1)
                    &&& #[trigger] reads_as(c1, start->Message_0@, Ok(v), c2)
                    &&& #[trigger] called(c2, f, v, Ok(u), c3)
                    &&& forgets_recv(c3, after)
                }
        }),
{
    let json = start->Message_0@;
    let (g, c1) = choose|g: Result<Option<Function<'js>>, rquickjs::Error>, c1: Ctx<'js>| #[trigger]
        holds(before, RECV_RESOLVE@, g, c1) && match g {
            Ok(Some(f)) => exists|p: Result<Value<'js>, rquickjs::Error>, c2: Ctx<'js>| #[trigger]
                reads_as(c1, json, p, c2) && match p {
                    Ok(v) => settles_recv(c2, f, v, true, after),
                    Err(_) => false,
                },
            Ok(None) => after == c1,
            Err(_) => false,
        };
    if let Ok(Some(f)) = g {
        let (p, c2) = choose|p: Result<Value<'js>, rquickjs::Error>, c2: Ctx<'js>| #[trigger]
            reads_as(c1, json, p, c2) && match p {
                Ok(v) => settles_recv(c2, f, v, true, after),
                Err(_) => false,
            };
        let v = p->Ok_0;
        lemma_settles(c2, f, v, after);
        assert(holds(before, "__otter_recv_resolve"@, Ok(Some(f)), c1));
        assert(reads_as(c1, json, Ok(v), c2));
    }
}

proof fn lemma_settles<'js>(before: Ctx<'js>, f: Function<'js>, v: Value<'js>, after: Ctx<'js>)
    requires
        settles_recv(before, f, v, true, after),
    ensures
        exists|u: Value<'js>, mid: Ctx<'js>| #[trigger]
            called(before, f, v, Ok(u), mid) && forgets_recv(mid, after),
{
    let (r, mid) = choose|r: Result<Value<'js>, rquickjs::Error>, mid: Ctx<'js>| #[trigger]
        called(before, f, v, r, mid) && if r is Ok {
            clears_recv(mid, true, after)
        } else {
            false
        };
    let u = r->Ok_0;
    assert(called(before, f, v, Ok(u), mid));
    lemma_forgets_recv(mid, after);
}

/// A pending `recv` that timed out is rejected: its rejecter is called with a
/// new `TimeoutError`, and both functions are forgotten. If none is pending there
/// is nothing to do.
pub proof fn waking_with_a_timeout<'js>(before: Ctx<'js>, after: Ctx<'js>)
    requires
        took(before, SliceStart::Timeout, true, after),
    ensures
        ({
            ||| holds(before, "__otter_recv_reject"@, Ok(None), after)
            ||| exists|
                f: Function<'js>,
                c1: Ctx<'js>,
                e: Value<'js>,
                c2: Ctx<'js>,
                u: Value<'js>,
                c3: Ctx<'js>,
            |
                {
                    &&& #[trigger] holds(before, "__otter_recv_reject"@, Ok(Some(f)), c1)
                    &&& #[trigger] evaluates_to(
                        c1,
                        "new TimeoutError('recv timed out')"@,
                        Ok(e),
                        c2,
                    )
                    &&& #[trigger] called(c2, f, e, Ok(u), c3)
                    &&& forgets_recv(c3, after)
                }
        }),
{
    let (g, c1) = choose|g: Result<Option<Function<'js>>, rquickjs::Error>, c1: Ctx<'js>| #[trigger]
        holds(before, RECV_REJECT@, g, c1) && match g {
            Ok(Some(f)) => exists|p: Result<Value<'js>, rquickjs::Error>, c2: Ctx<'js>| #[trigger]
                evaluates_to(c1, TIMEOUT_SOURCE@, p, c2) && match p {
                    Ok(e) => settles_recv(c2, f, e, true, after),
                    Err(_) => false,
                },
            Ok(None) => after == c1,
            Err(_) => false,
        };
    if let Ok(Some(f)) = g {
        let (p, c2) = choose|p: Result<Value<'js>, rquickjs::Error>, c2: Ctx<'js>| #[trigger]
            evaluates_to(c1, TIMEOUT_SOURCE@, p, c2) && match p {
                Ok(e) => settles_recv(c2, f, e, true, after),
                Err(_) => false,
            };
        let e = p->Ok_0;
        lemma_settles(c2, f, e, after);
        assert(holds(before, "__otter_recv_reject"@, Ok(Some(f)), c1));
        assert(evaluates_to(c1, "new TimeoutError('recv timed out')"@, Ok(e), c2));
    }
}

/// Whether the function that was kept under a name was called with `undefined`
/// and forgotten, or there is none.
pub open spec fn resolves_with_nothing<'js>(
    before: Ctx<'js>,
    name: Seq<char>,
    after: Ctx<'js>,
) -> bool {
    ||| holds(before, name, Ok(None), after)
    ||| exists|
        f: Function<'js>,
        c1: Ctx<'js>,
        v: Value<'js>,
        u: Value<'js>,
        c2: Ctx<'js>,
        w: Value<'js>,
    |
        {
            &&& script_value(v) is Undefined
            &&& script_value(w) is Undefined
            &&& #[trigger] holds(before, name, Ok(Some(f)), c1)
            &&& #[trigger] called(c1, f, v, Ok(u), c2)
            &&& #[trigger] stores(c2, name, w, Ok(()), after)
        }
}

/// A pending `sleep` or `yieldNow` is resolved with nothing: the function that
/// was kept for it, and no other, is called with `undefined` and forgotten. If
/// none is pending there is nothing to do.
pub proof fn waking_with_nothing<'js>(before: Ctx<'js>, after: Ctx<'js>)
    ensures
        took(before, SliceStart::Sleep, true, after) ==> resolves_with_nothing(
            before,
            "__otter_sleep_resolve"@,
            after,
        ),
        took(before, SliceStart::Yield, true, after) ==> resolves_with_nothing(
            before,
            "__otter_yield_resolve"@,
            after,
        ),
{
    if took(before, SliceStart::Sleep, true, after) {
        lemma_nothing(before, SLEEP_RESOLVE@, after);
    }
    if took(before, SliceStart::Yield, true, after) {
        lemma_nothing(before, YIELD_RESOLVE@, after);
    }
}

proof fn lemma_nothing<'js>(before: Ctx<'js>, name: Seq<char>, after: Ctx<'js>)
    requires
        took_nothing(before, name, true, after),
    ensures
        resolves_with_nothing(before, name, after),
{
    let (g, c1) = choose|g: Result<Option<Function<'js>>, rquickjs::Error>, c1: Ctx<'js>| #[trigger]
        holds(before, name, g, c1) && match g {
            Ok(Some(f)) => settles_with_nothing(c1, f, name, true, after),
            Ok(None) => after == c1,
            Err(_) => false,
        };
    if let Ok(Some(f)) = g {
        let (v, r, c2) = choose|
            v: Value<'js>,
            r: Result<Value<'js>, rquickjs::Error>,
            c2: Ctx<'js>,
        |
            {
                &&& script_value(v) is Undefined
                &&& #[trigger] called(c1, f, v, r, c2)
                &&& r is Ok && clears(c2, name, true, after)
            };
        let u = r->Ok_0;
        let (w, s) = choose|w: Value<'js>, s: Result<(), rquickjs::Error>|
            {
                &&& script_value(w) is Undefined
                &&& #[trigger] stores(c2, name, w, s, after)
                &&& s is Ok
            };
        assert(s->Ok_0 == ());
        assert(holds(before, name, Ok(Some(f)), c1));
        assert(called(c1, f, v, Ok(u), c2));
        assert(stores(c2, name, w, Ok(()), after));
    }
}

/// Whether the engine refused to call a function with a value, or took the call
/// and refused to forget the function.
pub open spec fn refuses_call<'js>(
    before: Ctx<'js>,
    f: Function<'js>,
    v: Value<'js>,
    after: Ctx<'js>,
) -> bool {
    ||| exists|e: rquickjs::Error| #[trigger] called(before, f, v, Err(e), after)
    ||| exists|
        u: Value<'js>,
        mid: Ctx<'js>,
        c: Ctx<'js>,
        name: Seq<char>,
        w: Value<'js>,
        e: rquickjs::Error,
    |
        {
            &&& script_value(w) is Undefined
            &&& #[trigger] called(before, f, v, Ok(u), mid)
            &&& #[trigger] stores(c, name, w, Err(e), after)
        }
}

/// A wake fails only if the engine refuses something: to look up the function
/// that was kept, to make the value for it, to call it with that value, or to
/// forget it.
pub proof fn failing_to_wake<'js>(before: Ctx<'js>, start: SliceStart, after: Ctx<'js>)
    requires
        took(before, start, false, after),
    ensures
        match start {
            SliceStart::Message(json) => {
                ||| exists|e: rquickjs::Error| #[trigger]
                    holds(before, "__otter_recv_resolve"@, Err(e), after)
                ||| exists|f: Function<'js>, c1: Ctx<'js>, e: rquickjs::Error|
                    {
                        &&& #[trigger] holds(before, "__otter_recv_resolve"@, Ok(Some(f)), c1)
                        &&& #[trigger] reads_as(c1, json@, Err(e), after)
                    }
                ||| exists|f: Function<'js>, c1: Ctx<'js>, v: Value<'js>, c2: Ctx<'js>|
                    {
                        &&& #[trigger] holds(before, "__otter_recv_resolve"@, Ok(Some(f)), c1)
                        &&& #[trigger] reads_as(c1, json@, Ok(v), c2)
                        &&& refuses_call(c2, f, v, after)
                    }
            },
            SliceStart::Timeout => {
                ||| exists|e: rquickjs::Error| #[trigger]
                    holds(before, "__otter_recv_reject"@, Err(e), after)
                ||| exists|f: Function<'js>, c1: Ctx<'js>, e: rquickjs::Error|
                    {
                        &&& #[trigger] holds(before, "__otter_recv_reject"@, Ok(Some(f)), c1)
                        &&& #[trigger] evaluates_to(c1, TIMEOUT_SOURCE@, Err(e), after)
                    }
                ||| exists|f: Function<'js>, c1: Ctx<'js>, v: Value<'js>, c2: Ctx<'js>|
                    {
                        &&& #[trigger] holds(before, "__otter_recv_reject"@, Ok(Some(f)), c1)
                        &&& #[trigger] evaluates_to(c1, TIMEOUT_SOURCE@, Ok(v), c2)
                        &&& refuses_call(c2, f, v, after)
                    }
            },
            SliceStart::Sleep => refuses_nothing(before, "__otter_sleep_resolve"@, after),
            SliceStart::Yield => refuses_nothing(before, "__otter_yield_resolve"@, after),
            _ => false,
        },
{
    match start {
        SliceStart::Message(json) => {
            let (g, c1) = choose|
                g: Result<Option<Function<'js>>, rquickjs::Error>,
                c1: Ctx<'js>,
            | #[trigger]
                holds(before, RECV_RESOLVE@, g, c1) && match g {
                    Ok(Some(f)) => exists|
                        p: Result<Value<'js>, rquickjs::Error>,
                        c2: Ctx<'js>,
                    | #[trigger]
                        reads_as(c1, json@, p, c2) && match p {
                            Ok(v) => settles_recv(c2, f, v, false, after),
                            Err(_) => after == c2,
                        },
                    Ok(None) => false,
                    Err(_) => after == c1,
                };
            match g {
                Ok(Some(f)) => {
                    let (p, c2) = choose|
                        p: Result<Value<'js>, rquickjs::Error>,
                        c2: Ctx<'js>,
                    | #[trigger]
                        reads_as(c1, json@, p, c2) && match p {
                            Ok(v) => settles_recv(c2, f, v, false, after),
                            Err(_) => after == c2,
                        };
                    assert(holds(before, "__otter_recv_resolve"@, Ok(Some(f)), c1));
                    match p {
                        Ok(v) => {
                            assert(reads_as(c1, json@, Ok(v), c2));
                            lemma_refuses(c2, f, v, after);
                        },
                        Err(e) => {
                            assert(reads_as(c1, json@, Err(e), after));
                        },
                    }
                },
                Ok(None) => {},
                Err(e) => {
                    assert(holds(before, "__otter_recv_resolve"@, Err(e), after));
                },
            }
        },
        SliceStart::Timeout => {
            let (g, c1) = choose|
                g: Result<Option<Function<'js>>, rquickjs::Error>,
                c1: Ctx<'js>,
            | #[trigger]
                holds(before, RECV_REJECT@, g, c1) && match g {
                    Ok(Some(f)) => exists|
                        p: Result<Value<'js>, rquickjs::Error>,
                        c2: Ctx<'js>,
                    | #[trigger]
                        evaluates_to(c1, TIMEOUT_SOURCE@, p, c2) && match p {
                            Ok(v) => settles_recv(c2, f, v, false, after),
                            Err(_) => after == c2,
                        },
                    Ok(None) => false,
                    Err(_) => after == c1,
                };
            match g {
                Ok(Some(f)) => {
                    let (p, c2) = choose|
                        p: Result<Value<'js>, rquickjs::Error>,
                        c2: Ctx<'js>,
                    | #[trigger]
                        evaluates_to(c1, TIMEOUT_SOURCE@, p, c2) && match p {
                            Ok(v) => settles_recv(c2, f, v, false, after),
                            Err(_) => after == c2,
                        };
                    assert(holds(before, "__otter_recv_reject"@, Ok(Some(f)), c1));
                    match p {
                        Ok(v) => {
                            assert(evaluates_to(c1, TIMEOUT_SOURCE@, Ok(v), c2));
                            lemma_refuses(c2, f, v, after);
                        },
                        Err(e) => {
                            assert(evaluates_to(c1, TIMEOUT_SOURCE@, Err(e), after));
                        },
                    }
                },
                Ok(None) => {},
                Err(e) => {
                    assert(holds(before, "__otter_recv_reject"@, Err(e), after));
                },
            }
        },
        SliceStart::Sleep => lemma_refuses_nothing(before, SLEEP_RESOLVE@, after),
        SliceStart::Yield => lemma_refuses_nothing(before, YIELD_RESOLVE@, after),
        _ => {},
    }
}

/// Whether the engine refused to look up the function under a name, to call it
/// with `undefined`, or to forget it.
pub open spec fn refuses_nothing<'js>(
    before: Ctx<'js>,
    name: Seq<char>,
    after: Ctx<'js>,
) -> bool {
    ||| exists|e: rquickjs::Error| #[trigger] holds(before, name, Err(e), after)
    ||| exists|f: Function<'js>, c1: Ctx<'js>, v: Value<'js>|
        {
            &&& script_value(v) is Undefined
            &&& #[trigger] holds(before, name, Ok(Some(f)), c1)
            &&& #[trigger] refuses_call(c1, f, v, after)
        }
}

proof fn lemma_refused_store<'js>(
    before: Ctx<'js>,
    f: Function<'js>,
    v: Value<'js>,
    u: Value<'js>,
    mid: Ctx<'js>,
    c: Ctx<'js>,
    name: Seq<char>,
    after: Ctx<'js>,
)
    requires
        called(before, f, v, Ok(u), mid),
        clears(c, name, false, after),
    ensures
        refuses_call(before, f, v, after),
{
    let (w, s) = choose|w: Value<'js>, s: Result<(), rquickjs::Error>|
        {
            &&& script_value(w) is Undefined
            &&& #[trigger] stores(c, name, w, s, after)
            &&& false == (s is Ok)
        };
    let e = s->Err_0;
    assert(stores(c, name, w, Err(e), after));
}

proof fn lemma_refuses<'js>(before: Ctx<'js>, f: Function<'js>, v: Value<'js>, after: Ctx<'js>)
    requires
        settles_recv(before, f, v, false, after),
    ensures
        refuses_call(before, f, v, after),
{
    let (r, mid) = choose|r: Result<Value<'js>, rquickjs::Error>, mid: Ctx<'js>| #[trigger]
        called(before, f, v, r, mid) && if r is Ok {
            clears_recv(mid, false, after)
        } else {
            after == mid
        };
    match r {
        Ok(u) => {
            assert(called(before, f, v, Ok(u), mid));
            if clears(mid, RECV_RESOLVE@, false, after) {
                lemma_refused_store(before, f, v, u, mid, mid, RECV_RESOLVE@, after);
            } else {
                let c = choose|c: Ctx<'js>| #[trigger]
                    clears(mid, RECV_RESOLVE@, true, c) && clears(c, RECV_REJECT@, false, after);
                lemma_refused_store(before, f, v, u, mid, c, RECV_REJECT@, after);
            }
        },
        Err(e) => {
            assert(called(before, f, v, Err(e), after));
        },
    }
}

proof fn lemma_refuses_nothing<'js>(before: Ctx<'js>, name: Seq<char>, after: Ctx<'js>)
    requires
        took_nothing(before, name, false, after),
    ensures
        refuses_nothing(before, name, after),
{
    let (g, c1) = choose|g: Result<Option<Function<'js>>, rquickjs::Error>, c1: Ctx<'js>| #[trigger]
        holds(before, name, g, c1) && match g {
            Ok(Some(f)) => settles_with_nothing(c1, f, name, false, after),
            Ok(None) => false,
            Err(_) => after == c1,
        };
    match g {
        Ok(Some(f)) => {
            let (v, r, c2) = choose|
                v: Value<'js>,
                r: Result<Value<'js>, rquickjs::Error>,
                c2: Ctx<'js>,
            |
                {
                    &&& script_value(v) is Undefined
                    &&& #[trigger] called(c1, f, v, r, c2)
                    &&& if r is Ok {
                        clears(c2, name, false, after)
                    } else {
                        after == c2
                    }
                };
            assert(holds(before, name, Ok(Some(f)), c1));
            match r {
                Ok(u) => {
                    assert(called(c1, f, v, Ok(u), c2));
                    lemma_refused_store(c1, f, v, u, c2, c2, name, after);
                },
                Err(e) => {
                    assert(called(c1, f, v, Err(e), after));
                },
            }
            assert(refuses_call(c1, f, v, after));
        },
        Ok(None) => {},
        Err(e) => {
            assert(holds(before, name, Err(e), after));
        },
    }
}

/// What is sent of a script value is nothing of `undefined`, a function and a
/// symbol, and the JSON text that the engine gives of any other value.
pub proof fn sending_values<'js>(v: &Value<'js>, r: Result<Payload, rquickjs::Error>)
    ensures
        forall|cx: &mut Ctx<'js>| #[trigger]
            call_ensures(message_payload, (cx, v), r) ==> match script_value(*v) {
                ScriptValue::Undefined | ScriptValue::Function | ScriptValue::Symbol => {
                    &&& r is Ok && r->Ok_0.text() is None
                    &&& *final(cx) == *cx
                },
                _ => {
                    &&& r is Ok ==> stringifies(*cx, *v, Ok(r->Ok_0.text()), *final(cx))
                    &&& r is Err ==> stringifies(*cx, *v, Err(r->Err_0), *final(cx))
                },
            },
{
}

/// The pid that options name is what the engine gives as their property `pid`,
/// and none if they are no object.
pub proof fn naming_processes<'js>(
    options: &Option<Value<'js>>,
    r: Result<Option<Pid>, rquickjs::Error>,
)
    ensures
        forall|cx: &mut Ctx<'js>| #[trigger]
            call_ensures(restrict_pid, (cx, options), r) ==> {
                let v = (*options)->0;
                if *options is Some && (script_value(v) is Object || script_value(v) is Function) {
                    has_pid(*cx, v, "pid"@, r, *final(cx))
                } else {
                    r == Ok::<Option<Pid>, rquickjs::Error>(None) && *final(cx) == *cx
                }
            },
{
}

/// A slice that begins with a wake says which one it was. A slice that begins
/// with none leaves the engine alone.
pub proof fn waking_at_the_start_of_a_slice<'js>(
    start: SliceStart,
    r: Option<(WakeKind, bool)>,
)
    ensures
        forall|cx: &mut Ctx<'js>| #[trigger]
            call_ensures(wake, (cx, start), r) ==> {
                &&& r is Some ==> took(*cx, start, (r->0).1, *final(cx))
                &&& r is None ==> *final(cx) == *cx
                &&& match start {
                    SliceStart::Message(_) => r is Some && (r->0).0 == WakeKind::Message,
                    SliceStart::Timeout => r is Some && (r->0).0 == WakeKind::Timeout,
                    SliceStart::Sleep => r is Some && (r->0).0 == WakeKind::Sleep,
                    SliceStart::Yield => r is Some && (r->0).0 == WakeKind::Yield,
                    _ => r is None,
                }
            },
{
}

/// The function that settles a `sleep` and the one that settles a `yieldNow` are
/// kept each under its own name.
pub proof fn keeping_a_resolver<'js>(resolve: Value<'js>, r: Result<(), rquickjs::Error>)
    ensures
        forall|cx: &mut Ctx<'js>| #[trigger]
            call_ensures(stash_sleep, (cx, resolve), r) ==> stores(
                *cx,
                "__otter_sleep_resolve"@,
                resolve,
                r,
                *final(cx),
            ),
        forall|cx: &mut Ctx<'js>| #[trigger]
            call_ensures(stash_yield, (cx, resolve), r) ==> stores(
                *cx,
                "__otter_yield_resolve"@,
                resolve,
                r,
                *final(cx),
            ),
{
}

} // verus!
