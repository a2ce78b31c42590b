//! Values of the script engine: what is sent, printed and reported of them, how
//! an entry script is started, and how a suspended script is woken.

use rquickjs::{Ctx, Function, Value};
use vstd::prelude::*;

use crate::process::{
    console_line, error_report, error_source, joined, pid_line, render, spec_error_source,
    spec_render, JsError, Pid, Printable, WakeKind,
};
use crate::scheduler::{Payload, SliceStart};
use crate::script::{
    begins, call, called, carries, catch, catches, displayed, error_text, eval, eval_entry,
    eval_function, evaluates_to, evaluates_to_function, global_function, has_bool, has_pid,
    has_value, holds, is_exception, is_function, is_null, is_object, is_symbol, is_undefined,
    json_answer, json_parse, json_stringify, makes_text, message_error, pending, property_bool,
    property_pid, property_value, raises, reads_as, script_value, set_global, stores, stringifies,
    text_of, text_value, throw, undefined, ScriptValue,
};
use crate::text::opt_text;

verus! {

/// The global that holds the resolver of a pending `recv()`.
pub const RECV_RESOLVE: &'static str = "__otter_recv_resolve";

/// The global that holds the rejecter of a pending `recv(timeoutMs)`.
pub const RECV_REJECT: &'static str = "__otter_recv_reject";

/// The global that holds the resolver of a pending `sleep()`.
pub const SLEEP_RESOLVE: &'static str = "__otter_sleep_resolve";

/// The global that holds the resolver of a pending `yieldNow()`.
pub const YIELD_RESOLVE: &'static str = "__otter_yield_resolve";

/// The script expression that makes the error of a `recv` that timed out.
pub const TIMEOUT_SOURCE: &'static str = "new TimeoutError('recv timed out')";

/// The script function that renders any thrown value as `String(e)`, plus the
/// stack trace when there is one.
pub const ERROR_DESCRIBER: &'static str =
    "(function(e){ if (e == null) return String(e); var m = String(e); return e.stack ? m + '\\n' + e.stack : m; })";

/// The global that holds the promise of the entry script.
pub const ENTRY: &'static str = "__otter_entry";

/// Whether `p` is what logging knows of a script value.
pub open spec fn prints<'js>(
    before: Ctx<'js>,
    v: Value<'js>,
    p: Printable,
    after: Ctx<'js>,
) -> bool {
    match script_value(v) {
        ScriptValue::Undefined => p is Undefined && after == before,
        ScriptValue::Text(s) => p matches Printable::Text(t) && t@ == s && after == before,
        ScriptValue::BrokenText => false,
        _ => p matches Printable::Json(json) && stringifies(
            before,
            v,
            Ok(opt_text(json)),
            after,
        ),
    }
}

/// Whether a script value cannot be logged, and `e` says so: only a broken
/// string, and a value that the engine refused to render.
pub open spec fn is_unprintable<'js>(
    before: Ctx<'js>,
    v: Value<'js>,
    e: rquickjs::Error,
    after: Ctx<'js>,
) -> bool {
    match script_value(v) {
        ScriptValue::Undefined => false,
        ScriptValue::Text(_) => false,
        ScriptValue::BrokenText => after == before,
        _ => stringifies(before, v, Err(e), after),
    }
}

fn printable<'js>(cx: &mut Ctx<'js>, v: &Value<'js>) -> (r: Result<Printable, rquickjs::Error>)
    ensures
        match r {
            Ok(p) => prints(*old(cx), *v, p, *final(cx)),
            Err(e) => is_unprintable(*old(cx), *v, e, *final(cx)),
        },
{
    if is_undefined(v) {
        return Ok(Printable::Undefined);
    }
    match text_of(v) {
        Some(Ok(s)) => Ok(Printable::Text(s)),
        Some(Err(e)) => Err(e),
        None => match json_stringify(cx, v) {
            Ok(json) => Ok(Printable::Json(json)),
            Err(e) => Err(e),
        },
    }
}

/// How `console.log` renders one argument: strings verbatim, `undefined` as
/// such, and everything else as the JSON text that the engine gives, or
/// `undefined` if it gives none.
pub fn fmt_value<'js>(cx: &mut Ctx<'js>, v: &Value<'js>) -> (r: Result<String, rquickjs::Error>)
    ensures
        match r {
            Ok(s) => exists|p: Printable| #[trigger]
                prints(*old(cx), *v, p, *final(cx)) && s@ == spec_render(p),
            Err(e) => is_unprintable(*old(cx), *v, e, *final(cx)),
        },
{
    match printable(cx, v) {
        Ok(p) => Ok(render(&p)),
        Err(e) => Err(e),
    }
}

/// Whether `parts` is what logging knows of the values, one after the other, as
/// the engine goes through `states`.
pub open spec fn prints_through<'js>(
    states: Seq<Ctx<'js>>,
    args: Seq<Value<'js>>,
    parts: Seq<Printable>,
) -> bool {
    &&& states.len() == args.len() + 1
    &&& parts.len() == args.len()
    &&& forall|i: int|
        0 <= i < args.len() ==> prints(states[i], #[trigger] args[i], parts[i], states[i + 1])
}

/// Whether `parts` is what logging knows of the values, one after the other.
pub open spec fn all_print<'js>(
    before: Ctx<'js>,
    args: Seq<Value<'js>>,
    parts: Seq<Printable>,
    after: Ctx<'js>,
) -> bool {
    exists|states: Seq<Ctx<'js>>| #[trigger]
        prints_through(states, args, parts) && states[0] == before && states.last() == after
}

/// Whether the values before the one at `i` could be logged, and that one could
/// not.
pub open spec fn fails_at<'js>(
    before: Ctx<'js>,
    args: Seq<Value<'js>>,
    i: int,
    e: rquickjs::Error,
    after: Ctx<'js>,
) -> bool {
    &&& 0 <= i < args.len()
    &&& exists|parts: Seq<Printable>, mid: Ctx<'js>|
        {
            &&& #[trigger] all_print(before, args.take(i), parts, mid)
            &&& is_unprintable(mid, args[i], e, after)
        }
}

/// Whether some value could not be logged, and `e` says so.
pub open spec fn fails<'js>(
    before: Ctx<'js>,
    args: Seq<Value<'js>>,
    e: rquickjs::Error,
    after: Ctx<'js>,
) -> bool {
    exists|i: int| #[trigger] fails_at(before, args, i, e, after)
}

/// Whether `line` is the line that logging the values prints.
pub open spec fn logs<'js>(
    before: Ctx<'js>,
    pid: Pid,
    args: Seq<Value<'js>>,
    line: Seq<char>,
    after: Ctx<'js>,
) -> bool {
    exists|parts: Seq<Printable>| #[trigger]
        all_print(before, args, parts, after) && line == pid_line(
            pid,
            joined(parts.map_values(|p: Printable| spec_render(p))),
        )
}

/// The line that `console.log(...)` prints, unless an argument cannot be
/// logged.
pub fn log_line<'js>(cx: &mut Ctx<'js>, pid: Pid, args: &Vec<Value<'js>>) -> (r: Result<
    String,
    rquickjs::Error,
>)
    ensures
        match r {
            Ok(line) => logs(*old(cx), pid, args@, line@, *final(cx)),
            Err(e) => fails(*old(cx), args@, e, *final(cx)),
        },
{
    let mut parts: Vec<Printable> = Vec::new();
    let mut failed: Option<rquickjs::Error> = None;
    let mut i: usize = 0;
    let ghost mut states: Seq<Ctx<'js>> = seq![*cx];
    assert(prints_through(states, args@.take(0), parts@));
    while i < args.len() && failed.is_none()
        invariant
            i <= args.len(),
            failed is None ==> prints_through(states, args@.take(i as int), parts@),
            failed is None ==> states[0] == *old(cx) && states.last() == *cx,
            failed matches Some(e) ==> fails(*old(cx), args@, e, *cx),
        decreases args.len() - i,
    {
        let ghost mid = *cx;
        assert(all_print(*old(cx), args@.take(i as int), parts@, mid));
        match printable(cx, &args[i]) {
            Ok(p) => {
                parts.push(p);
                proof {
                    states = states.push(*cx);
                    let done = args@.take(i + 1);
                    assert forall|j: int| 0 <= j < done.len() implies prints(
                        states[j],
                        #[trigger] done[j],
                        parts@[j],
                        states[j + 1],
                    ) by {
                        if j < i {
                            assert(done[j] == args@.take(i as int)[j]);
                        }
                    }
                    assert(prints_through(states, done, parts@));
                }
            },
            Err(e) => {
                assert(fails_at(*old(cx), args@, i as int, e, *cx));
                failed = Some(e);
            },
        }
        i = i + 1;
    }
    match failed {
        Some(e) => Err(e),
        None => {
            assert(args@.take(args.len() as int) =~= args@);
            assert(all_print(*old(cx), args@, parts@, *cx));
            Ok(console_line(pid, &parts))
        },
    }
}

/// What is sent of a script value: nothing of `undefined`, a function or a
/// symbol, and the JSON text that the engine gives of any other.
pub fn message_payload<'js>(cx: &mut Ctx<'js>, v: &Value<'js>) -> (r: Result<
    Payload,
    rquickjs::Error,
>)
    ensures
        match script_value(*v) {
            ScriptValue::Undefined => r matches Ok(p) && p is Undefined && *final(cx) == *old(cx),
            ScriptValue::Function => r matches Ok(p) && p is Function && *final(cx) == *old(cx),
            ScriptValue::Symbol => r matches Ok(p) && p is Symbol && *final(cx) == *old(cx),
            _ => match r {
                Ok(p) => p is Json && stringifies(*old(cx), *v, Ok(p.text()), *final(cx)),
                Err(e) => stringifies(*old(cx), *v, Err(e), *final(cx)),
            },
        },
{
    if is_undefined(v) {
        Ok(Payload::Undefined)
    } else if is_function(v) {
        Ok(Payload::Function)
    } else if is_symbol(v) {
        Ok(Payload::Symbol)
    } else {
        match json_stringify(cx, v) {
            Ok(json) => Ok(Payload::Json(json)),
            Err(e) => Err(e),
        }
    }
}

/// Answers a `recv()` that need not wait: resolves it with the message, unless
/// the engine refuses the JSON text or the call.
pub fn resolve_recv<'js>(cx: &mut Ctx<'js>, resolve: &Function<'js>, json: String) -> (r: Result<
    (),
    rquickjs::Error,
>)
    ensures
        exists|p: Result<Value<'js>, rquickjs::Error>, mid: Ctx<'js>| #[trigger]
            reads_as(*old(cx), json@, p, mid) && match p {
                Ok(v) => exists|a: Result<Value<'js>, rquickjs::Error>| #[trigger]
                    called(mid, *resolve, v, a, *final(cx)) && match a {
                        Ok(_) => r is Ok,
                        Err(e) => r == Err::<(), rquickjs::Error>(e),
                    },
                Err(e) => r == Err::<(), rquickjs::Error>(e) && *final(cx) == mid,
            },
{
    let ghost text = json@;
    let p = json_parse(cx, json);
    let ghost mid = *cx;
    assert(reads_as(*old(cx), text, p, mid));
    match p {
        Ok(v) => {
            let ghost given = v;
            let a = call(cx, resolve, v);
            assert(called(mid, *resolve, given, a, *cx));
            match a {
                Ok(_) => Ok(()),
                Err(e) => Err(e),
            }
        },
        Err(e) => Err(e),
    }
}

/// Whether an optional argument is an object.
pub open spec fn is_given(arg: Option<Value<'_>>) -> bool {
    match arg {
        Some(v) => script_value(v) is Object || script_value(v) is Function,
        None => false,
    }
}

/// Whether `r` is what a policy sets: what the engine answered for an object,
/// and nothing otherwise.
pub open spec fn sets<'js>(
    before: Ctx<'js>,
    policy: Option<Value<'js>>,
    r: Result<Option<bool>, rquickjs::Error>,
    after: Ctx<'js>,
) -> bool {
    if is_given(policy) {
        has_bool(before, policy->0, "canSpawnAndKill"@, r, after)
    } else {
        r matches Ok(t) && t is None && after == before
    }
}

/// The toggle that a policy sets: the property `canSpawnAndKill` of an object.
/// Anything that is no object sets nothing.
pub fn policy_toggle<'js>(cx: &mut Ctx<'js>, policy: &Option<Value<'js>>) -> (r: Result<
    Option<bool>,
    rquickjs::Error,
>)
    ensures
        sets(*old(cx), *policy, r, *final(cx)),
{
    match policy {
        Some(v) => if is_object(v) {
            property_bool(cx, v, "canSpawnAndKill")
        } else {
            Ok(None)
        },
        None => Ok(None),
    }
}

/// The toggle that the options of a `spawn` set for the child: that of the
/// policy under `sandbox`. Options that are no object set nothing.
pub fn spawn_toggle<'js>(cx: &mut Ctx<'js>, options: &Option<Value<'js>>) -> (r: Result<
    Option<bool>,
    rquickjs::Error,
>)
    ensures
        if is_given(*options) {
            exists|found: Result<Option<Value<'js>>, rquickjs::Error>, mid: Ctx<'js>| #[trigger]
                has_value(*old(cx), options->0, "sandbox"@, found, mid) && match found {
                    Ok(policy) => sets(mid, policy, r, *final(cx)),
                    Err(e) => r == Err::<Option<bool>, rquickjs::Error>(e) && *final(cx) == mid,
                }
        } else {
            r matches Ok(t) && t is None && *final(cx) == *old(cx)
        },
{
    match options {
        Some(v) => if is_object(v) {
            let found = property_value(cx, v, "sandbox");
            assert(has_value(*old(cx), options->0, "sandbox"@, found, *cx));
            match found {
                Ok(policy) => policy_toggle(cx, &policy),
                Err(e) => Err(e),
            }
        } else {
            Ok(None)
        },
        None => Ok(None),
    }
}

/// The process that the options of a `restrictSandbox` name: the property
/// `pid` of an object. Options that are no object name none.
pub fn restrict_pid<'js>(cx: &mut Ctx<'js>, options: &Option<Value<'js>>) -> (r: Result<
    Option<Pid>,
    rquickjs::Error,
>)
    ensures
        if is_given(*options) {
            has_pid(*old(cx), options->0, "pid"@, r, *final(cx))
        } else {
            r matches Ok(p) && p is None && *final(cx) == *old(cx)
        },
{
    match options {
        Some(v) => if is_object(v) {
            property_pid(cx, v, "pid")
        } else {
            Ok(None)
        },
        None => Ok(None),
    }
}

/// Whether `literal` is what the engine gave as the JSON text of the string
/// `msg`: none exactly if it refused the string, or gave no text of it.
pub open spec fn is_literal<'js>(
    before: Ctx<'js>,
    msg: Seq<char>,
    literal: Option<Seq<char>>,
    after: Ctx<'js>,
) -> bool {
    exists|t: Result<Value<'js>, rquickjs::Error>, mid: Ctx<'js>| #[trigger]
        makes_text(before, msg, t, mid) && match t {
            Ok(v) => exists|json: Result<Option<Seq<char>>, rquickjs::Error>| #[trigger]
                stringifies(mid, v, json, after) && literal == match json {
                    Ok(l) => l,
                    Err(_) => None,
                },
            Err(_) => literal is None && after == mid,
        }
}

/// A string as a JSON literal, if the engine gives one.
fn literal_of<'js>(cx: &mut Ctx<'js>, msg: &str) -> (r: Option<String>)
    ensures
        is_literal(*old(cx), msg@, opt_text(r), *final(cx)),
{
    let t = text_value(cx, msg);
    let ghost mid = *cx;
    assert(makes_text(*old(cx), msg@, t, mid));
    match t {
        Ok(v) => {
            let json = json_stringify(cx, &v);
            assert(stringifies(mid, v, json_answer(json), *cx));
            match json {
                Ok(literal) => literal,
                Err(_) => None,
            }
        },
        Err(_) => None,
    }
}

/// Whether the error that the engine constructed by [`error_source`] is pending,
/// and `e` says so; if the engine refused to construct it, `e` carries the
/// message only.
pub open spec fn is_raised<'js>(
    before: Ctx<'js>,
    class: Seq<char>,
    msg: Seq<char>,
    e: rquickjs::Error,
    after: Ctx<'js>,
) -> bool {
    exists|literal: Option<Seq<char>>, c1: Ctx<'js>| #[trigger]
        is_literal(before, msg, literal, c1) && exists|
            r: Result<Value<'js>, rquickjs::Error>,
            c2: Ctx<'js>,
        | #[trigger]
            evaluates_to(c1, spec_error_source(class, literal), r, c2) && match r {
                Ok(v) => {
                    &&& raises(c2, v, e, after)
                    &&& pending(after) == Some(v)
                    &&& is_exception(e)
                },
                Err(_) => carries(e, msg) && after == c2,
            }
}

/// Raises an error of the class with the given name in the script. The engine
/// evaluates what [`error_source`] says; where it cannot, the error carries the
/// message only.
pub fn js_named_error<'js>(cx: &mut Ctx<'js>, class: &str, msg: &str) -> (r: rquickjs::Error)
    ensures
        is_raised(*old(cx), class@, msg@, r, *final(cx)),
{
    let literal = literal_of(cx, msg);
    let ghost text = opt_text(literal);
    let ghost c1 = *cx;
    assert(is_literal(*old(cx), msg@, text, c1));
    let r = eval(cx, error_source(class, literal));
    assert(evaluates_to(c1, spec_error_source(class@, text), r, *cx));
    match r {
        Ok(e) => throw(cx, e),
        Err(_) => message_error(msg),
    }
}

/// Raises a `TypeError` in the script.
pub fn js_type_error<'js>(cx: &mut Ctx<'js>, msg: &str) -> (r: rquickjs::Error)
    ensures
        is_raised(*old(cx), "TypeError"@, msg@, r, *final(cx)),
{
    js_named_error(cx, "TypeError", msg)
}

/// Raises a `PermissionError` in the script.
pub fn permission_error<'js>(cx: &mut Ctx<'js>, msg: &str) -> (r: rquickjs::Error)
    ensures
        is_raised(*old(cx), "PermissionError"@, msg@, r, *final(cx)),
{
    js_named_error(cx, "PermissionError", msg)
}

/// Raises an error in the script.
pub fn raise<'js>(cx: &mut Ctx<'js>, e: &JsError) -> (r: rquickjs::Error)
    ensures
        is_raised(*old(cx), e.class.spec_as_str(), e.message@, r, *final(cx)),
{
    js_named_error(cx, e.class.as_str(), e.message.as_str())
}

/// What is reported of a value that a script threw, given what the describer
/// made of it.
pub open spec fn report_of(r: Result<Value<'_>, rquickjs::Error>) -> Seq<char> {
    match r {
        Ok(t) => match script_value(t) {
            ScriptValue::Text(text) => text,
            _ => "unknown error"@,
        },
        Err(_) => "unknown error"@,
    }
}

/// Whether `report` describes the thrown value `v`: as the describer renders
/// that value, and as `unknown error` if it is `null` or `undefined`, or if the
/// engine did not render it.
pub open spec fn is_description<'js>(
    before: Ctx<'js>,
    v: Value<'js>,
    report: Seq<char>,
    after: Ctx<'js>,
) -> bool {
    if script_value(v) is Null || script_value(v) is Undefined {
        report == "unknown error"@ && after == before
    } else {
        exists|f: Result<Function<'js>, rquickjs::Error>, mid: Ctx<'js>| #[trigger]
            evaluates_to_function(before, ERROR_DESCRIBER@, f, mid) && match f {
                Ok(f) => exists|r: Result<Value<'js>, rquickjs::Error>| #[trigger]
                    called(mid, f, v, r, after) && report == report_of(r),
                Err(_) => report == "unknown error"@ && after == mid,
            }
    }
}

/// What is reported of a thrown value: `unknown error` of `null` and
/// `undefined`, and what the engine renders of any other.
pub fn describe<'js>(cx: &mut Ctx<'js>, v: Value<'js>) -> (r: String)
    ensures
        is_description(*old(cx), v, r@, *final(cx)),
{
    if is_null(&v) || is_undefined(&v) {
        return error_report(true, None);
    }
    let describer = eval_function(cx, ERROR_DESCRIBER.to_owned());
    let ghost mid = *cx;
    assert(evaluates_to_function(*old(cx), ERROR_DESCRIBER@, describer, mid));
    let rendered = match describer {
        Ok(f) => {
            let ghost thrown = v;
            let r = call(cx, &f, v);
            assert(called(mid, f, thrown, r, *cx));
            match r {
                Ok(t) => match text_of(&t) {
                    Some(Ok(s)) => Some(s),
                    _ => None,
                },
                Err(_) => None,
            }
        },
        Err(_) => None,
    };
    error_report(false, rendered)
}

/// Whether `report` describes the exception that was pending, which is so no
/// longer when it is described.
pub open spec fn describes_pending<'js>(
    before: Ctx<'js>,
    report: Seq<char>,
    after: Ctx<'js>,
) -> bool {
    exists|v: Value<'js>, mid: Ctx<'js>|
        {
            &&& #[trigger] catches(before, v, mid)
            &&& pending(before) matches Some(p) ==> v == p
            &&& pending(mid) is None
            &&& is_description(mid, v, report, after)
        }
}

/// What is reported of the pending exception of an engine.
pub fn describe_catch<'js>(cx: &mut Ctx<'js>) -> (r: String)
    ensures
        describes_pending(*old(cx), r@, *final(cx)),
{
    let v = catch(cx);
    assert(catches(*old(cx), v, *cx));
    describe(cx, v)
}

/// The script that defines an error class of its own under a global name.
pub fn error_class_source(class: &str) -> (r: String)
    ensures
        r@ == spec_error_class_source(class@),
{
    let mut r = "var ".to_owned();
    r.append(class);
    r.append(" = class extends Error { constructor(msg) { super(msg); this.name = '");
    r.append(class);
    r.append("'; } };");
    r
}

pub open spec fn spec_error_class_source(class: Seq<char>) -> Seq<char> {
    "var "@ + class + " = class extends Error { constructor(msg) { super(msg); this.name = '"@
        + class + "'; } };"@
}

/// Whether the engine evaluated the two error classes, and `r` is its answer:
/// the error if it refused one.
pub open spec fn defines_errors<'js>(
    before: Ctx<'js>,
    r: Result<(), rquickjs::Error>,
    after: Ctx<'js>,
) -> bool {
    exists|a: Result<Value<'js>, rquickjs::Error>, mid: Ctx<'js>| #[trigger]
        evaluates_to(before, spec_error_class_source("TimeoutError"@), a, mid) && match a {
            Ok(_) => exists|b: Result<Value<'js>, rquickjs::Error>| #[trigger]
                evaluates_to(mid, spec_error_class_source("PermissionError"@), b, after)
                    && match b {
                    Ok(_) => r is Ok,
                    Err(e) => r == Err::<(), rquickjs::Error>(e),
                },
            Err(e) => r == Err::<(), rquickjs::Error>(e) && after == mid,
        }
}

/// Defines the error classes that every script can tell apart.
pub fn define_errors<'js>(cx: &mut Ctx<'js>) -> (r: Result<(), rquickjs::Error>)
    ensures
        defines_errors(*old(cx), r, *final(cx)),
{
    let a = eval(cx, error_class_source("TimeoutError"));
    let ghost mid = *cx;
    assert(evaluates_to(*old(cx), spec_error_class_source("TimeoutError"@), a, mid));
    match a {
        Ok(_) => {
            let b = eval(cx, error_class_source("PermissionError"));
            assert(evaluates_to(mid, spec_error_class_source("PermissionError"@), b, *cx));
            match b {
                Ok(_) => Ok(()),
                Err(e) => Err(e),
            }
        },
        Err(e) => Err(e),
    }
}

pub open spec fn spec_entry_hook() -> Seq<char> {
    "__otter_entry.then(() => __otter_done(), (e) => __otter_error("@ + ERROR_DESCRIBER@
        + "(e)));"@
}

/// The script that reports how the promise of an entry script ends: that it was
/// fulfilled, or the description of what it was rejected with.
pub fn entry_hook() -> (r: String)
    ensures
        r@ == spec_entry_hook(),
{
    let mut r = "__otter_entry.then(() => __otter_done(), (e) => __otter_error(".to_owned();
    r.append(ERROR_DESCRIBER);
    r.append("(e)));");
    r
}

/// Whether the entry script `source` was started, and `r` says how that went: it
/// was evaluated, its promise was kept, and the hook was attached. If the engine
/// refused the script, the error is the description of the exception.
pub open spec fn starts<'js>(
    before: Ctx<'js>,
    name: Seq<char>,
    source: Seq<char>,
    r: Result<(), String>,
    after: Ctx<'js>,
) -> bool {
    exists|p: Result<Value<'js>, rquickjs::Error>, c1: Ctx<'js>| #[trigger]
        begins(before, name, source, p, c1) && match p {
            Ok(entry) => exists|s: Result<(), rquickjs::Error>, c2: Ctx<'js>| #[trigger]
                stores(c1, ENTRY@, entry, s, c2) && match s {
                    Ok(_) => exists|h: Result<Value<'js>, rquickjs::Error>| #[trigger]
                        evaluates_to(c2, spec_entry_hook(), h, after) && match h {
                            Ok(_) => r is Ok,
                            Err(e) => r matches Err(m) && m@ == displayed(e),
                        },
                    Err(e) => r matches Err(m) && m@ == displayed(e) && after == c2,
                },
            Err(_) => r matches Err(m) && describes_pending(c1, m@, after),
        }
}

/// Evaluates the entry script of a process, and hooks the end of its promise.
pub fn start_entry<'js>(cx: &mut Ctx<'js>, name: &str, source: &str) -> (r: Result<(), String>)
    ensures
        starts(*old(cx), name@, source@, r, *final(cx)),
{
    let p = eval_entry(cx, name, source);
    let ghost c1 = *cx;
    assert(begins(*old(cx), name@, source@, p, c1));
    match p {
        Ok(entry) => {
            let ghost promise = entry;
            let s = set_global(cx, ENTRY, entry);
            let ghost c2 = *cx;
            assert(stores(c1, ENTRY@, promise, s, c2));
            match s {
                Ok(_) => {
                    let h = eval(cx, entry_hook());
                    assert(evaluates_to(c2, spec_entry_hook(), h, *cx));
                    match h {
                        Ok(_) => Ok(()),
                        Err(e) => Err(error_text(&e)),
                    }
                },
                Err(e) => Err(error_text(&e)),
            }
        },
        Err(_) => Err(describe_catch(cx)),
    }
}

/// Whether the two functions that settle a `recv` were stored, and `r` is what
/// the engine answered: the error if it refused one.
pub open spec fn stores_recv<'js>(
    before: Ctx<'js>,
    resolve: Value<'js>,
    reject: Value<'js>,
    r: Result<(), rquickjs::Error>,
    after: Ctx<'js>,
) -> bool {
    exists|s: Result<(), rquickjs::Error>, mid: Ctx<'js>| #[trigger]
        stores(before, RECV_RESOLVE@, resolve, s, mid) && match s {
            Ok(_) => stores(mid, RECV_REJECT@, reject, r, after),
            Err(e) => r == Err::<(), rquickjs::Error>(e) && after == mid,
        }
}

/// Keeps the two functions that settle a `recv()` that waits.
pub fn stash_recv<'js>(cx: &mut Ctx<'js>, resolve: Value<'js>, reject: Value<'js>) -> (r: Result<
    (),
    rquickjs::Error,
>)
    ensures
        stores_recv(*old(cx), resolve, reject, r, *final(cx)),
{
    let ghost kept = resolve;
    let s = set_global(cx, RECV_RESOLVE, resolve);
    assert(stores(*old(cx), RECV_RESOLVE@, kept, s, *cx));
    match s {
        Ok(_) => set_global(cx, RECV_REJECT, reject),
        Err(e) => Err(e),
    }
}

/// Keeps the function that settles a `sleep()`.
pub fn stash_sleep<'js>(cx: &mut Ctx<'js>, resolve: Value<'js>) -> (r: Result<(), rquickjs::Error>)
    ensures
        stores(*old(cx), SLEEP_RESOLVE@, resolve, r, *final(cx)),
{
    set_global(cx, SLEEP_RESOLVE, resolve)
}

/// Keeps the function that settles a `yieldNow()`.
pub fn stash_yield<'js>(cx: &mut Ctx<'js>, resolve: Value<'js>) -> (r: Result<(), rquickjs::Error>)
    ensures
        stores(*old(cx), YIELD_RESOLVE@, resolve, r, *final(cx)),
{
    set_global(cx, YIELD_RESOLVE, resolve)
}

/// Whether a global was cleared, and the engine took that, or not, as `ok` says.
pub open spec fn clears<'js>(
    before: Ctx<'js>,
    name: Seq<char>,
    ok: bool,
    after: Ctx<'js>,
) -> bool {
    exists|v: Value<'js>, r: Result<(), rquickjs::Error>|
        {
            &&& script_value(v) is Undefined
            &&& #[trigger] stores(before, name, v, r, after)
            &&& ok == (r is Ok)
        }
}

/// Clears a global. Says whether the engine took it.
fn forget<'js>(cx: &mut Ctx<'js>, name: &str) -> (r: bool)
    ensures
        clears(*old(cx), name@, r, *final(cx)),
{
    let v = undefined(cx);
    let ghost nothing = v;
    let stored = set_global(cx, name, v);
    assert(stores(*old(cx), name@, nothing, stored, *cx));
    stored.is_ok()
}

/// Whether the two functions that settle a `recv` were cleared, and the engine
/// took that, or not, as `ok` says.
pub open spec fn clears_recv<'js>(before: Ctx<'js>, ok: bool, after: Ctx<'js>) -> bool {
    ||| clears(before, RECV_RESOLVE@, false, after) && !ok
    ||| exists|mid: Ctx<'js>| #[trigger]
        clears(before, RECV_RESOLVE@, true, mid) && clears(mid, RECV_REJECT@, ok, after)
}

/// Forgets the two functions that settle a `recv`. Says whether the engine took
/// it.
fn forget_recv<'js>(cx: &mut Ctx<'js>) -> (r: bool)
    ensures
        clears_recv(*old(cx), r, *final(cx)),
{
    if !forget(cx, RECV_RESOLVE) {
        return false;
    }
    assert(clears(*old(cx), RECV_RESOLVE@, true, *cx));
    forget(cx, RECV_REJECT)
}

/// Whether `f` was called with `v`, and then the functions that settle a `recv`
/// were cleared, and the engine took all of that, or not, as `ok` says.
pub open spec fn settles_recv<'js>(
    before: Ctx<'js>,
    f: Function<'js>,
    v: Value<'js>,
    ok: bool,
    after: Ctx<'js>,
) -> bool {
    exists|r: Result<Value<'js>, rquickjs::Error>, mid: Ctx<'js>| #[trigger]
        called(before, f, v, r, mid) && if r is Ok {
            clears_recv(mid, ok, after)
        } else {
            !ok && after == mid
        }
}

/// Calls the function that settles a pending `recv`, then forgets both of them.
/// Says whether the engine took it.
fn settle_recv<'js>(cx: &mut Ctx<'js>, f: &Function<'js>, v: Value<'js>) -> (r: bool)
    ensures
        settles_recv(*old(cx), *f, v, r, *final(cx)),
{
    let ghost given = v;
    let answer = call(cx, f, v);
    assert(called(*old(cx), *f, given, answer, *cx));
    answer.is_ok() && forget_recv(cx)
}

/// Whether the pending `recv()` was resolved with the message `json`, and the
/// engine took that, or not, as `ok` says. There is nothing to take if none is
/// pending.
pub open spec fn took_message<'js>(
    before: Ctx<'js>,
    json: Seq<char>,
    ok: bool,
    after: Ctx<'js>,
) -> bool {
    exists|g: Result<Option<Function<'js>>, rquickjs::Error>, c1: Ctx<'js>| #[trigger]
        holds(before, RECV_RESOLVE@, g, c1) && match g {
            Ok(Some(f)) => exists|p: Result<Value<'js>, rquickjs::Error>, c2: Ctx<'js>| #[trigger]
                reads_as(c1, json, p, c2) && match p {
                    Ok(v) => settles_recv(c2, f, v, ok, after),
                    Err(_) => !ok && after == c2,
                },
            Ok(None) => ok && after == c1,
            Err(_) => !ok && after == c1,
        }
}

/// Resolves the pending `recv()` with a message. Says whether the engine took
/// it.
fn wake_with<'js>(cx: &mut Ctx<'js>, json: String) -> (r: bool)
    ensures
        took_message(*old(cx), json@, r, *final(cx)),
{
    let ghost text = json@;
    let g = global_function(cx, RECV_RESOLVE);
    let ghost c1 = *cx;
    assert(holds(*old(cx), RECV_RESOLVE@, g, c1));
    match g {
        Ok(Some(resolve)) => {
            let p = json_parse(cx, json);
            assert(reads_as(c1, text, p, *cx));
            match p {
                Ok(v) => settle_recv(cx, &resolve, v),
                Err(_) => false,
            }
        },
        Ok(None) => true,
        Err(_) => false,
    }
}

/// Whether the pending `recv(timeoutMs)` was rejected with a `TimeoutError`, and
/// the engine took that, or not, as `ok` says. There is nothing to take if none
/// is pending.
pub open spec fn took_timeout<'js>(before: Ctx<'js>, ok: bool, after: Ctx<'js>) -> bool {
    exists|g: Result<Option<Function<'js>>, rquickjs::Error>, c1: Ctx<'js>| #[trigger]
        holds(before, RECV_REJECT@, g, c1) && match g {
            Ok(Some(f)) => exists|p: Result<Value<'js>, rquickjs::Error>, c2: Ctx<'js>| #[trigger]
                evaluates_to(c1, TIMEOUT_SOURCE@, p, c2) && match p {
                    Ok(e) => settles_recv(c2, f, e, ok, after),
                    Err(_) => !ok && after == c2,
                },
            Ok(None) => ok && after == c1,
            Err(_) => !ok && after == c1,
        }
}

/// Rejects the pending `recv(timeoutMs)`. Says whether the engine took it.
fn wake_timeout<'js>(cx: &mut Ctx<'js>) -> (r: bool)
    ensures
        took_timeout(*old(cx), r, *final(cx)),
{
    let g = global_function(cx, RECV_REJECT);
    let ghost c1 = *cx;
    assert(holds(*old(cx), RECV_REJECT@, g, c1));
    match g {
        Ok(Some(reject)) => {
            let p = eval(cx, TIMEOUT_SOURCE.to_owned());
            assert(evaluates_to(c1, TIMEOUT_SOURCE@, p, *cx));
            match p {
                Ok(e) => settle_recv(cx, &reject, e),
                Err(_) => false,
            }
        },
        Ok(None) => true,
        Err(_) => false,
    }
}

/// Whether `f` was called with nothing, and then its global was cleared, and the
/// engine took all of that, or not, as `ok` says.
pub open spec fn settles_with_nothing<'js>(
    before: Ctx<'js>,
    f: Function<'js>,
    name: Seq<char>,
    ok: bool,
    after: Ctx<'js>,
) -> bool {
    exists|v: Value<'js>, r: Result<Value<'js>, rquickjs::Error>, mid: Ctx<'js>|
        {
            &&& script_value(v) is Undefined
            &&& #[trigger] called(before, f, v, r, mid)
            &&& if r is Ok {
                clears(mid, name, ok, after)
            } else {
                !ok && after == mid
            }
        }
}

/// Whether the pending call under a global name was resolved with nothing, and
/// the engine took that, or not, as `ok` says. There is nothing to take if none
/// is pending.
pub open spec fn took_nothing<'js>(
    before: Ctx<'js>,
    name: Seq<char>,
    ok: bool,
    after: Ctx<'js>,
) -> bool {
    exists|g: Result<Option<Function<'js>>, rquickjs::Error>, mid: Ctx<'js>| #[trigger]
        holds(before, name, g, mid) && match g {
            Ok(Some(f)) => settles_with_nothing(mid, f, name, ok, after),
            Ok(None) => ok && after == mid,
            Err(_) => !ok && after == mid,
        }
}

/// Resolves the pending call under a global name with nothing. Says whether the
/// engine took it.
fn wake_empty<'js>(cx: &mut Ctx<'js>, name: &str) -> (r: bool)
    ensures
        took_nothing(*old(cx), name@, r, *final(cx)),
{
    let g = global_function(cx, name);
    let ghost c1 = *cx;
    assert(holds(*old(cx), name@, g, c1));
    match g {
        Ok(Some(resolve)) => {
            let v = undefined(cx);
            let ghost nothing = v;
            let answer = call(cx, &resolve, v);
            assert(called(c1, resolve, nothing, answer, *cx));
            answer.is_ok() && forget(cx, name)
        },
        Ok(None) => true,
        Err(_) => false,
    }
}

/// Resolves the pending `sleep()`. Says whether the engine took it.
fn wake_sleep<'js>(cx: &mut Ctx<'js>) -> (r: bool)
    ensures
        took_nothing(*old(cx), SLEEP_RESOLVE@, r, *final(cx)),
{
    wake_empty(cx, SLEEP_RESOLVE)
}

/// Resolves the pending `yieldNow()`. Says whether the engine took it.
fn wake_yield<'js>(cx: &mut Ctx<'js>) -> (r: bool)
    ensures
        took_nothing(*old(cx), YIELD_RESOLVE@, r, *final(cx)),
{
    wake_empty(cx, YIELD_RESOLVE)
}

/// Whether the script was woken as the start of its slice says, and the engine
/// took that, or not, as `ok` says.
pub open spec fn took<'js>(
    before: Ctx<'js>,
    start: SliceStart,
    ok: bool,
    after: Ctx<'js>,
) -> bool {
    match start {
        SliceStart::Message(json) => took_message(before, json@, ok, after),
        SliceStart::Timeout => took_timeout(before, ok, after),
        SliceStart::Sleep => took_nothing(before, SLEEP_RESOLVE@, ok, after),
        SliceStart::Yield => took_nothing(before, YIELD_RESOLVE@, ok, after),
        _ => ok && after == before,
    }
}

/// Wakes a suspended script as the start of its slice says. Returns what kind
/// of wake that was and whether the engine took it, and nothing if there is
/// nothing to wake.
pub fn wake<'js>(cx: &mut Ctx<'js>, start: SliceStart) -> (r: Option<(WakeKind, bool)>)
    ensures
        match r {
            Some((kind, ok)) => {
                &&& start@.wake_kind() == Some(kind)
                &&& took(*old(cx), start, ok, *final(cx))
            },
            None => start@.wake_kind() is None && *final(cx) == *old(cx),
        },
{
    match start {
        SliceStart::Message(json) => Some((WakeKind::Message, wake_with(cx, json))),
        SliceStart::Timeout => Some((WakeKind::Timeout, wake_timeout(cx))),
        SliceStart::Sleep => Some((WakeKind::Sleep, wake_sleep(cx))),
        SliceStart::Yield => Some((WakeKind::Yield, wake_yield(cx))),
        _ => None,
    }
}

} // verus!
