//! Script values, with a real engine.

use otter_rt::engine::{
    define_errors, describe, describe_catch, entry_hook, error_class_source, fmt_value,
    js_named_error, js_type_error, log_line, message_payload, permission_error, policy_toggle,
    raise, resolve_recv, restrict_pid, spawn_toggle, start_entry, stash_recv, stash_sleep,
    stash_yield, wake, RECV_REJECT, SLEEP_RESOLVE,
};
use otter_rt::process::{JsError, WakeKind};
use otter_rt::scheduler::{Payload, SliceStart};
use rquickjs::{Context, Ctx, Function, Runtime, Value};

fn with_engine(f: impl FnOnce(Ctx<'_>)) {
    let rt = Runtime::new().unwrap();
    let ctx = Context::full(&rt).unwrap();
    ctx.with(|mut cx| {
        define_errors(&mut cx).unwrap();
        f(cx)
    });
}

fn value<'js>(cx: &Ctx<'js>, source: &str) -> Value<'js> {
    cx.eval(source).unwrap()
}

fn show(cx: &mut Ctx<'_>, source: &str) -> String {
    let v = value(cx, source);
    fmt_value(cx, &v).unwrap()
}

#[test]
fn script_values_are_rendered() {
    with_engine(|mut cx| {
        assert_eq!(show(&mut cx, "undefined"), "undefined");
        assert_eq!(show(&mut cx, "'a b'"), "a b");
        assert_eq!(show(&mut cx, "'hello'"), "hello");
        assert_eq!(show(&mut cx, "({x: [1, 'y', null]})"), "{\"x\":[1,\"y\",null]}");
        assert_eq!(show(&mut cx, "({ x: 1 })"), "{\"x\":1}");
        assert_eq!(show(&mut cx, "null"), "null");
        assert_eq!(show(&mut cx, "2.5"), "2.5");
        assert_eq!(show(&mut cx, "['a']"), "[\"a\"]");
        assert_eq!(show(&mut cx, "(function(){})"), "undefined");
        assert_eq!(show(&mut cx, "({toJSON() { return 'custom'; }})"), "\"custom\"");
        assert_eq!(show(&mut cx, "'\\u{1F600}'"), "\u{1F600}");
        let cycle = value(&cx, "(() => { const o = {}; o.o = o; return o; })()");
        assert!(fmt_value(&mut cx, &cycle).is_err());
        // A string in which a surrogate stands alone is no text.
        let broken = value(&cx, "'\\uD800'");
        assert!(fmt_value(&mut cx, &broken).is_err());
    });
}

#[test]
fn log_lines_join_their_arguments() {
    with_engine(|mut cx| {
        let args = vec![value(&cx, "'n:'"), value(&cx, "1"), value(&cx, "undefined")];
        assert_eq!(log_line(&mut cx, 4, &args).unwrap(), "[pid 4] n: 1 undefined");
        assert_eq!(log_line(&mut cx, 4, &vec![]).unwrap(), "[pid 4] ");
        let bad = vec![value(&cx, "'ok'"), value(&cx, "10n"), value(&cx, "1")];
        assert!(log_line(&mut cx, 4, &bad).is_err());
    });
}

#[test]
fn payloads_are_json_or_refused() {
    with_engine(|mut cx| {
        let mut of = |source: &str| {
            let v = value(&cx, source);
            message_payload(&mut cx, &v)
        };
        assert!(matches!(of("undefined"), Ok(Payload::Undefined)));
        assert!(matches!(of("(() => 1)"), Ok(Payload::Function)));
        assert!(matches!(of("(class {})"), Ok(Payload::Function)));
        assert!(matches!(of("Symbol('s')"), Ok(Payload::Symbol)));
        match of("({a: 1})") {
            Ok(Payload::Json(Some(json))) => assert_eq!(json, "{\"a\":1}"),
            _ => panic!("no text"),
        }
        match of("'\\n'") {
            Ok(Payload::Json(Some(json))) => assert_eq!(json, "\"\\n\""),
            _ => panic!("no text"),
        }
        assert!(matches!(of("({toJSON() { return undefined; }})"), Ok(Payload::Json(None))));
        assert!(of("10n").is_err());
    });
}

/// Class and message of the pending exception.
fn caught(cx: &Ctx<'_>) -> (String, String) {
    let e = cx.catch();
    cx.globals().set("caught", e).unwrap();
    (
        cx.eval("caught.constructor.name").unwrap(),
        cx.eval("caught.message").unwrap(),
    )
}

fn pair(a: &str, b: &str) -> (String, String) {
    (a.to_string(), b.to_string())
}

#[test]
fn raised_errors_are_what_scripts_catch() {
    with_engine(|mut cx| {
        let e = js_type_error(&mut cx, "say \"hi\"\n\\");
        assert!(matches!(e, rquickjs::Error::Exception));
        assert_eq!(caught(&cx), pair("TypeError", "say \"hi\"\n\\"));
        let _ = permission_error(&mut cx, "no");
        assert_eq!(caught(&cx), pair("PermissionError", "no"));
        let _ = js_named_error(&mut cx, "TypeError", "x");
        assert_eq!(caught(&cx), pair("TypeError", "x"));
        let _ = js_named_error(&mut cx, "RangeError", "y");
        assert_eq!(caught(&cx), pair("RangeError", "y"));
        let _ = raise(&mut cx, &JsError::permission("stop"));
        assert_eq!(caught(&cx), pair("PermissionError", "stop"));
        let _ = raise(&mut cx, &JsError::type_error("bad"));
        assert_eq!(caught(&cx), pair("TypeError", "bad"));
        // A class that is not there leaves an error that carries the message.
        let e = js_named_error(&mut cx, "NoSuchError", "lost");
        assert!(format!("{e}").contains("lost"));
        let _ = cx.catch();
    });
}

#[test]
fn error_classes_are_errors_with_a_name() {
    assert_eq!(
        error_class_source("TimeoutError"),
        "var TimeoutError = class extends Error { constructor(msg) { super(msg); this.name = 'TimeoutError'; } };"
    );
    with_engine(|mut cx| {
        for class in ["TimeoutError", "PermissionError"] {
            let source = format!("(() => {{ const e = new {class}('m'); return [e instanceof Error, e instanceof {class}, e.name, e.message]; }})()");
            assert_eq!(show(&mut cx, &source), format!("[true,true,\"{class}\",\"m\"]"));
        }
    });
}

#[test]
fn exceptions_are_described() {
    with_engine(|mut cx| {
        assert!(cx.eval::<(), _>("throw new RangeError('boom')").is_err());
        assert!(describe_catch(&mut cx).starts_with("RangeError: boom\n"));
        assert!(cx.eval::<(), _>("throw 'boom'").is_err());
        assert_eq!(describe_catch(&mut cx), "boom");
        assert!(cx.eval::<(), _>("throw null").is_err());
        assert_eq!(describe_catch(&mut cx), "unknown error");
        assert!(cx.eval::<(), _>("throw undefined").is_err());
        assert_eq!(describe_catch(&mut cx), "unknown error");
        let v = value(&cx, "({toString() { throw 1; }})");
        assert_eq!(describe(&mut cx, v), "unknown error");
        let v = value(&cx, "42");
        assert_eq!(describe(&mut cx, v), "42");
    });
}

#[test]
fn options_are_read_from_objects() {
    with_engine(|mut cx| {
        assert_eq!(policy_toggle(&mut cx, &None).unwrap(), None);
        for (source, toggle) in [
            ("5", None),
            ("({})", None),
            ("({canSpawnAndKill: null})", None),
            ("({canSpawnAndKill: false})", Some(false)),
            ("({canSpawnAndKill: true})", Some(true)),
        ] {
            let arg = Some(value(&cx, source));
            assert_eq!(policy_toggle(&mut cx, &arg).unwrap(), toggle);
        }
        let arg = Some(value(&cx, "({canSpawnAndKill: 'no'})"));
        assert!(policy_toggle(&mut cx, &arg).is_err());

        assert_eq!(spawn_toggle(&mut cx, &None).unwrap(), None);
        for (source, toggle) in [
            ("'x'", None),
            ("({sandbox: 1})", None),
            ("({sandbox: {unknownKey: 1}})", None),
            ("({sandbox: {canSpawnAndKill: false}})", Some(false)),
        ] {
            let arg = Some(value(&cx, source));
            assert_eq!(spawn_toggle(&mut cx, &arg).unwrap(), toggle);
        }
        let arg = Some(value(&cx, "({get sandbox() { throw 1; }})"));
        assert!(spawn_toggle(&mut cx, &arg).is_err());
        let _ = cx.catch();

        assert_eq!(restrict_pid(&mut cx, &None).unwrap(), None);
        let arg = Some(value(&cx, "({})"));
        assert_eq!(restrict_pid(&mut cx, &arg).unwrap(), None);
        let arg = Some(value(&cx, "({pid: 7})"));
        assert_eq!(restrict_pid(&mut cx, &arg).unwrap(), Some(7));
        let arg = Some(value(&cx, "({pid: 'x'})"));
        assert!(restrict_pid(&mut cx, &arg).is_err());
    });
}

#[test]
fn wakes_settle_the_pending_call_once() {
    with_engine(|mut cx| {
        cx.eval::<(), _>("var log = [];").unwrap();
        let resolve = value(&cx, "(v) => log.push(['message', v.x])");
        let reject = value(&cx, "(e) => log.push(['timeout', e instanceof TimeoutError])");
        stash_recv(&mut cx, resolve, reject).unwrap();
        let resolve = value(&cx, "(v) => log.push(['sleep', typeof v])");
        stash_sleep(&mut cx, resolve).unwrap();
        let resolve = value(&cx, "() => log.push(['yield'])");
        stash_yield(&mut cx, resolve).unwrap();
        let log = "log.splice(0)";
        assert_eq!(wake(&mut cx, SliceStart::Run), None);
        assert_eq!(wake(&mut cx, SliceStart::Gone), None);
        assert_eq!(wake(&mut cx, SliceStart::Parked), None);
        assert_eq!(wake(&mut cx, SliceStart::Sleep), Some((WakeKind::Sleep, true)));
        assert_eq!(show(&mut cx, log), "[[\"sleep\",\"undefined\"]]");
        assert_eq!(wake(&mut cx, SliceStart::Yield), Some((WakeKind::Yield, true)));
        assert_eq!(show(&mut cx, log), "[[\"yield\"]]");
        // A text that is no JSON is not delivered.
        let start = SliceStart::Message("{".to_string());
        assert_eq!(wake(&mut cx, start), Some((WakeKind::Message, false)));
        let _ = cx.catch();
        let start = SliceStart::Message("{\"x\":3}".to_string());
        assert_eq!(wake(&mut cx, start), Some((WakeKind::Message, true)));
        assert_eq!(show(&mut cx, log), "[[\"message\",3]]");
        // Nothing is pending any more.
        assert_eq!(wake(&mut cx, SliceStart::Timeout), Some((WakeKind::Timeout, true)));
        assert_eq!(wake(&mut cx, SliceStart::Sleep), Some((WakeKind::Sleep, true)));
        assert_eq!(show(&mut cx, log), "[]");
        let reject = value(&cx, "(e) => log.push(['timeout', e instanceof TimeoutError])");
        cx.globals().set(RECV_REJECT, reject).unwrap();
        assert_eq!(wake(&mut cx, SliceStart::Timeout), Some((WakeKind::Timeout, true)));
        assert_eq!(show(&mut cx, log), "[[\"timeout\",true]]");
        // A resolver that throws is a wake that failed.
        let resolve = value(&cx, "() => { throw 1; }");
        cx.globals().set(SLEEP_RESOLVE, resolve).unwrap();
        assert_eq!(wake(&mut cx, SliceStart::Sleep), Some((WakeKind::Sleep, false)));
    });
}

#[test]
fn an_answered_recv_is_resolved_at_once() {
    with_engine(|mut cx| {
        let resolve: Function = cx.eval("var got = null; (v) => { got = v; }").unwrap();
        assert!(resolve_recv(&mut cx, &resolve, "{\"n\":[1]}".to_string()).is_ok());
        assert_eq!(show(&mut cx, "got"), "{\"n\":[1]}");
        assert!(resolve_recv(&mut cx, &resolve, "{".to_string()).is_err());
        let _ = cx.catch();
        assert_eq!(show(&mut cx, "got"), "{\"n\":[1]}");
        let bad: Function = cx.eval("() => { throw 1; }").unwrap();
        assert!(resolve_recv(&mut cx, &bad, "1".to_string()).is_err());
    });
}

/// What the hook of an entry script logs, once all jobs are done.
fn ending(source: &str) -> (Result<(), String>, String) {
    let rt = Runtime::new().unwrap();
    let ctx = Context::full(&rt).unwrap();
    let started = ctx.with(|mut cx| {
        cx.eval::<(), _>(
            "var log = []; var __otter_done = () => log.push('done'); var __otter_error = (m) => log.push(m.split('\\n')[0]);",
        )
        .unwrap();
        start_entry(&mut cx, "entry.js", source)
    });
    while rt.is_job_pending() {
        let _ = rt.execute_pending_job();
    }
    (started, ctx.with(|mut cx| show(&mut cx, "log")))
}

#[test]
fn entry_scripts_are_started_and_hooked() {
    let hook = entry_hook();
    assert!(hook.starts_with("__otter_entry.then(() => __otter_done(), (e) => __otter_error((function(e){"));
    assert!(hook.ends_with("})(e)));"));
    assert_eq!(ending("1 + 1"), (Ok(()), "[\"done\"]".to_string()));
    assert_eq!(ending("await Promise.resolve(1);"), (Ok(()), "[\"done\"]".to_string()));
    assert_eq!(
        ending("throw new Error('boom');"),
        (Ok(()), "[\"Error: boom\"]".to_string())
    );
    assert_eq!(
        ending("await null; throw 'late';"),
        (Ok(()), "[\"late\"]".to_string())
    );
    let (started, log) = ending("let let = (;");
    assert!(started.unwrap_err().starts_with("SyntaxError: "));
    assert_eq!(log, "[]");
}
