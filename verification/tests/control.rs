//! The control protocol, byte for byte.

use otter_rt::host::{self, Recv};
use otter_rt::rpc::{
    accept_step, dispatch, frame, handle_line, handle_request, read_request, resolve, serve_step,
    spawn_answer, Accepted, Dispatch, LineAction, Params, Reply, Request, RpcError, ServeStep,
    MAX_CONNECTIONS,
};
use otter_rt::scheduler::{create_root, is_process_alive, process_info, spawn_process};
use otter_rt::world::World;
use serde_json::Value;

fn reply_to(line: &str, w: &mut World) -> Option<String> {
    let mut shutdown = false;
    match handle_line(line, w, &mut shutdown) {
        LineAction::Answer { reply, .. } => reply,
        LineAction::Spawn { .. } => panic!("a spawn"),
    }
}

fn parse(text: &str) -> Value {
    serde_json::from_str(text).unwrap()
}

fn none() -> Params {
    Params { pid: None, name: None, code: None, value: None }
}

#[test]
fn replies_are_lines() {
    let mut w = World::new();
    let pid = create_root(&mut w, "a \"b\"\n\t\u{1}é\\");
    assert_eq!(pid, 0);
    assert_eq!(
        reply_to("{\"id\":1,\"method\":\"count\"}", &mut w),
        Some("{\"id\":1,\"jsonrpc\":\"2.0\",\"result\":1}\n".to_string())
    );
    assert_eq!(
        reply_to("  {\"id\":\"x\",\"method\":\"info\",\"params\":{\"pid\":0}} \r\n", &mut w),
        Some(
            "{\"id\":\"x\",\"jsonrpc\":\"2.0\",\"result\":{\"name\":\"a \\\"b\\\"\\n\\t\\u0001é\\\\\",\"pid\":0,\"status\":\"running\"}}\n"
                .to_string()
        )
    );
    let _ = create_root(&mut w, "b");
    assert_eq!(
        reply_to("{\"id\":null,\"method\":\"list\"}", &mut w),
        Some(
            "{\"id\":null,\"jsonrpc\":\"2.0\",\"result\":[{\"name\":\"a \\\"b\\\"\\n\\t\\u0001é\\\\\",\"pid\":0,\"status\":\"running\"},{\"name\":\"b\",\"pid\":1,\"status\":\"running\"}]}\n"
                .to_string()
        )
    );
}

#[test]
fn parse_errors_are_always_answered() {
    let mut w = World::new();
    let mut shutdown = false;
    for line in ["this is not json\n", "\n", "{\"id\":1", "{} {}"] {
        match handle_line(line, &mut w, &mut shutdown) {
            LineAction::Answer { reply: Some(reply), close } => {
                assert!(!close);
                assert!(reply.starts_with("{\"error\":{\"code\":-32700,\"message\":\"parse error: "));
                assert!(reply.ends_with("\"},\"id\":null,\"jsonrpc\":\"2.0\"}\n"));
                assert_eq!(reply.matches('\n').count(), 1);
            }
            _ => panic!("no reply"),
        }
    }
    assert!(!shutdown);
}

#[test]
fn notifications_are_carried_out_silently() {
    let mut w = World::new();
    let pid = create_root(&mut w, "p.js");
    let line = "{\"method\":\"rename\",\"params\":{\"pid\":0,\"name\":\"quiet\"}}";
    assert_eq!(reply_to(line, &mut w), None);
    assert_eq!(process_info(&w, pid).unwrap().1, "quiet");
    assert_eq!(reply_to("{\"method\":\"no such\"}", &mut w), None);
    assert_eq!(reply_to("[1,2]", &mut w), None);
}

#[test]
fn unknown_methods_are_named() {
    let mut w = World::new();
    assert_eq!(
        reply_to("{\"id\":7,\"method\":\"bogus\"}", &mut w),
        Some(
            "{\"error\":{\"code\":-32601,\"message\":\"method not found: bogus\"},\"id\":7,\"jsonrpc\":\"2.0\"}\n"
                .to_string()
        )
    );
    // A method that is no string counts as none.
    assert_eq!(
        reply_to("{\"id\":7,\"method\":5}", &mut w),
        Some(
            "{\"error\":{\"code\":-32601,\"message\":\"method not found: \"},\"id\":7,\"jsonrpc\":\"2.0\"}\n"
                .to_string()
        )
    );
}

#[test]
fn spawn_requests_name_their_process() {
    let mut w = World::new();
    let mut shutdown = false;
    let line = "{\"id\":3,\"method\":\"spawn\",\"params\":{\"code\":\"await recv();\"}}";
    match handle_line(line, &mut w, &mut shutdown) {
        LineAction::Spawn { id, name, code } => {
            assert_eq!(name, "rpc");
            assert_eq!(code, "await recv();");
            assert_eq!(
                spawn_answer(id, Ok(12)),
                Some("{\"id\":3,\"jsonrpc\":\"2.0\",\"result\":{\"pid\":12}}\n".to_string())
            );
        }
        LineAction::Answer { .. } => panic!("an answer"),
    }
    let line = "{\"id\":4,\"method\":\"spawn\",\"params\":{\"name\":\"x\",\"code\":\"\"}}";
    match handle_line(line, &mut w, &mut shutdown) {
        LineAction::Spawn { id, name, code } => {
            assert_eq!((name.as_str(), code.as_str()), ("x", ""));
            assert_eq!(
                spawn_answer(id, Err("SyntaxError: \"(\"".to_string())),
                Some(
                    "{\"error\":{\"code\":-32000,\"message\":\"SyntaxError: \\\"(\\\"\"},\"id\":4,\"jsonrpc\":\"2.0\"}\n"
                        .to_string()
                )
            );
        }
        LineAction::Answer { .. } => panic!("an answer"),
    }
    for params in ["{\"name\":\"x\"}", "{\"code\":5}", "[]", "null"] {
        let line = format!("{{\"id\":5,\"method\":\"spawn\",\"params\":{params}}}");
        assert_eq!(
            reply_to(&line, &mut w),
            Some(
                "{\"error\":{\"code\":-32602,\"message\":\"missing string `code`\"},\"id\":5,\"jsonrpc\":\"2.0\"}\n"
                    .to_string()
            )
        );
    }
    // A spawn without an id is carried out and not answered.
    let line = "{\"method\":\"spawn\",\"params\":{\"code\":\"1\"}}";
    match handle_line(line, &mut w, &mut shutdown) {
        LineAction::Spawn { id, .. } => assert_eq!(spawn_answer(id, Ok(1)), None),
        LineAction::Answer { .. } => panic!("an answer"),
    }
}

#[test]
fn values_are_sent_as_compact_json() {
    let mut w = World::new();
    let pid = create_root(&mut w, "p.js");
    let line = "{\"id\":1,\"method\":\"send\",\"params\":{\"pid\":0,\"value\":{ \"b\": [1, 2.5, \"x\"], \"a\": null }}}";
    assert_eq!(
        reply_to(line, &mut w),
        Some("{\"id\":1,\"jsonrpc\":\"2.0\",\"result\":true}\n".to_string())
    );
    let _ = reply_to("{\"id\":1,\"method\":\"send\",\"params\":{\"pid\":0}}", &mut w);
    match host::recv(&mut w, pid, None, 0) {
        Ok(Recv::Message(json)) => assert_eq!(json, "{\"a\":null,\"b\":[1,2.5,\"x\"]}"),
        _ => panic!("no message"),
    }
    match host::recv(&mut w, pid, None, 0) {
        Ok(Recv::Message(json)) => assert_eq!(json, "null"),
        _ => panic!("no message"),
    }
}

#[test]
fn requests_without_a_pid_concern_no_process() {
    let mut w = World::new();
    let pid = create_root(&mut w, "p.js");
    for params in ["{}", "{\"pid\":-1}", "{\"pid\":0.5}", "{\"pid\":\"0\"}", "7"] {
        let ask = |method: &str| format!("{{\"id\":0,\"method\":\"{method}\",\"params\":{params}}}");
        let yes = Some("{\"id\":0,\"jsonrpc\":\"2.0\",\"result\":true}\n".to_string());
        let no = Some("{\"id\":0,\"jsonrpc\":\"2.0\",\"result\":false}\n".to_string());
        let null = Some("{\"id\":0,\"jsonrpc\":\"2.0\",\"result\":null}\n".to_string());
        assert_eq!(reply_to(&ask("kill"), &mut w), no);
        assert_eq!(reply_to(&ask("rename"), &mut w), no);
        assert_eq!(reply_to(&ask("info"), &mut w), null);
        assert_eq!(reply_to(&ask("send"), &mut w), yes);
    }
    assert_eq!(process_info(&w, pid), Some((0, "p.js".to_string(), "running")));
    assert!(matches!(host::recv(&mut w, pid, None, 0), Ok(Recv::Wait)));
    let _ = spawn_process(&mut w, pid, Ok(()));
    assert_eq!(
        reply_to("{\"id\":0,\"method\":\"kill\",\"params\":{\"pid\":0}}", &mut w),
        Some("{\"id\":0,\"jsonrpc\":\"2.0\",\"result\":true}\n".to_string())
    );
    assert!(!is_process_alive(&w, pid));
}

#[test]
fn shutdown_closes_the_connection() {
    let mut w = World::new();
    let mut shutdown = false;
    match handle_line("{\"id\":9,\"method\":\"shutdown\"}\n", &mut w, &mut shutdown) {
        LineAction::Answer { reply, close } => {
            assert_eq!(
                reply,
                Some("{\"id\":9,\"jsonrpc\":\"2.0\",\"result\":true}\n".to_string())
            );
            assert!(close);
        }
        LineAction::Spawn { .. } => panic!("a spawn"),
    }
    assert!(shutdown);
    // Nothing takes it back.
    let _ = handle_line("{\"id\":9,\"method\":\"count\"}\n", &mut w, &mut shutdown);
    assert!(shutdown);
}

#[test]
fn requests_are_read_leniently() {
    let r = read_request(&parse(
        "{\"id\":[1],\"method\":\"m\",\"params\":{\"pid\":18446744073709551615,\"name\":\"n\",\"code\":1,\"value\":[ ]}}",
    ));
    assert_eq!(r.id, Some(parse("[1]")));
    assert_eq!(r.method, "m");
    assert_eq!(r.params.pid, Some(u64::MAX));
    assert_eq!(r.params.name, Some("n".to_string()));
    assert_eq!(r.params.code, None);
    assert_eq!(r.params.value, Some("[]".to_string()));
    let r = read_request(&parse("{\"id\":null}"));
    assert_eq!(r.id, Some(Value::Null));
    assert_eq!(r.method, "");
    let r = read_request(&parse("\"id\""));
    assert!(r.id.is_none());
}

#[test]
fn requests_are_handled_without_a_wire() {
    let mut w = World::new();
    let mut shutdown = false;
    let request = Request { id: Some(Value::from(2u64)), method: "count".to_string(), params: none() };
    match handle_request(request, &mut w, &mut shutdown) {
        LineAction::Answer { reply, close } => {
            assert_eq!(
                reply,
                Some("{\"id\":2,\"jsonrpc\":\"2.0\",\"result\":0}\n".to_string())
            );
            assert!(!close);
        }
        LineAction::Spawn { .. } => panic!("a spawn"),
    }
    assert!(matches!(
        dispatch("kill", &none(), &mut w, &mut shutdown),
        Dispatch::Answer(Ok(Reply::Flag(false)))
    ));
    assert!(!shutdown);
    assert!(matches!(
        dispatch("shutdown", &none(), &mut w, &mut shutdown),
        Dispatch::Answer(Ok(Reply::Flag(true)))
    ));
    assert!(shutdown);
}

#[test]
fn envelopes_hold_a_result_or_an_error() {
    let v = resolve(Value::Null, &Ok(Reply::Null));
    assert_eq!(frame(&v), "{\"id\":null,\"jsonrpc\":\"2.0\",\"result\":null}\n");
    let v = resolve(
        Value::from("id"),
        &Err(RpcError { code: -1, message: "m\nn".to_string() }),
    );
    assert_eq!(
        frame(&v),
        "{\"error\":{\"code\":-1,\"message\":\"m\\nn\"},\"id\":\"id\",\"jsonrpc\":\"2.0\"}\n"
    );
}

#[test]
fn the_accept_loop_is_bounded() {
    assert_eq!(serve_step(true, 0), ServeStep::Stop);
    assert_eq!(serve_step(true, MAX_CONNECTIONS), ServeStep::Stop);
    assert_eq!(serve_step(false, MAX_CONNECTIONS), ServeStep::Pause);
    assert_eq!(serve_step(false, 255), ServeStep::Accept);
    assert_eq!(serve_step(false, 0), ServeStep::Accept);
    assert_eq!(accept_step(Accepted::Connection), ServeStep::Serve);
    assert_eq!(accept_step(Accepted::WouldBlock), ServeStep::Pause);
    assert_eq!(accept_step(Accepted::Error), ServeStep::Fail);
}
