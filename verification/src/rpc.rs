//! The control protocol: JSON-RPC 2.0 requests, one per line.
//!
//! Reading lines and writing replies is left to the caller, and so is the
//! evaluation of the entry script of a process that a client spawns.

use serde_json::Value;
use vstd::prelude::*;

use crate::json::{
    array_text, array_value, as_string, as_u64, bool_value, copy_value, i64_value, integer,
    json_member, json_parsed, json_text, member, member_texts, null_value, object_text,
    object_value, parse, quote, str_value, string_of, to_text, u64_of, u64_value,
};
use crate::model::WorldView;
use crate::process::Pid;
use crate::scheduler::{
    deliver_json_string, is_info, is_listing, is_process_alive, kill_process, list_processes,
    process_count, process_info, set_process_name,
};
use crate::text::{opt_text, same_text, trim, trim_end, trim_start};
use crate::world::World;

verus! {

/// The parameters of a request, as far as they are given with the right type.
pub struct Params {
    pub pid: Option<u64>,
    pub name: Option<String>,
    pub code: Option<String>,
    /// The JSON text of any value.
    pub value: Option<String>,
}

/// The mathematical content of [`Params`].
#[verifier::ext_equal]
pub struct ParamsView {
    pub pid: Option<u64>,
    pub name: Option<Seq<char>>,
    pub code: Option<Seq<char>>,
    pub value: Option<Seq<char>>,
}

impl View for Params {
    type V = ParamsView;

    open spec fn view(&self) -> ParamsView {
        ParamsView {
            pid: self.pid,
            name: opt_text(self.name),
            code: opt_text(self.code),
            value: opt_text(self.value),
        }
    }
}

/// A request of a control client.
pub struct Request {
    /// Echoed in the reply. A request without one is a notification and gets
    /// no reply.
    pub id: Option<Value>,
    pub method: String,
    pub params: Params,
}

/// The text of an optional value.
pub open spec fn opt_json(v: Option<Value>) -> Option<Seq<char>> {
    match v {
        Some(v) => Some(json_text(v)),
        None => None,
    }
}

impl ParamsView {
    pub open spec fn none() -> ParamsView {
        ParamsView { pid: None, name: None, code: None, value: None }
    }

    /// The parameters that the value with the given JSON text holds.
    pub open spec fn of(text: Seq<char>) -> ParamsView {
        ParamsView {
            pid: match json_member(text, "pid"@) {
                Some(m) => u64_of(m),
                None => None,
            },
            name: string_member(text, "name"@),
            code: string_member(text, "code"@),
            value: json_member(text, "value"@),
        }
    }
}

/// The string member `key` of the value with the given JSON text.
pub open spec fn string_member(text: Seq<char>, key: Seq<char>) -> Option<Seq<char>> {
    match json_member(text, key) {
        Some(m) => string_of(m),
        None => None,
    }
}

impl Request {
    /// Whether this is the request with the given JSON text.
    pub open spec fn reads(self, text: Seq<char>) -> bool {
        &&& opt_json(self.id) == json_member(text, "id"@)
        &&& self.method@ == method_of(text)
        &&& self.params@ == params_of(text)
    }
}

/// The method of the request with the given JSON text: empty if it names none.
pub open spec fn method_of(text: Seq<char>) -> Seq<char> {
    match string_member(text, "method"@) {
        Some(m) => m,
        None => ""@,
    }
}

/// The parameters of the request with the given JSON text.
pub open spec fn params_of(text: Seq<char>) -> ParamsView {
    match json_member(text, "params"@) {
        Some(p) => ParamsView::of(p),
        None => ParamsView::none(),
    }
}

fn read_string(v: &Value, key: &str) -> (r: Option<String>)
    ensures
        opt_text(r) == string_member(json_text(*v), key@),
{
    match member(v, key) {
        Some(m) => as_string(m),
        None => None,
    }
}

/// Reads the parameters out of a value.
fn read_params(v: &Value) -> (r: Params)
    ensures
        r@ == ParamsView::of(json_text(*v)),
{
    let pid: Option<u64> = match member(v, "pid") {
        Some(m) => as_u64(m),
        None => None,
    };
    let value = match member(v, "value") {
        Some(m) => Some(to_text(m)),
        None => None,
    };
    Params { pid, name: read_string(v, "name"), code: read_string(v, "code"), value }
}

/// Reads a request out of a value. Anything that is missing, or of the wrong
/// type, counts as not given.
pub fn read_request(v: &Value) -> (r: Request)
    ensures
        r.reads(json_text(*v)),
{
    let id = match member(v, "id") {
        Some(m) => Some(copy_value(m)),
        None => None,
    };
    let method = match read_string(v, "method") {
        Some(m) => m,
        None => "".to_owned(),
    };
    let params = match member(v, "params") {
        Some(p) => read_params(p),
        None => Params { pid: None, name: None, code: None, value: None },
    };
    Request { id, method, params }
}

/// What a method answers.
pub enum Reply {
    Null,
    Flag(bool),
    Count(u64),
    /// The pid of a new process.
    Spawned(Pid),
    Info((Pid, String, &'static str)),
    List(Vec<(Pid, String, &'static str)>),
}

/// Why a request was refused.
pub struct RpcError {
    pub code: i64,
    pub message: String,
}

/// What a request leads to.
pub enum Dispatch {
    /// It is answered.
    Answer(Result<Reply, RpcError>),
    /// A privileged process is to be spawned; [`spawn_answer`] then gives the
    /// answer.
    Spawn { name: String, code: String },
}

/// No such method.
pub const METHOD_NOT_FOUND: i64 = -32601;

/// A required parameter is missing.
pub const INVALID_PARAMS: i64 = -32602;

/// The line is no JSON text.
pub const PARSE_ERROR: i64 = -32700;

/// The process could not be created.
pub const SPAWN_FAILED: i64 = -32000;

impl RpcError {
    /// Whether this is the error with the given code and message.
    pub open spec fn is(self, code: i64, message: Seq<char>) -> bool {
        self.code == code && self.message@ == message
    }
}

impl ParamsView {
    /// The process that a request is about. A request that names none is about
    /// a pid that is never handed out.
    pub open spec fn target(self) -> Pid {
        match self.pid {
            Some(pid) => pid,
            None => u64::MAX,
        }
    }

    /// The JSON text to send: `null` if none is given.
    pub open spec fn payload(self) -> Seq<char> {
        match self.value {
            Some(v) => v,
            None => "null"@,
        }
    }

    /// The new name in a `rename`.
    pub open spec fn new_name(self) -> Seq<char> {
        match self.name {
            Some(n) => n,
            None => ""@,
        }
    }

    /// The name of a process that a client spawns.
    pub open spec fn spawn_name(self) -> Seq<char> {
        match self.name {
            Some(n) => n,
            None => "rpc"@,
        }
    }
}

/// What a request does to the world.
pub open spec fn dispatched(w: WorldView, method: Seq<char>, params: ParamsView) -> WorldView {
    let pid = params.target();
    if method == "kill"@ {
        w.killed(pid)
    } else if method == "send"@ {
        w.delivered(pid, params.payload())
    } else if method == "rename"@ {
        w.renamed(pid, params.new_name())
    } else {
        w
    }
}

/// Whether `d` is what a request to the world `w` leads to.
pub open spec fn is_dispatch(
    d: Dispatch,
    w: WorldView,
    method: Seq<char>,
    params: ParamsView,
) -> bool {
    let pid = params.target();
    if method == "list"@ {
        d matches Dispatch::Answer(Ok(Reply::List(l))) && is_listing(l@, w)
    } else if method == "count"@ {
        d matches Dispatch::Answer(Ok(Reply::Count(n))) && n == w.processes.dom().len()
    } else if method == "info"@ {
        if w.alive(pid) {
            d matches Dispatch::Answer(Ok(Reply::Info(info))) && info.0 == pid && is_info(info, w)
        } else {
            d matches Dispatch::Answer(Ok(Reply::Null))
        }
    } else if method == "spawn"@ {
        match params.code {
            Some(code) => d matches Dispatch::Spawn { name: n, code: c } && c@ == code && n@
                == params.spawn_name(),
            None => d matches Dispatch::Answer(Err(e)) && e.is(
                INVALID_PARAMS,
                "missing string `code`"@,
            ),
        }
    } else if method == "kill"@ || method == "rename"@ {
        d matches Dispatch::Answer(Ok(Reply::Flag(b))) && b == w.alive(pid)
    } else if method == "send"@ || method == "shutdown"@ {
        d matches Dispatch::Answer(Ok(Reply::Flag(b))) && b
    } else {
        d matches Dispatch::Answer(Err(e)) && e.is(
            METHOD_NOT_FOUND,
            "method not found: "@ + method,
        )
    }
}

/// Carries out a request, except for the evaluation of scripts.
pub fn dispatch(method: &str, params: &Params, world: &mut World, shutdown: &mut bool) -> (r:
    Dispatch)
    requires
        old(world).wf(),
    ensures
        final(world).wf(),
        final(world)@ == dispatched(old(world)@, method@, params@),
        is_dispatch(r, old(world)@, method@, params@),
        *final(shutdown) == (*old(shutdown) || method@ == "shutdown"@),
{
    proof {
        lemma_methods_distinct();
    }
    let pid: Pid = match params.pid {
        Some(pid) => pid,
        None => u64::MAX,
    };
    if same_text(method, "list") {
        Dispatch::Answer(Ok(Reply::List(list_processes(world))))
    } else if same_text(method, "count") {
        Dispatch::Answer(Ok(Reply::Count(process_count(world) as u64)))
    } else if same_text(method, "info") {
        match process_info(world, pid) {
            Some(info) => Dispatch::Answer(Ok(Reply::Info(info))),
            None => Dispatch::Answer(Ok(Reply::Null)),
        }
    } else if same_text(method, "spawn") {
        match &params.code {
            Some(code) => {
                let name = match &params.name {
                    Some(name) => name.clone(),
                    None => "rpc".to_owned(),
                };
                Dispatch::Spawn { name, code: code.clone() }
            },
            None => Dispatch::Answer(
                Err(
                    RpcError {
                        code: INVALID_PARAMS,
                        message: "missing string `code`".to_owned(),
                    },
                ),
            ),
        }
    } else if same_text(method, "kill") {
        Dispatch::Answer(Ok(Reply::Flag(kill_process(world, pid))))
    } else if same_text(method, "send") {
        let json = match &params.value {
            Some(json) => json.clone(),
            None => "null".to_owned(),
        };
        deliver_json_string(world, pid, json);
        Dispatch::Answer(Ok(Reply::Flag(true)))
    } else if same_text(method, "rename") {
        let name = match &params.name {
            Some(name) => name.clone(),
            None => "".to_owned(),
        };
        if is_process_alive(world, pid) {
            set_process_name(world, pid, name);
            Dispatch::Answer(Ok(Reply::Flag(true)))
        } else {
            Dispatch::Answer(Ok(Reply::Flag(false)))
        }
    } else if same_text(method, "shutdown") {
        *shutdown = true;
        Dispatch::Answer(Ok(Reply::Flag(true)))
    } else {
        let mut message = "method not found: ".to_owned();
        message.append(method);
        Dispatch::Answer(Err(RpcError { code: METHOD_NOT_FOUND, message }))
    }
}

/// No two methods have the same name.
pub proof fn lemma_methods_distinct()
    ensures
        "list"@ != "count"@,
        "list"@ != "info"@,
        "list"@ != "spawn"@,
        "list"@ != "kill"@,
        "list"@ != "send"@,
        "list"@ != "rename"@,
        "list"@ != "shutdown"@,
        "count"@ != "info"@,
        "count"@ != "spawn"@,
        "count"@ != "kill"@,
        "count"@ != "send"@,
        "count"@ != "rename"@,
        "count"@ != "shutdown"@,
        "info"@ != "spawn"@,
        "info"@ != "kill"@,
        "info"@ != "send"@,
        "info"@ != "rename"@,
        "info"@ != "shutdown"@,
        "spawn"@ != "kill"@,
        "spawn"@ != "send"@,
        "spawn"@ != "rename"@,
        "spawn"@ != "shutdown"@,
        "kill"@ != "send"@,
        "kill"@ != "rename"@,
        "kill"@ != "shutdown"@,
        "send"@ != "rename"@,
        "send"@ != "shutdown"@,
        "rename"@ != "shutdown"@,
{
    reveal_strlit("list");
    reveal_strlit("count");
    reveal_strlit("info");
    reveal_strlit("spawn");
    reveal_strlit("kill");
    reveal_strlit("send");
    reveal_strlit("rename");
    reveal_strlit("shutdown");
    assert("list"@[0] == 'l' && "kill"@[0] == 'k' && "send"@[0] == 's' && "info"@[0] == 'i');
    assert("count"@.len() == 5 && "spawn"@.len() == 5 && "count"@[0] == 'c' && "spawn"@[0] == 's');
    assert("rename"@.len() == 6 && "shutdown"@.len() == 8);
}

/// The JSON text that tells about a process.
pub open spec fn info_text(info: (Pid, String, &'static str)) -> Seq<char> {
    object_text(
        seq![
            ("name"@, quote(info.1@)),
            ("pid"@, integer(info.0 as int)),
            ("status"@, quote(info.2@)),
        ],
    )
}

/// The JSON text of an answer.
pub open spec fn reply_text(reply: Reply) -> Seq<char> {
    match reply {
        Reply::Null => "null"@,
        Reply::Flag(b) => if b {
            "true"@
        } else {
            "false"@
        },
        Reply::Count(n) => integer(n as int),
        Reply::Spawned(pid) => object_text(seq![("pid"@, integer(pid as int))]),
        Reply::Info(info) => info_text(info),
        Reply::List(l) => array_text(
            l@.map_values(|info: (Pid, String, &'static str)| info_text(info)),
        ),
    }
}

/// The JSON text of an error.
pub open spec fn error_text(e: RpcError) -> Seq<char> {
    object_text(seq![("code"@, integer(e.code as int)), ("message"@, quote(e.message@))])
}

/// The JSON text of a response: the id of the request, and either a result or
/// an error.
pub open spec fn response_text(id: Seq<char>, answer: Result<Reply, RpcError>) -> Seq<char> {
    let version = ("jsonrpc"@, quote("2.0"@));
    match answer {
        Ok(reply) => object_text(seq![("id"@, id), version, ("result"@, reply_text(reply))]),
        Err(e) => object_text(seq![("error"@, error_text(e)), ("id"@, id), version]),
    }
}

fn info_value(info: &(Pid, String, &'static str)) -> (r: Value)
    ensures
        json_text(r) == info_text(*info),
{
    let members = vec![
        ("name", str_value(info.1.as_str())),
        ("pid", u64_value(info.0)),
        ("status", str_value(info.2)),
    ];
    proof {
        reveal_strlit("name");
        reveal_strlit("pid");
        reveal_strlit("status");
        assert(member_texts(members@) =~= seq![
            ("name"@, quote(info.1@)),
            ("pid"@, integer(info.0 as int)),
            ("status"@, quote(info.2@)),
        ]);
    }
    object_value(members)
}

fn reply_value(reply: &Reply) -> (r: Value)
    ensures
        json_text(r) == reply_text(*reply),
{
    match reply {
        Reply::Null => null_value(),
        Reply::Flag(b) => bool_value(*b),
        Reply::Count(n) => u64_value(*n),
        Reply::Spawned(pid) => {
            let members = vec![("pid", u64_value(*pid))];
            proof {
                reveal_strlit("pid");
                assert(member_texts(members@) =~= seq![("pid"@, integer(*pid as int))]);
            }
            object_value(members)
        },
        Reply::Info(info) => info_value(info),
        Reply::List(l) => {
            let mut items: Vec<Value> = Vec::new();
            let mut i: usize = 0;
            while i < l.len()
                invariant
                    i <= l.len(),
                    items.len() == i,
                    forall|j: int| 0 <= j < i ==> json_text(#[trigger] items[j]) == info_text(l[j]),
                decreases l.len() - i,
            {
                items.push(info_value(&l[i]));
                i = i + 1;
            }
            assert(items@.map_values(|v: Value| json_text(v)) =~= l@.map_values(
                |info: (Pid, String, &'static str)| info_text(info),
            ));
            array_value(items)
        },
    }
}

/// Wraps an answer in a response envelope.
pub fn resolve(id: Value, answer: &Result<Reply, RpcError>) -> (r: Value)
    ensures
        json_text(r) == response_text(json_text(id), *answer),
{
    proof {
        reveal_strlit("error");
        reveal_strlit("id");
        reveal_strlit("jsonrpc");
        reveal_strlit("result");
        reveal_strlit("code");
        reveal_strlit("message");
    }
    let version = str_value("2.0");
    match answer {
        Ok(reply) => {
            let members = vec![("id", id), ("jsonrpc", version), ("result", reply_value(reply))];
            assert(member_texts(members@) =~= seq![
                ("id"@, json_text(id)),
                ("jsonrpc"@, quote("2.0"@)),
                ("result"@, reply_text(*reply)),
            ]);
            object_value(members)
        },
        Err(e) => {
            let error = vec![
                ("code", i64_value(e.code)),
                ("message", str_value(e.message.as_str())),
            ];
            assert(member_texts(error@) =~= seq![
                ("code"@, integer(e.code as int)),
                ("message"@, quote(e.message@)),
            ]);
            let members = vec![("error", object_value(error)), ("id", id), ("jsonrpc", version)];
            assert(member_texts(members@) =~= seq![
                ("error"@, error_text(*e)),
                ("id"@, json_text(id)),
                ("jsonrpc"@, quote("2.0"@)),
            ]);
            object_value(members)
        },
    }
}

/// Whether `line` is the text followed by a line break, and has no other.
pub open spec fn is_line(line: Seq<char>, text: Seq<char>) -> bool {
    line == text.push('\n') && !text.contains('\n')
}

/// The line that carries a value.
pub fn frame(v: &Value) -> (r: String)
    ensures
        is_line(r@, json_text(*v)),
{
    let mut line = to_text(v);
    line.append("\n");
    proof {
        reveal_strlit("\n");
        assert(line@ =~= json_text(*v).push('\n'));
    }
    line
}

/// Whether `r` is the reply line to a request with this id: none to a
/// notification.
pub open spec fn is_response(
    r: Option<String>,
    id: Option<Seq<char>>,
    answer: Result<Reply, RpcError>,
) -> bool {
    match id {
        Some(id) => r matches Some(line) && is_line(line@, response_text(id, answer)),
        None => r is None,
    }
}

fn respond(id: Option<Value>, answer: &Result<Reply, RpcError>) -> (r: Option<String>)
    ensures
        is_response(r, opt_json(id), *answer),
{
    match id {
        Some(id) => Some(frame(&resolve(id, answer))),
        None => None,
    }
}

/// What is to be done about a line that a client sent.
pub enum LineAction {
    /// Send the reply, if there is one, and close the connection if told so.
    Answer { reply: Option<String>, close: bool },
    /// Spawn a privileged process, then send what [`spawn_answer`] says.
    Spawn { id: Option<Value>, name: String, code: String },
}

/// Whether `a` is what a request to the world `w` demands.
pub open spec fn is_request_action(
    a: LineAction,
    w: WorldView,
    id: Option<Seq<char>>,
    method: Seq<char>,
    params: ParamsView,
) -> bool {
    match a {
        LineAction::Answer { reply, close } => exists|answer: Result<Reply, RpcError>|
            {
                &&& is_dispatch(Dispatch::Answer(answer), w, method, params)
                &&& #[trigger] is_response(reply, id, answer)
                &&& close == (method == "shutdown"@)
            },
        LineAction::Spawn { id: i, name, code } => {
            &&& opt_json(i) == id
            &&& is_dispatch(Dispatch::Spawn { name, code }, w, method, params)
        },
    }
}

/// Handles one request.
pub fn handle_request(request: Request, world: &mut World, shutdown: &mut bool) -> (r: LineAction)
    requires
        old(world).wf(),
    ensures
        final(world).wf(),
        final(world)@ == dispatched(old(world)@, request.method@, request.params@),
        is_request_action(
            r,
            old(world)@,
            opt_json(request.id),
            request.method@,
            request.params@,
        ),
        *final(shutdown) == (*old(shutdown) || request.method@ == "shutdown"@),
{
    let Request { id, method, params } = request;
    match dispatch(method.as_str(), &params, world, shutdown) {
        Dispatch::Spawn { name, code } => LineAction::Spawn { id, name, code },
        Dispatch::Answer(answer) => {
            let ghost id_text = opt_json(id);
            let close = same_text(method.as_str(), "shutdown");
            let reply = respond(id, &answer);
            assert(is_response(reply, id_text, answer));
            LineAction::Answer { reply, close }
        },
    }
}

/// What a line holds: a request, or the message of the parse error.
pub open spec fn line_content(line: Seq<char>) -> Result<Seq<char>, Seq<char>> {
    json_parsed(trim_end(trim_start(line)))
}

/// The answer to a line that is no JSON text.
pub open spec fn is_parse_error(e: RpcError, message: Seq<char>) -> bool {
    e.is(PARSE_ERROR, "parse error: "@ + message)
}

fn parse_error(message: &str) -> (r: RpcError)
    ensures
        is_parse_error(r, message@),
{
    let mut m = "parse error: ".to_owned();
    m.append(message);
    RpcError { code: PARSE_ERROR, message: m }
}

/// Handles one line from a client. A line that is no JSON text draws an error,
/// whatever it looks like, and the connection goes on.
pub fn handle_line(line: &str, world: &mut World, shutdown: &mut bool) -> (r: LineAction)
    requires
        old(world).wf(),
    ensures
        final(world).wf(),
        match line_content(line@) {
            Ok(text) => {
                &&& final(world)@ == dispatched(old(world)@, method_of(text), params_of(text))
                &&& is_request_action(
                    r,
                    old(world)@,
                    json_member(text, "id"@),
                    method_of(text),
                    params_of(text),
                )
                &&& *final(shutdown) == (*old(shutdown) || method_of(text) == "shutdown"@)
            },
            Err(message) => {
                &&& final(world)@ == old(world)@
                &&& *final(shutdown) == *old(shutdown)
                &&& r matches LineAction::Answer { reply, close } && !close && exists|e: RpcError|
                    {
                        &&& is_parse_error(e, message)
                        &&& #[trigger] is_response(reply, Some("null"@), Err(e))
                    }
            },
        },
{
    match parse(trim(line)) {
        Ok(v) => handle_request(read_request(&v), world, shutdown),
        Err(message) => {
            let answer: Result<Reply, RpcError> = Err(parse_error(message.as_str()));
            let reply = respond(Some(null_value()), &answer);
            assert(is_response(reply, Some("null"@), answer));
            LineAction::Answer { reply, close: false }
        },
    }
}

/// Whether `a` is the answer to a request to spawn that ended like this.
pub open spec fn is_spawn_answer(a: Result<Reply, RpcError>, spawned: Result<Pid, String>) -> bool {
    match spawned {
        Ok(pid) => a matches Ok(Reply::Spawned(p)) && p == pid,
        Err(message) => a matches Err(e) && e.is(SPAWN_FAILED, message@),
    }
}

/// The reply to a request to spawn: the pid of the new process, or why there
/// is none.
pub fn spawn_answer(id: Option<Value>, spawned: Result<Pid, String>) -> (r: Option<String>)
    ensures
        exists|answer: Result<Reply, RpcError>|
            is_spawn_answer(answer, spawned) && #[trigger] is_response(r, opt_json(id), answer),
{
    let ghost id_text = opt_json(id);
    let answer: Result<Reply, RpcError> = match spawned {
        Ok(pid) => Ok(Reply::Spawned(pid)),
        Err(message) => Err(RpcError { code: SPAWN_FAILED, message }),
    };
    assert(is_spawn_answer(answer, spawned));
    let r = respond(id, &answer);
    assert(is_response(r, id_text, answer));
    r
}

/// How many connections are served at the same time.
pub const MAX_CONNECTIONS: usize = 256;

/// What the accept loop does next.
#[derive(Clone, Copy, Debug, PartialEq, Eq, Structural)]
pub enum ServeStep {
    /// Leave the loop.
    Stop,
    /// Wait a little.
    Pause,
    /// Accept a connection.
    Accept,
    /// Serve the connection that was accepted.
    Serve,
    /// Report the error, then leave the loop.
    Fail,
}

/// Whether the accept loop goes on: not after a shutdown, and not beyond the
/// number of connections that it serves at the same time.
pub fn serve_step(shutdown: bool, live: usize) -> (r: ServeStep)
    ensures
        r == (if shutdown {
            ServeStep::Stop
        } else if live >= MAX_CONNECTIONS {
            ServeStep::Pause
        } else {
            ServeStep::Accept
        }),
{
    if shutdown {
        ServeStep::Stop
    } else if live >= MAX_CONNECTIONS {
        ServeStep::Pause
    } else {
        ServeStep::Accept
    }
}

/// How an attempt to accept a connection ended.
#[derive(Clone, Copy, Debug, PartialEq, Eq, Structural)]
pub enum Accepted {
    Connection,
    WouldBlock,
    Error,
}

/// What follows an attempt to accept a connection.
pub fn accept_step(accepted: Accepted) -> (r: ServeStep)
    ensures
        r == (match accepted {
            Accepted::Connection => ServeStep::Serve,
            Accepted::WouldBlock => ServeStep::Pause,
            Accepted::Error => ServeStep::Fail,
        }),
{
    match accepted {
        Accepted::Connection => ServeStep::Serve,
        Accepted::WouldBlock => ServeStep::Pause,
        Accepted::Error => ServeStep::Fail,
    }
}

} // verus!
