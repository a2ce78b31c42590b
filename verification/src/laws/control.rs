//! What control clients get for their requests.

use serde_json::Value;
use vstd::prelude::*;

use crate::json::{
    commas, integer, json_member, json_parsed, json_text, object_text, quote,
};
use crate::laws::dealings::{delivery, killing, listing, renaming, telling};
use crate::laws::lifecycle::{becomes, joins_queue, leaves};
use crate::laws::texts::{
    plain_strings_are_quoted_as_they_are, reading_back, signed_numerals, trimming,
};
use crate::model::WorldView;
use crate::process::{Pid, Place, ProcView, Status};
use crate::rpc::{
    dispatched, error_text, info_text, is_dispatch, is_parse_error, is_request_action, is_response,
    is_spawn_answer, lemma_methods_distinct, line_content, method_of, opt_json, params_of,
    reply_text, response_text, Dispatch, LineAction, Params, ParamsView, Reply, Request, RpcError,
};
use crate::text::{decimal, is_white_space, opt_text, trim_end, trim_start};

verus! {

/// A request to kill is answered by whether the process that it names lives.
/// Such a process is gone at once if it was parked or asleep; anywhere else it
/// has the status killed from then on. No failure is counted, and nothing else
/// changes.
pub proof fn clients_kill(w: WorldView, params: ParamsView, d: Dispatch)
    requires
        w.wf(),
        is_dispatch(d, w, "kill"@, params),
    ensures
        ({
            let w2 = dispatched(w, "kill"@, params);
            match params.pid {
                Some(q) => {
                    let p = w.processes[q];
                    &&& d == Dispatch::Answer(Ok(Reply::Flag(w.processes.contains_key(q))))
                    &&& !w.processes.contains_key(q) ==> w2 == w
                    &&& w.processes.contains_key(q) ==> if p.place == Place::Parked || p.place
                        == Place::Sleeping {
                        leaves(w, w2, q, 0)
                    } else {
                        becomes(w, w2, q, ProcView { status: Status::Killed, ..p })
                    }
                },
                None => d == Dispatch::Answer(Ok(Reply::Flag(false))) && w2 == w,
            }
        }),
{
    lemma_methods_distinct();
    lemma_no_target(w, params);
    killing(w, params.target());
}

/// A request that names no process is about none that lives.
proof fn lemma_no_target(w: WorldView, params: ParamsView)
    requires
        w.wf(),
    ensures
        params.pid is None ==> !w.processes.contains_key(params.target()),
        params.pid is Some ==> params.target() == params.pid->0,
{
    if params.pid is None && w.alive(params.target()) {
        assert(params.target() < w.next_pid);
    }
}

/// A request to send is always answered by `true`. The value, or `null` if there
/// is none, goes to the end of the mailbox of the process that it names, if that
/// lives, which joins the run queue if it was parked. Nothing else changes.
pub proof fn clients_send(w: WorldView, params: ParamsView, d: Dispatch)
    requires
        w.wf(),
        is_dispatch(d, w, "send"@, params),
    ensures
        ({
            let w2 = dispatched(w, "send"@, params);
            let json = match params.value {
                Some(v) => v,
                None => "null"@,
            };
            &&& d == Dispatch::Answer(Ok(Reply::Flag(true)))
            &&& match params.pid {
                Some(q) => {
                    let p = w.processes[q];
                    let inbox = w2.processes[q].inbox;
                    &&& !w.processes.contains_key(q) ==> w2 == w
                    &&& w.processes.contains_key(q) ==> {
                        &&& inbox == p.inbox + seq![json]
                        &&& if p.place == Place::Parked {
                            joins_queue(w, w2, q, ProcView { inbox, ..p })
                        } else {
                            becomes(w, w2, q, ProcView { inbox, ..p })
                        }
                    }
                },
                None => w2 == w,
            }
        }),
{
    lemma_methods_distinct();
    lemma_no_target(w, params);
    let q = params.target();
    delivery(w, q, params.payload());
    if w.processes.contains_key(q) {
        assert(dispatched(w, "send"@, params).processes[q].inbox =~= w.processes[q].inbox + seq![
            params.payload(),
        ]);
    }
}

/// A request to rename is answered by whether the process that it names lives.
/// Such a process has the given name from then on, an empty one if none is
/// given. Nothing else changes.
pub proof fn clients_rename(w: WorldView, params: ParamsView, d: Dispatch)
    requires
        w.wf(),
        is_dispatch(d, w, "rename"@, params),
    ensures
        ({
            let w2 = dispatched(w, "rename"@, params);
            match params.pid {
                Some(q) => {
                    let name = w2.processes[q].name;
                    &&& d == Dispatch::Answer(Ok(Reply::Flag(w.processes.contains_key(q))))
                    &&& !w.processes.contains_key(q) ==> w2 == w
                    &&& w.processes.contains_key(q) ==> {
                        &&& becomes(w, w2, q, ProcView { name, ..w.processes[q] })
                        &&& params.name is Some ==> name == params.name->0
                        &&& params.name is None ==> name.len() == 0
                    }
                },
                None => d == Dispatch::Answer(Ok(Reply::Flag(false))) && w2 == w,
            }
        }),
{
    reveal_strlit("");
    lemma_methods_distinct();
    lemma_no_target(w, params);
    renaming(w, params.target(), params.new_name());
}

/// Requests that only ask change nothing: the number of live processes, what is
/// told about the one that is named, or `null` if it does not live, and a
/// listing of all.
pub proof fn clients_ask(w: WorldView, params: ParamsView, d: Dispatch)
    requires
        w.wf(),
    ensures
        dispatched(w, "count"@, params) == w,
        dispatched(w, "info"@, params) == w,
        dispatched(w, "list"@, params) == w,
        is_dispatch(d, w, "count"@, params) ==> {
            &&& d is Answer && d->Answer_0 is Ok && d->Answer_0->Ok_0 is Count
            &&& d->Answer_0->Ok_0->Count_0 == w.processes.dom().len()
        },
        is_dispatch(d, w, "info"@, params) ==> match params.pid {
            Some(q) => if w.processes.contains_key(q) {
                let info = d->Answer_0->Ok_0->Info_0;
                &&& d is Answer && d->Answer_0 is Ok && d->Answer_0->Ok_0 is Info
                &&& info.0 == q
                &&& info.1@ == w.processes[q].name
                &&& info.2@ == w.processes[q].status.spec_as_str()
            } else {
                d == Dispatch::Answer(Ok(Reply::Null))
            },
            None => d == Dispatch::Answer(Ok(Reply::Null)),
        },
        is_dispatch(d, w, "list"@, params) ==> {
            let l = d->Answer_0->Ok_0->List_0@;
            &&& d is Answer && d->Answer_0 is Ok && d->Answer_0->Ok_0 is List
            &&& l.len() == w.processes.dom().len()
            &&& forall|i: int|
                0 <= i < l.len() ==> {
                    &&& w.processes.contains_key((#[trigger] l[i]).0)
                    &&& l[i].1@ == w.processes[l[i].0].name
                    &&& l[i].2@ == w.processes[l[i].0].status.spec_as_str()
                }
            &&& forall|i: int, j: int|
                0 <= i < j < l.len() ==> (#[trigger] l[i]).0 < (#[trigger] l[j]).0
        },
{
    lemma_methods_distinct();
    lemma_no_target(w, params);
    if is_dispatch(d, w, "list"@, params) {
        let l = d->Answer_0->Ok_0->List_0@;
        listing(w, l);
        assert forall|i: int| 0 <= i < l.len() implies {
            &&& w.processes.contains_key((#[trigger] l[i]).0)
            &&& l[i].1@ == w.processes[l[i].0].name
            &&& l[i].2@ == w.processes[l[i].0].status.spec_as_str()
        } by {
            telling(w, l[i]);
        }
    }
    if is_dispatch(d, w, "info"@, params) && w.processes.contains_key(params.target()) {
        telling(w, d->Answer_0->Ok_0->Info_0);
    }
}

/// A request to spawn hands on the given source under the given name, or as
/// `rpc`. Without a source it is refused. The world is not changed by it.
pub proof fn clients_spawn(w: WorldView, params: ParamsView, d: Dispatch)
    requires
        is_dispatch(d, w, "spawn"@, params),
    ensures
        dispatched(w, "spawn"@, params) == w,
        match params.code {
            Some(code) => {
                &&& d is Spawn
                &&& d->code@ == code
                &&& params.name is Some ==> d->name@ == params.name->0
                &&& params.name is None ==> d->name@ == "rpc"@
            },
            None => {
                &&& d is Answer && d->Answer_0 is Err
                &&& d->Answer_0->Err_0.code == -32602
                &&& d->Answer_0->Err_0.message@ == "missing string `code`"@
            },
        },
{
    lemma_methods_distinct();
}

/// A request to shut down is answered by `true`. One with any other name is
/// refused by that name. Neither changes the world.
pub proof fn other_requests(w: WorldView, method: Seq<char>, params: ParamsView, d: Dispatch)
    requires
        is_dispatch(d, w, method, params),
    ensures
        method == "shutdown"@ ==> {
            &&& d == Dispatch::Answer(Ok(Reply::Flag(true)))
            &&& dispatched(w, method, params) == w
        },
        method != "list"@ && method != "count"@ && method != "info"@ && method != "spawn"@ && method
            != "kill"@ && method != "send"@ && method != "rename"@ && method != "shutdown"@ ==> {
            &&& d is Answer && d->Answer_0 is Err
            &&& d->Answer_0->Err_0.code == -32601
            &&& d->Answer_0->Err_0.message@ == "method not found: "@ + method
            &&& dispatched(w, method, params) == w
        },
{
    lemma_methods_distinct();
}

/// The parameters of a request are those that it holds, and its id has the text
/// of the value that it is.
pub proof fn parameters(params: Params, id: Value)
    ensures
        params@.pid == params.pid,
        params@.name == opt_text(params.name),
        params@.code == opt_text(params.code),
        params@.value == opt_text(params.value),
        opt_json(Some(id)) == Some(json_text(id)),
        opt_json(None) is None,
{
}

/// A request is what its text says: its id is the member of that name, its
/// method the string under `method`, and its parameters are under `params`: an
/// integer under `pid`, strings under `name` and `code`, and anything under
/// `value`. What is missing or of another type counts as not given.
pub proof fn reading_requests(
    request: Request,
    text: Seq<char>,
    params: Seq<char>,
    n: u64,
    s: Seq<char>,
)
    requires
        request.reads(text),
    ensures
        opt_json(request.id) == json_member(text, "id"@),
        request.method@ == method_of(text),
        request.params@ == params_of(text),
        json_member(text, "method"@) == Some(quote(s)) ==> request.method@ == s,
        json_member(text, "method"@) is None ==> request.method@.len() == 0,
        (forall|t: Seq<char>| json_member(text, "method"@) != Some(#[trigger] quote(t)))
            ==> request.method@.len() == 0,
        json_member(text, "params"@) is None ==> {
            &&& request.params@.pid is None && request.params@.name is None
            &&& request.params@.code is None && request.params@.value is None
        },
        json_member(text, "params"@) == Some(params) ==> {
            let given = request.params@;
            &&& given.value == json_member(params, "value"@)
            &&& given.pid == Some(n) <==> json_member(params, "pid"@) == Some(decimal(n as nat))
            &&& given.name == Some(s) <==> json_member(params, "name"@) == Some(quote(s))
            &&& given.code == Some(s) <==> json_member(params, "code"@) == Some(quote(s))
        },
{
    reveal_strlit("");
    if let Some(m) = json_member(text, "method"@) {
        reading_back(m, n, s);
    }
    if let Some(m) = json_member(params, "pid"@) {
        reading_back(m, n, s);
    }
    if let Some(m) = json_member(params, "name"@) {
        reading_back(m, n, s);
    }
    if let Some(m) = json_member(params, "code"@) {
        reading_back(m, n, s);
    }
}

proof fn lemma_keys()
    ensures
        quote("id"@) == "\"id\""@,
        quote("jsonrpc"@) == "\"jsonrpc\""@,
        quote("2.0"@) == "\"2.0\""@,
        quote("result"@) == "\"result\""@,
        quote("error"@) == "\"error\""@,
        quote("code"@) == "\"code\""@,
        quote("message"@) == "\"message\""@,
        quote("name"@) == "\"name\""@,
        quote("pid"@) == "\"pid\""@,
        quote("status"@) == "\"status\""@,
{
    reveal_strlit("id");
    reveal_strlit("jsonrpc");
    reveal_strlit("2.0");
    reveal_strlit("result");
    reveal_strlit("error");
    reveal_strlit("code");
    reveal_strlit("message");
    reveal_strlit("name");
    reveal_strlit("pid");
    reveal_strlit("status");
    reveal_strlit("\"id\"");
    reveal_strlit("\"jsonrpc\"");
    reveal_strlit("\"2.0\"");
    reveal_strlit("\"result\"");
    reveal_strlit("\"error\"");
    reveal_strlit("\"code\"");
    reveal_strlit("\"message\"");
    reveal_strlit("\"name\"");
    reveal_strlit("\"pid\"");
    reveal_strlit("\"status\"");
    plain_strings_are_quoted_as_they_are("id"@);
    plain_strings_are_quoted_as_they_are("jsonrpc"@);
    plain_strings_are_quoted_as_they_are("2.0"@);
    plain_strings_are_quoted_as_they_are("result"@);
    plain_strings_are_quoted_as_they_are("error"@);
    plain_strings_are_quoted_as_they_are("code"@);
    plain_strings_are_quoted_as_they_are("message"@);
    plain_strings_are_quoted_as_they_are("name"@);
    plain_strings_are_quoted_as_they_are("pid"@);
    plain_strings_are_quoted_as_they_are("status"@);
    assert(quote("id"@) =~= "\"id\""@);
    assert(quote("jsonrpc"@) =~= "\"jsonrpc\""@);
    assert(quote("2.0"@) =~= "\"2.0\""@);
    assert(quote("result"@) =~= "\"result\""@);
    assert(quote("error"@) =~= "\"error\""@);
    assert(quote("code"@) =~= "\"code\""@);
    assert(quote("message"@) =~= "\"message\""@);
    assert(quote("name"@) =~= "\"name\""@);
    assert(quote("pid"@) =~= "\"pid\""@);
    assert(quote("status"@) =~= "\"status\""@);
}

/// The members of an object of up to three members.
proof fn lemma_object(members: Seq<(Seq<char>, Seq<char>)>)
    requires
        1 <= members.len() <= 3,
    ensures
        ({
            let one = quote(members[0].0) + seq![':'] + members[0].1;
            let two = quote(members[1].0) + seq![':'] + members[1].1;
            let three = quote(members[2].0) + seq![':'] + members[2].1;
            let inner = if members.len() == 1 {
                one
            } else if members.len() == 2 {
                one + seq![','] + two
            } else {
                one + seq![','] + two + seq![','] + three
            };
            object_text(members) == seq!['{'] + inner + seq!['}']
        }),
{
    reveal_with_fuel(commas, 3);
    let parts = members.map_values(|m: (Seq<char>, Seq<char>)| quote(m.0) + seq![':'] + m.1);
    if members.len() == 3 {
        assert(parts.drop_last().drop_last() =~= seq![parts[0]]);
        assert(parts.drop_last().last() == parts[1]);
    } else if members.len() == 2 {
        assert(parts.drop_last() =~= seq![parts[0]]);
    }
}

/// A response is an object: the id of the request as it was given, the version
/// of the protocol, and the result, or an error with its code and its message.
pub proof fn responses(id: Seq<char>, answer: Result<Reply, RpcError>)
    ensures
        match answer {
            Ok(reply) => response_text(id, answer) == seq!['{'] + ("\"id\""@ + seq![':'] + id)
                + seq![','] + ("\"jsonrpc\""@ + seq![':'] + "\"2.0\""@) + seq![','] + (
            "\"result\""@ + seq![':'] + reply_text(reply)) + seq!['}'],
            Err(e) => response_text(id, answer) == seq!['{'] + ("\"error\""@ + seq![':']
                + error_text(e)) + seq![','] + ("\"id\""@ + seq![':'] + id) + seq![','] + (
            "\"jsonrpc\""@ + seq![':'] + "\"2.0\""@) + seq!['}'],
        },
        answer is Err ==> {
            let e = answer->Err_0;
            error_text(e) == seq!['{'] + ("\"code\""@ + seq![':'] + integer(
                e.code as int,
            )) + seq![','] + ("\"message\""@ + seq![':'] + quote(e.message@)) + seq!['}']
        },
{
    lemma_keys();
    let version = ("jsonrpc"@, quote("2.0"@));
    match answer {
        Ok(reply) => {
            let members = seq![("id"@, id), version, ("result"@, reply_text(reply))];
            lemma_object(members);
            assert(response_text(id, answer) =~= seq!['{'] + ("\"id\""@ + seq![':'] + id)
                + seq![','] + ("\"jsonrpc\""@ + seq![':'] + "\"2.0\""@) + seq![','] + (
            "\"result\""@ + seq![':'] + reply_text(reply)) + seq!['}']);
        },
        Err(e) => {
            let members = seq![("error"@, error_text(e)), ("id"@, id), version];
            lemma_object(members);
            assert(response_text(id, answer) =~= seq!['{'] + ("\"error\""@ + seq![':']
                + error_text(e)) + seq![','] + ("\"id\""@ + seq![':'] + id) + seq![','] + (
            "\"jsonrpc\""@ + seq![':'] + "\"2.0\""@) + seq!['}']);
            let inner = seq![
                ("code"@, integer(e.code as int)),
                ("message"@, quote(e.message@)),
            ];
            lemma_object(inner);
            assert(error_text(e) =~= seq!['{'] + ("\"code\""@ + seq![':'] + integer(
                e.code as int,
            )) + seq![','] + ("\"message\""@ + seq![':'] + quote(e.message@)) + seq!['}']);
        },
    }
}

/// A result is rendered as what it is: `null`, a truth value, a number, an
/// object with the pid of a new process, an object with the name, the pid and
/// the status of a process, or an array of those, one for each, in order.
pub proof fn results(reply: Reply)
    ensures
        match reply {
            Reply::Null => reply_text(reply) == "null"@,
            Reply::Flag(b) => {
                &&& b ==> reply_text(reply) == "true"@
                &&& !b ==> reply_text(reply) == "false"@
            },
            Reply::Count(n) => reply_text(reply) == decimal(n as nat),
            Reply::Spawned(pid) => reply_text(reply) == seq!['{'] + ("\"pid\""@ + seq![':']
                + decimal(pid as nat)) + seq!['}'],
            Reply::Info(info) => reply_text(reply) == info_text(info),
            Reply::List(l) => exists|parts: Seq<Seq<char>>|
                {
                    &&& reply_text(reply) == seq!['['] + #[trigger] commas(parts) + seq![']']
                    &&& parts.len() == l@.len()
                    &&& forall|i: int|
                        0 <= i < parts.len() ==> #[trigger] parts[i] == info_text(l@[i])
                },
        },
{
    lemma_keys();
    match reply {
        Reply::Count(n) => signed_numerals(n as nat),
        Reply::Spawned(pid) => {
            signed_numerals(pid as nat);
            let members = seq![("pid"@, integer(pid as int))];
            lemma_object(members);
            assert(reply_text(reply) =~= seq!['{'] + ("\"pid\""@ + seq![':'] + decimal(pid as nat))
                + seq!['}']);
        },
        Reply::List(l) => {
            let parts = l@.map_values(|info: (Pid, String, &'static str)| info_text(info));
            assert(reply_text(reply) == seq!['['] + commas(parts) + seq![']']);
        },
        _ => {},
    }
}

/// A process is rendered as an object with its name, its pid and its status.
pub proof fn process_texts(info: (Pid, String, &'static str))
    ensures
        info_text(info) == seq!['{'] + ("\"name\""@ + seq![':'] + quote(info.1@)) + seq![','] + (
        "\"pid\""@ + seq![':'] + decimal(info.0 as nat)) + seq![','] + ("\"status\""@ + seq![':']
            + quote(info.2@)) + seq!['}'],
{
    lemma_keys();
    signed_numerals(info.0 as nat);
    let members = seq![
        ("name"@, quote(info.1@)),
        ("pid"@, integer(info.0 as int)),
        ("status"@, quote(info.2@)),
    ];
    lemma_object(members);
    assert(info_text(info) =~= seq!['{'] + ("\"name\""@ + seq![':'] + quote(info.1@)) + seq![',']
        + ("\"pid\""@ + seq![':'] + decimal(info.0 as nat)) + seq![','] + ("\"status\""@ + seq![':']
        + quote(info.2@)) + seq!['}']);
}

/// A request with an id is answered by exactly one line, which holds the
/// response and ends in the only line break. One without an id gets no answer.
pub proof fn replies_are_lines(
    r: Option<String>,
    id: Option<Seq<char>>,
    answer: Result<Reply, RpcError>,
)
    requires
        is_response(r, id, answer),
    ensures
        r is Some <==> id is Some,
        id is Some ==> {
            let line = r->0@;
            &&& line.len() > 0
            &&& line.drop_last() == response_text(id->0, answer)
            &&& forall|i: int| 0 <= i < line.len() ==> (#[trigger] line[i] == '\n' <==> i
                == line.len() - 1)
        },
{
    if let Some(id) = id {
        let line = r->0@;
        let text = response_text(id, answer);
        assert(line == text.push('\n'));
        assert(line.drop_last() =~= text);
        assert forall|i: int| 0 <= i < line.len() implies (#[trigger] line[i] == '\n' <==> i
            == line.len() - 1) by {
            if i < line.len() - 1 {
                assert(text[i] == line[i]);
                assert(text.contains(text[i]));
            }
        }
    }
}

/// A request leads to a process to be spawned exactly if it asks for one and
/// gives a source. Any other is answered at once, by what it leads to, and the
/// connection is closed exactly after a request to shut down. The answer carries
/// the id of the request.
pub proof fn acting_on_requests(
    a: LineAction,
    w: WorldView,
    id: Option<Seq<char>>,
    method: Seq<char>,
    params: ParamsView,
)
    requires
        is_request_action(a, w, id, method, params),
    ensures
        a is Spawn <==> method == "spawn"@ && params.code is Some,
        a is Spawn ==> {
            &&& opt_json(a->id) == id
            &&& a->code@ == params.code->0
            &&& params.name is Some ==> a->name@ == params.name->0
            &&& params.name is None ==> a->name@ == "rpc"@
        },
        a is Answer ==> {
            &&& a->close <==> method == "shutdown"@
            &&& a->reply is Some <==> id is Some
            &&& exists|answer: Result<Reply, RpcError>|
                {
                    &&& #[trigger] is_dispatch(Dispatch::Answer(answer), w, method, params)
                    &&& id is Some ==> a->reply->0@ == response_text(id->0, answer).push('\n')
                }
        },
{
    lemma_methods_distinct();
    match a {
        LineAction::Answer { reply, close } => {
            let answer = choose|answer: Result<Reply, RpcError>|
                {
                    &&& is_dispatch(Dispatch::Answer(answer), w, method, params)
                    &&& #[trigger] is_response(reply, id, answer)
                    &&& close == (method == "shutdown"@)
                };
            assert(is_dispatch(Dispatch::Answer(answer), w, method, params));
            assert(is_response(reply, id, answer));
            if method == "spawn"@ && params.code is Some {
                clients_spawn(w, params, Dispatch::Answer(answer));
            }
        },
        LineAction::Spawn { id: _, name, code } => {
            let d = Dispatch::Spawn { name, code };
            assert(is_dispatch(d, w, method, params));
        },
    }
}

/// A line is parsed as it is but for the white space around it.
pub proof fn reading_lines(line: Seq<char>)
    ensures
        exists|i: int, j: int|
            {
                &&& 0 <= i <= j <= line.len()
                &&& line_content(line) == json_parsed(#[trigger] line.subrange(i, j))
                &&& i < j ==> !is_white_space(line[i]) && !is_white_space(line[j - 1])
                &&& forall|k: int|
                    0 <= k < line.len() && (k < i || k >= j) ==> is_white_space(#[trigger] line[k])
            },
{
    trimming(line);
    let t = trim_end(trim_start(line));
    let (i, j) = choose|i: int, j: int|
        {
            &&& 0 <= i <= j <= line.len()
            &&& t == #[trigger] line.subrange(i, j)
            &&& forall|k: int|
                0 <= k < line.len() && (k < i || k >= j) ==> is_white_space(#[trigger] line[k])
        };
    assert(t == line.subrange(i, j));
    if i < j {
        assert(t[0] == line[i] && t.last() == line[j - 1]);
    }
    assert(line_content(line) == json_parsed(line.subrange(i, j)));
}

/// A line that is no JSON text is refused with the message of the parser.
pub proof fn parse_errors(e: RpcError, message: Seq<char>)
    ensures
        is_parse_error(e, message) <==> e.code == -32700 && e.message@ == "parse error: "@
            + message,
{
}

/// A spawn that succeeded is answered by the pid, and one that failed by an
/// error with the reason why.
pub proof fn spawn_answers(a: Result<Reply, RpcError>, spawned: Result<Pid, String>)
    requires
        is_spawn_answer(a, spawned),
    ensures
        spawned is Ok ==> a == Ok::<Reply, RpcError>(Reply::Spawned(spawned->Ok_0)),
        spawned is Err ==> {
            &&& a is Err
            &&& a->Err_0.code == -32000
            &&& a->Err_0.message@ == spawned->Err_0@
        },
{
}

} // verus!
