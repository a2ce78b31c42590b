//! Calls into the script engine.
//!
//! The engine decides what its calls return: they may execute script code. What
//! is said of them here relates the engine before a call, what goes in, what
//! comes out, and the engine afterwards. It does not say that the same call
//! gives the same result again.

use rquickjs::context::EvalOptions;
use rquickjs::{Ctx, Function, Promise, Value};
use vstd::prelude::*;

use crate::process::Pid;
use crate::text::opt_text;

verus! {

/// `rquickjs::Ctx`, a handle on the engine of one process. A value of it stands
/// for the engine in one state: a call that may change that state borrows it
/// mutably.
#[verifier::external_type_specification]
#[verifier::external_body]
pub struct ExCtx<'js>(rquickjs::Ctx<'js>);

/// `rquickjs::Value`, any script value.
#[verifier::external_type_specification]
#[verifier::external_body]
pub struct ExScriptValue<'js>(rquickjs::Value<'js>);

/// `rquickjs::Function`, a script function.
#[verifier::external_type_specification]
#[verifier::external_body]
pub struct ExFunction<'js>(rquickjs::Function<'js>);

/// `rquickjs::Error`, why the engine refused something.
#[verifier::external_type_specification]
#[verifier::external_body]
pub struct ExError(rquickjs::Error);

/// What is fixed about a script value, whatever scripts do.
#[verifier::ext_equal]
pub enum ScriptValue {
    Undefined,
    Null,
    /// A string, by its characters.
    Text(Seq<char>),
    /// A string that is no well-formed text: a surrogate in it stands alone.
    BrokenText,
    Function,
    Symbol,
    /// An object that is no function.
    Object,
    /// A number, or anything else.
    Other,
}

/// What is fixed about the script value `v`.
pub uninterp spec fn script_value(v: Value<'_>) -> ScriptValue;

/// `Value::is_undefined`: whether the value is `undefined`.
#[verifier::external_body]
pub(crate) fn is_undefined(v: &Value<'_>) -> (r: bool)
    ensures
        r == (script_value(*v) is Undefined),
{
    v.is_undefined()
}

/// `Value::is_null`: whether the value is `null`.
#[verifier::external_body]
pub(crate) fn is_null(v: &Value<'_>) -> (r: bool)
    ensures
        r == (script_value(*v) is Null),
{
    v.is_null()
}

/// `Value::is_function`: whether the value can be called.
#[verifier::external_body]
pub(crate) fn is_function(v: &Value<'_>) -> (r: bool)
    ensures
        r == (script_value(*v) is Function),
{
    v.is_function()
}

/// `Value::is_symbol`: whether the value is a symbol.
#[verifier::external_body]
pub(crate) fn is_symbol(v: &Value<'_>) -> (r: bool)
    ensures
        r == (script_value(*v) is Symbol),
{
    v.is_symbol()
}

/// `Value::is_object`: whether the value is an object. Functions are objects.
#[verifier::external_body]
pub(crate) fn is_object(v: &Value<'_>) -> (r: bool)
    ensures
        r == (script_value(*v) is Object || script_value(*v) is Function),
{
    v.is_object()
}

/// `Value::as_string` and `String::to_string`: the characters of a string, and
/// nothing for any other value. A string is refused exactly if it is no
/// well-formed text. That memory runs out while it is copied is left out of
/// account.
#[verifier::external_body]
pub(crate) fn text_of(v: &Value<'_>) -> (r: Option<Result<String, rquickjs::Error>>)
    ensures
        match r {
            Some(Ok(s)) => script_value(*v) == ScriptValue::Text(s@),
            Some(Err(_)) => script_value(*v) is BrokenText,
            None => !(script_value(*v) is Text || script_value(*v) is BrokenText),
        },
{
    v.as_string().map(|s| s.to_string())
}

/// `Value::new_undefined`: the value `undefined`.
#[verifier::external_body]
pub(crate) fn undefined<'js>(cx: &Ctx<'js>) -> (r: Value<'js>)
    ensures
        script_value(r) is Undefined,
{
    Value::new_undefined(cx.clone())
}

/// The exception that is pending in an engine.
pub uninterp spec fn pending(cx: Ctx<'_>) -> Option<Value<'_>>;

/// Whether the engine gave `v` as its pending exception.
pub uninterp spec fn catches(before: Ctx<'_>, v: Value<'_>, after: Ctx<'_>) -> bool;

/// `Ctx::catch`: the pending exception, which is no longer pending then.
#[verifier::external_body]
pub(crate) fn catch<'js>(cx: &mut Ctx<'js>) -> (r: Value<'js>)
    ensures
        catches(*old(cx), r, *final(cx)),
        pending(*old(cx)) matches Some(v) ==> r == v,
        pending(*final(cx)) is None,
{
    cx.catch()
}

/// Whether `e` says that an exception is pending, and nothing else.
pub uninterp spec fn is_exception(e: rquickjs::Error) -> bool;

/// Whether the engine answered `e` when it was told to throw `v`.
pub uninterp spec fn raises(
    before: Ctx<'_>,
    v: Value<'_>,
    e: rquickjs::Error,
    after: Ctx<'_>,
) -> bool;

/// `Ctx::throw`: makes a value the pending exception, in place of any other.
#[verifier::external_body]
pub(crate) fn throw<'js>(cx: &mut Ctx<'js>, v: Value<'js>) -> (r: rquickjs::Error)
    ensures
        raises(*old(cx), v, r, *final(cx)),
        pending(*final(cx)) == Some(v),
        is_exception(r),
{
    cx.throw(v)
}

/// Whether `e` is the error that carries `msg` only.
pub uninterp spec fn carries(e: rquickjs::Error, msg: Seq<char>) -> bool;

/// `Error::new_from_js_message`: an error that carries a message only.
#[verifier::external_body]
pub(crate) fn message_error(msg: &str) -> (r: rquickjs::Error)
    ensures
        carries(r, msg@),
{
    rquickjs::Error::new_from_js_message("value", "message", msg)
}

/// The text of an error of the engine.
pub uninterp spec fn displayed(e: rquickjs::Error) -> Seq<char>;

/// `Error::to_string`: the text of an error.
#[verifier::external_body]
pub(crate) fn error_text(e: &rquickjs::Error) -> (r: String)
    ensures
        r@ == displayed(*e),
{
    e.to_string()
}

/// Whether the engine answered `r` when it was asked for a string `s`.
pub uninterp spec fn makes_text(
    before: Ctx<'_>,
    s: Seq<char>,
    r: Result<Value<'_>, rquickjs::Error>,
    after: Ctx<'_>,
) -> bool;

/// `String::from_str`: a script string. The engine refuses it only if it is too
/// long or memory runs out.
#[verifier::external_body]
pub(crate) fn text_value<'js>(cx: &mut Ctx<'js>, s: &str) -> (r: Result<
    Value<'js>,
    rquickjs::Error,
>)
    ensures
        makes_text(*old(cx), s@, r, *final(cx)),
        r matches Ok(v) ==> script_value(v) == ScriptValue::Text(s@),
{
    rquickjs::String::from_str(cx.clone(), s).map(|s| s.into_value())
}

/// Whether the engine answered `r` when it was asked for the JSON text of `v`.
pub uninterp spec fn stringifies(
    before: Ctx<'_>,
    v: Value<'_>,
    r: Result<Option<Seq<char>>, rquickjs::Error>,
    after: Ctx<'_>,
) -> bool;

/// The view of a JSON text that the engine was asked for.
pub open spec fn json_answer(r: Result<Option<String>, rquickjs::Error>) -> Result<
    Option<Seq<char>>,
    rquickjs::Error,
> {
    match r {
        Ok(json) => Ok(opt_text(json)),
        Err(e) => Err(e),
    }
}

/// `Ctx::json_stringify`: the JSON text of a value, if it has one. Objects say
/// themselves what they are rendered as, so nothing more is promised.
#[verifier::external_body]
pub(crate) fn json_stringify<'js>(cx: &mut Ctx<'js>, v: &Value<'js>) -> (r: Result<
    Option<String>,
    rquickjs::Error,
>)
    ensures
        stringifies(*old(cx), *v, json_answer(r), *final(cx)),
{
    match cx.json_stringify(v.clone())? {
        Some(s) => s.to_string().map(Some),
        None => Ok(None),
    }
}

/// Whether the engine answered `r` when it was given the JSON text `json`.
pub uninterp spec fn reads_as(
    before: Ctx<'_>,
    json: Seq<char>,
    r: Result<Value<'_>, rquickjs::Error>,
    after: Ctx<'_>,
) -> bool;

/// `Ctx::json_parse`: the value with a JSON text.
#[verifier::external_body]
pub(crate) fn json_parse<'js>(cx: &mut Ctx<'js>, json: String) -> (r: Result<
    Value<'js>,
    rquickjs::Error,
>)
    ensures
        reads_as(*old(cx), json@, r, *final(cx)),
{
    cx.json_parse(json)
}

/// Whether the engine answered `r` when it evaluated the script `source`.
pub uninterp spec fn evaluates_to(
    before: Ctx<'_>,
    source: Seq<char>,
    r: Result<Value<'_>, rquickjs::Error>,
    after: Ctx<'_>,
) -> bool;

/// `Ctx::eval`: the value of a script. The script decides what comes back.
#[verifier::external_body]
pub(crate) fn eval<'js>(cx: &mut Ctx<'js>, source: String) -> (r: Result<
    Value<'js>,
    rquickjs::Error,
>)
    ensures
        evaluates_to(*old(cx), source@, r, *final(cx)),
{
    cx.eval(source)
}

/// Whether the engine answered `r` when it evaluated the script `source`, for a
/// function.
pub uninterp spec fn evaluates_to_function(
    before: Ctx<'_>,
    source: Seq<char>,
    r: Result<Function<'_>, rquickjs::Error>,
    after: Ctx<'_>,
) -> bool;

/// `Ctx::eval` for a function: the value of a script, which is refused if it is
/// no function.
#[verifier::external_body]
pub(crate) fn eval_function<'js>(cx: &mut Ctx<'js>, source: String) -> (r: Result<
    Function<'js>,
    rquickjs::Error,
>)
    ensures
        evaluates_to_function(*old(cx), source@, r, *final(cx)),
{
    cx.eval(source)
}

/// Whether the engine answered `r` when it evaluated the entry script `source`,
/// called `name`, for its promise.
pub uninterp spec fn begins(
    before: Ctx<'_>,
    name: Seq<char>,
    source: Seq<char>,
    r: Result<Value<'_>, rquickjs::Error>,
    after: Ctx<'_>,
) -> bool;

/// `Ctx::eval_with_options` with top-level `await`: the promise of a script,
/// which goes by the given file name.
#[verifier::external_body]
pub(crate) fn eval_entry<'js>(cx: &mut Ctx<'js>, name: &str, source: &str) -> (r: Result<
    Value<'js>,
    rquickjs::Error,
>)
    ensures
        begins(*old(cx), name@, source@, r, *final(cx)),
{
    let mut options = EvalOptions::default();
    options.promise = true;
    options.filename = Some(name.to_string());
    cx.eval_with_options::<Promise, _>(source, options).map(|p| p.into_value())
}

/// Whether the engine answered `r` when it was asked for the function under a
/// global name.
pub uninterp spec fn holds(
    before: Ctx<'_>,
    name: Seq<char>,
    r: Result<Option<Function<'_>>, rquickjs::Error>,
    after: Ctx<'_>,
) -> bool;

/// `Object::get` on the global object: the function under a name, if there is
/// one.
#[verifier::external_body]
pub(crate) fn global_function<'js>(cx: &mut Ctx<'js>, name: &str) -> (r: Result<
    Option<Function<'js>>,
    rquickjs::Error,
>)
    ensures
        holds(*old(cx), name@, r, *final(cx)),
{
    cx.globals().get(name)
}

/// Whether the engine answered `r` when it was told to store `v` under a global
/// name.
pub uninterp spec fn stores(
    before: Ctx<'_>,
    name: Seq<char>,
    v: Value<'_>,
    r: Result<(), rquickjs::Error>,
    after: Ctx<'_>,
) -> bool;

/// `Object::set` on the global object.
#[verifier::external_body]
pub(crate) fn set_global<'js>(cx: &mut Ctx<'js>, name: &str, v: Value<'js>) -> (r: Result<
    (),
    rquickjs::Error,
>)
    ensures
        stores(*old(cx), name@, v, r, *final(cx)),
{
    cx.globals().set(name, v)
}

/// Whether the engine answered `r` when it was asked for the property `key` of
/// `v`.
pub uninterp spec fn has_value(
    before: Ctx<'_>,
    v: Value<'_>,
    key: Seq<char>,
    r: Result<Option<Value<'_>>, rquickjs::Error>,
    after: Ctx<'_>,
) -> bool;

/// `Object::get` for a value: the property, unless it is missing, `undefined`
/// or `null`.
#[verifier::external_body]
pub(crate) fn property_value<'js>(cx: &mut Ctx<'js>, v: &Value<'js>, key: &str) -> (r: Result<
    Option<Value<'js>>,
    rquickjs::Error,
>)
    requires
        script_value(*v) is Object || script_value(*v) is Function,
    ensures
        has_value(*old(cx), *v, key@, r, *final(cx)),
{
    v.as_object().unwrap().get(key)
}

/// Whether the engine answered `r` when it was asked for the property `key` of
/// `v`.
pub uninterp spec fn has_bool(
    before: Ctx<'_>,
    v: Value<'_>,
    key: Seq<char>,
    r: Result<Option<bool>, rquickjs::Error>,
    after: Ctx<'_>,
) -> bool;

/// `Object::get` for a Boolean: the property, unless it is missing, `undefined`
/// or `null`. Any other value is refused.
#[verifier::external_body]
pub(crate) fn property_bool<'js>(cx: &mut Ctx<'js>, v: &Value<'js>, key: &str) -> (r: Result<
    Option<bool>,
    rquickjs::Error,
>)
    requires
        script_value(*v) is Object || script_value(*v) is Function,
    ensures
        has_bool(*old(cx), *v, key@, r, *final(cx)),
{
    v.as_object().unwrap().get(key)
}

/// Whether the engine answered `r` when it was asked for the property `key` of
/// `v`.
pub uninterp spec fn has_pid(
    before: Ctx<'_>,
    v: Value<'_>,
    key: Seq<char>,
    r: Result<Option<Pid>, rquickjs::Error>,
    after: Ctx<'_>,
) -> bool;

/// `Object::get` for a pid: the property, unless it is missing, `undefined` or
/// `null`. What is no number is refused.
#[verifier::external_body]
pub(crate) fn property_pid<'js>(cx: &mut Ctx<'js>, v: &Value<'js>, key: &str) -> (r: Result<
    Option<Pid>,
    rquickjs::Error,
>)
    requires
        script_value(*v) is Object || script_value(*v) is Function,
    ensures
        has_pid(*old(cx), *v, key@, r, *final(cx)),
{
    v.as_object().unwrap().get(key)
}

/// Whether the engine answered `r` when it called `f` with `v`.
pub uninterp spec fn called(
    before: Ctx<'_>,
    f: Function<'_>,
    v: Value<'_>,
    r: Result<Value<'_>, rquickjs::Error>,
    after: Ctx<'_>,
) -> bool;

/// `Function::call` with one argument: the value that the function returns.
#[verifier::external_body]
pub(crate) fn call<'js>(cx: &mut Ctx<'js>, f: &Function<'js>, v: Value<'js>) -> (r: Result<
    Value<'js>,
    rquickjs::Error,
>)
    ensures
        called(*old(cx), *f, v, r, *final(cx)),
{
    f.call((v,))
}

} // verus!
