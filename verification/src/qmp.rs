//! The QEMU Monitor Protocol as the app speaks it: the requests it sends and
//! how it reads the replies. QMP is line-based JSON: after the server greeting
//! the client sends `qmp_capabilities`, then one command; replies carrying
//! neither `return` nor `error` are asynchronous events and are skipped.
use vstd::prelude::*;
use crate::json::{as_bool, as_str, json_bool, json_get, json_str, JsonMember, JsonValue};
use crate::text::{trim, trimmed};

verus! {

/// `r` is the request `{"execute": command}`, with `"arguments": args` added
/// unless `args` is null.
pub open spec fn is_request(r: JsonValue, command: Seq<char>, args: JsonValue) -> bool {
    match r {
        JsonValue::Object(ms) => {
            &&& ms@.len() == (if args is Null {
                1int
            } else {
                2int
            })
            &&& ms@[0].key@ == "execute"@
            &&& ms@[0].value matches JsonValue::Str(c) && c@ == command
            &&& !(args is Null) ==> ms@[1].key@ == "arguments"@ && ms@[1].value == args
        },
        _ => false,
    }
}

/// The request that runs `command` with the arguments object `args` (null for none).
pub fn command_request(command: &str, args: JsonValue) -> (r: JsonValue)
    ensures
        is_request(r, command@, args),
{
    let mut ms: Vec<JsonMember> = Vec::new();
    ms.push(JsonMember { key: "execute".to_owned(), value: JsonValue::Str(command.to_owned()) });
    let null = match &args {
        JsonValue::Null => true,
        _ => false,
    };
    if !null {
        ms.push(JsonMember { key: "arguments".to_owned(), value: args });
    }
    JsonValue::Object(ms)
}

/// The request that enters command mode after the greeting.
pub fn capabilities_request() -> (r: JsonValue)
    ensures
        is_request(r, "qmp_capabilities"@, JsonValue::Null),
{
    command_request("qmp_capabilities", JsonValue::Null)
}

/// The arguments of `human-monitor-command` for the monitor command line `line`:
/// `{"command-line": line}`.
pub fn hmp_arguments(command_line: &str) -> (r: JsonValue)
    ensures
        match r {
            JsonValue::Object(ms) => {
                &&& ms@.len() == 1
                &&& ms@[0].key@ == "command-line"@
                &&& ms@[0].value matches JsonValue::Str(c) && c@ == command_line@
            },
            _ => false,
        },
{
    let mut ms: Vec<JsonMember> = Vec::new();
    ms.push(
        JsonMember { key: "command-line".to_owned(), value: JsonValue::Str(command_line.to_owned()) },
    );
    JsonValue::Object(ms)
}

/// What one line read from QMP is.
pub enum QmpReply<'a> {
    /// The command's result: the whole reply.
    Return,
    /// The command failed; the `error` member.
    Error(&'a JsonValue),
    /// An asynchronous event; keep reading.
    Event,
}

/// Sorts a reply line: a `return` member ends the command successfully, else
/// an `error` member ends it in failure, else it is an event.
pub fn classify_reply<'a>(v: &'a JsonValue) -> (r: QmpReply<'a>)
    ensures
        match r {
            QmpReply::Return => json_get(*v, "return"@) is Some,
            QmpReply::Error(e) => json_get(*v, "return"@) is None && json_get(*v, "error"@)
                == Some(*e),
            QmpReply::Event => json_get(*v, "return"@) is None && json_get(*v, "error"@) is None,
        },
{
    if v.get("return").is_some() {
        return QmpReply::Return;
    }
    match v.get("error") {
        Some(e) => QmpReply::Error(e),
        None => QmpReply::Event,
    }
}

/// The error for a failed command, given the text of its `error` member.
pub fn qmp_error_message(command: &str, error_text: &str) -> (r: String)
    ensures
        r@ == "QMP error for '"@ + command@ + "': "@ + error_text@,
{
    let mut m = "QMP error for '".to_owned();
    m.append(command);
    m.append("': ");
    m.append(error_text);
    m
}

/// The trimmed text a human-monitor command printed: the `return` string, or
/// empty when there is none.
pub open spec fn hmp_output(resp: JsonValue) -> Seq<char> {
    match json_str(json_get(resp, "return"@)) {
        Some(s) => trimmed(s),
        None => Seq::empty(),
    }
}

/// The outcome of a human-monitor command from its reply: HMP reports failures
/// as text in the successful `return`, so any non-empty output is the error.
pub fn hmp_outcome(resp: &JsonValue) -> (r: Result<(), String>)
    ensures
        match r {
            Ok(()) => hmp_output(*resp).len() == 0,
            Err(m) => hmp_output(*resp).len() > 0 && m@ == hmp_output(*resp),
        },
{
    let output = match as_str(resp.get("return")) {
        Some(s) => trim(s),
        None => "",
    };
    proof {
        reveal_strlit("");
    }
    if output.is_empty() {
        Ok(())
    } else {
        Err(output.to_owned())
    }
}

/// The guest name a `query-name` reply reports: `return.name` when it is a string.
pub open spec fn reported_name_text(resp: JsonValue) -> Option<Seq<char>> {
    match json_get(resp, "return"@) {
        Some(ret) => json_str(json_get(ret, "name"@)),
        None => None,
    }
}

/// The guest name in a `query-name` reply.
pub fn reported_name(resp: &JsonValue) -> (r: Option<String>)
    ensures
        match r {
            Some(s) => reported_name_text(*resp) == Some(s@),
            None => reported_name_text(*resp) is None,
        },
{
    match resp.get("return") {
        Some(ret) => match as_str(ret.get("name")) {
            Some(s) => Some(s.to_owned()),
            None => None,
        },
        None => None,
    }
}

/// Whether a `query-status` reply says the vCPUs are stopped: `return.running`
/// is false. Nothing when the reply does not say.
pub open spec fn reported_paused_flag(resp: JsonValue) -> Option<bool> {
    match json_get(resp, "return"@) {
        Some(ret) => match json_bool(json_get(ret, "running"@)) {
            Some(b) => Some(!b),
            None => None,
        },
        None => None,
    }
}

/// Whether the guest is paused, per a `query-status` reply.
pub fn reported_paused(resp: &JsonValue) -> (r: Option<bool>)
    ensures
        r == reported_paused_flag(*resp),
{
    match resp.get("return") {
        Some(ret) => match as_bool(ret.get("running")) {
            Some(b) => Some(!b),
            None => None,
        },
        None => None,
    }
}

} // verus!
