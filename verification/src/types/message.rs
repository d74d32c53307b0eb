use vstd::prelude::*;
use crate::rencode::value::{Model, Value, models, lemma_list_model};
use crate::types::event::{Event, EventKind, args_fit, arg_int, event_from};
use crate::types::rpc_error::{GenericError, RpcError, dict_model, dict_of, generic_parts_ok, generic_from_parts};
use crate::types::rpc_error::add_torrent;

verus! {

/// A message from the daemon: the answer to a request, or an event.
#[derive(Debug)]
pub enum Message {
    Response { request_id: i64, result: Result<Vec<Value>, RpcError> },
    Event(Event),
}

/// Why a list of values is not a message.
#[derive(Debug, Clone, Copy, PartialEq, Eq)]
pub enum MessageError {
    /// The message is not a list.
    NotAList,
    /// The message has fewer elements than its type needs.
    Missing,
    /// The first element is not the number 1, 2 or 3.
    InvalidMessageType,
    /// The request id is not an integer.
    InvalidRequestId,
    /// An error answer does not hold an exception report.
    InvalidRpcError,
    /// An event's name is not a string.
    InvalidEventName,
    /// An event's arguments are not a list.
    InvalidEventArgs,
}

pub const RPC_RESPONSE: i64 = 1;

pub const RPC_ERROR: i64 = 2;

pub const RPC_EVENT: i64 = 3;

/// The result values of a successful answer: a list stands for its elements,
/// anything else for itself alone.
pub open spec fn result_values(m: Model) -> Seq<Model> {
    match m {
        Model::List(items) => items,
        _ => seq![m],
    }
}

/// Whether `e` is the error that the exception report `parts` stands for.
pub open spec fn rpc_error_from(e: RpcError, parts: Seq<Model>) -> bool {
    let args = parts[1]->List_0;
    if parts[0]->Str_0 == "AddTorrentError"@ && args.len() == 1 && args[0] is Str {
        e matches RpcError::AddTorrent(a) && add_torrent::parsed_as(args[0]->Str_0, a)
    } else {
        e matches RpcError::Generic(g) && generic_from_parts(g, parts)
    }
}

/// Whether `r` is what the list `ms` reads as.
pub open spec fn message_from(r: Result<Message, MessageError>, ms: Seq<Model>) -> bool {
    if ms.len() == 0 {
        r == Err::<Message, MessageError>(MessageError::Missing)
    } else if !(arg_int(ms[0]) matches Some(t) && (t == 1 || t == 2 || t == 3)) {
        r == Err::<Message, MessageError>(MessageError::InvalidMessageType)
    } else if arg_int(ms[0]) == Some(3int) {
        let rest = ms.subrange(1, ms.len() as int);
        if rest.len() == 2 && rest[0] is Str && rest[1] is List && (EventKind::named(
            rest[0]->Str_0,
        ) matches Some(k) && args_fit(k, rest[1]->List_0)) {
            r matches Ok(Message::Event(e)) && event_from(e, rest[0]->Str_0, rest[1]->List_0)
        } else if rest.len() < 2 {
            r == Err::<Message, MessageError>(MessageError::Missing)
        } else if !(rest[0] is Str) {
            r == Err::<Message, MessageError>(MessageError::InvalidEventName)
        } else if !(rest[1] is List) {
            r == Err::<Message, MessageError>(MessageError::InvalidEventArgs)
        } else {
            r matches Ok(Message::Event(Event::Unrecognized(name, args))) && name@
                == rest[0]->Str_0 && models(args@) == rest[1]->List_0
        }
    } else if ms.len() < 2 {
        r == Err::<Message, MessageError>(MessageError::Missing)
    } else if arg_int(ms[1]) is None {
        r == Err::<Message, MessageError>(MessageError::InvalidRequestId)
    } else if arg_int(ms[0]) == Some(1int) {
        if ms.len() < 3 {
            r == Err::<Message, MessageError>(MessageError::Missing)
        } else {
            r matches Ok(Message::Response { request_id, result: Ok(values) }) && request_id
                == arg_int(ms[1])->0 && models(values@) == result_values(ms[2])
        }
    } else {
        let parts = ms.subrange(2, ms.len() as int);
        if generic_parts_ok(parts) {
            r matches Ok(Message::Response { request_id, result: Err(e) }) && request_id
                == arg_int(ms[1])->0 && rpc_error_from(e, parts)
        } else {
            r == Err::<Message, MessageError>(MessageError::InvalidRpcError)
        }
    }
}

fn int_value(v: &Value) -> (r: Option<i64>)
    ensures
        match arg_int(v.model()) {
            Some(x) => r == Some(x as i64),
            None => r is None,
        },
{
    match v {
        Value::I8(x) => Some(*x as i64),
        Value::I16(x) => Some(*x as i64),
        Value::I32(x) => Some(*x as i64),
        Value::I64(x) => Some(*x),
        _ => None,
    }
}

impl Message {
    /// Reads a message from the list of values it arrived as.
    pub fn try_from_list(data: &Vec<Value>) -> (r: Result<Message, MessageError>)
        ensures
            message_from(r, models(data@)),
    {
        let ghost ms = models(data@);
        assert(forall|i: int| 0 <= i < data@.len() ==> #[trigger] ms[i] == data@[i].model());
        if data.len() == 0 {
            return Err(MessageError::Missing);
        }
        let msg_type = match int_value(&data[0]) {
            Some(t) => t,
            None => return Err(MessageError::InvalidMessageType),
        };
        if msg_type != RPC_RESPONSE && msg_type != RPC_ERROR && msg_type != RPC_EVENT {
            return Err(MessageError::InvalidMessageType);
        }
        if msg_type == RPC_EVENT {
            let ghost rest = ms.subrange(1, ms.len() as int);
            if data.len() >= 3 {
                assert(rest[0] == data@[1].model());
                assert(rest[1] == data@[2].model());
            }
            if data.len() == 3 {
                if let Value::Str(name) = &data[1] {
                    if let Value::List(args) = &data[2] {
                        proof {
                            lemma_list_model(*args);
                        }
                        if let Some(e) = Event::from_parts(name.as_str(), args) {
                            return Ok(Message::Event(e));
                        }
                    }
                }
            }
            if data.len() < 3 {
                return Err(MessageError::Missing);
            }
            let name = match &data[1] {
                Value::Str(s) => s.clone(),
                _ => return Err(MessageError::InvalidEventName),
            };
            let args = match data[2].deep_clone() {
                Value::List(items) => {
                    proof {
                        lemma_list_model(items);
                    }
                    items
                },
                _ => return Err(MessageError::InvalidEventArgs),
            };
            return Ok(Message::Event(Event::Unrecognized(name, args)));
        }
        if data.len() < 2 {
            return Err(MessageError::Missing);
        }
        let request_id = match int_value(&data[1]) {
            Some(id) => id,
            None => return Err(MessageError::InvalidRequestId),
        };
        if msg_type == RPC_RESPONSE {
            if data.len() < 3 {
                return Err(MessageError::Missing);
            }
            let values = match data[2].deep_clone() {
                Value::List(items) => {
                    proof {
                        lemma_list_model(items);
                    }
                    items
                },
                other => {
                    let mut v: Vec<Value> = Vec::new();
                    v.push(other);
                    assert(models(v@) =~= seq![other.model()]);
                    v
                },
            };
            Ok(Message::Response { request_id, result: Ok(values) })
        } else {
            let mut parts: Vec<Value> = Vec::new();
            let mut i: usize = 2;
            while i < data.len()
                invariant
                    2 <= i <= data.len(),
                    parts.len() == i - 2,
                    forall|j: int|
                        0 <= j < parts.len() ==> (#[trigger] parts@[j]).model() == data@[j
                            + 2].model(),
                decreases data.len() - i,
            {
                parts.push(data[i].deep_clone());
                i = i + 1;
            }
            assert(models(parts@) =~= ms.subrange(2, ms.len() as int));
            match GenericError::from_values(&parts) {
                Some(g) => Ok(Message::Response { request_id, result: Err(RpcError::from_generic(g)) }),
                None => Err(MessageError::InvalidRpcError),
            }
        }
    }

    /// Reads a message from the value it arrived as, which must be a list.
    pub fn from_value(v: &Value) -> (r: Result<Message, MessageError>)
        ensures
            match v.model() {
                Model::List(ms) => message_from(r, ms),
                _ => r == Err::<Message, MessageError>(MessageError::NotAList),
            },
    {
        match v {
            Value::List(items) => {
                proof {
                    lemma_list_model(*items);
                }
                Message::try_from_list(items)
            },
            _ => Err(MessageError::NotAList),
        }
    }
}

/// Law: what the three kinds of message read as.
/// - `[1, id, v]` answers request `id` with the values of `v`: the items of a
///   list, or `v` alone.
/// - `[2, id, "AddTorrentError", [text], kwargs, traceback]` answers request
///   `id` with the add-torrent error that `text` says.
/// - `[2, id, name, args, kwargs, traceback]` with any other exception name
///   answers it with that report, as it came.
/// - `[3, name, args]` announces the event of that name with those arguments
///   when they fit it, and otherwise an unrecognised one that keeps both.
pub proof fn law_message_kinds(
    r: Result<Message, MessageError>,
    id: i64,
    v: Model,
    name: Seq<char>,
    args: Seq<Model>,
    kwargs: Seq<(Model, Model)>,
    traceback: Seq<char>,
)
    ensures
        message_from(r, seq![Model::I8(1), Model::I64(id), v]) ==> (r matches Ok(
            Message::Response { request_id, result: Ok(values) },
        ) && request_id == id && models(values@) == (if v is List {
            v->List_0
        } else {
            seq![v]
        })),
        dict_of(kwargs) is Some && args.len() == 1 && args[0] is Str && message_from(
            r,
            seq![
                Model::I8(2),
                Model::I64(id),
                Model::Str("AddTorrentError"@),
                Model::List(args),
                Model::Dict(kwargs),
                Model::Str(traceback),
            ],
        ) ==> (r matches Ok(Message::Response { request_id, result: Err(RpcError::AddTorrent(a)) })
            && request_id == id && add_torrent::parsed_as(args[0]->Str_0, a)),
        dict_of(kwargs) is Some && name != "AddTorrentError"@ && message_from(
            r,
            seq![
                Model::I8(2),
                Model::I64(id),
                Model::Str(name),
                Model::List(args),
                Model::Dict(kwargs),
                Model::Str(traceback),
            ],
        ) ==> (r matches Ok(Message::Response { request_id, result: Err(RpcError::Generic(g)) })
            && request_id == id && g.exception@ == name && models(g.args@) == args && dict_model(
            g.kwargs@,
        ) == dict_of(kwargs)->0 && g.traceback@ == traceback),
        message_from(r, seq![Model::I8(3), Model::Str(name), Model::List(args)]) ==> (
        match EventKind::named(name) {
            Some(k) => if args_fit(k, args) {
                r matches Ok(Message::Event(e)) && event_from(e, name, args)
            } else {
                r matches Ok(Message::Event(Event::Unrecognized(n, a))) && n@ == name && models(
                    a@,
                ) == args
            },
            None => r matches Ok(Message::Event(Event::Unrecognized(n, a))) && n@ == name && models(
                a@,
            ) == args,
        }),
{
    let s3 = seq![Model::I8(3), Model::Str(name), Model::List(args)];
    assert(s3.subrange(1, 3) =~= seq![Model::Str(name), Model::List(args)]);
    let s2 = seq![
        Model::I8(2),
        Model::I64(id),
        Model::Str(name),
        Model::List(args),
        Model::Dict(kwargs),
        Model::Str(traceback),
    ];
    assert(s2.subrange(2, 6) =~= seq![
        Model::Str(name),
        Model::List(args),
        Model::Dict(kwargs),
        Model::Str(traceback),
    ]);
    let s2a = seq![
        Model::I8(2),
        Model::I64(id),
        Model::Str("AddTorrentError"@),
        Model::List(args),
        Model::Dict(kwargs),
        Model::Str(traceback),
    ];
    assert(s2a.subrange(2, 6) =~= seq![
        Model::Str("AddTorrentError"@),
        Model::List(args),
        Model::Dict(kwargs),
        Model::Str(traceback),
    ]);
}

} // verus!
