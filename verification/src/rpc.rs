use vstd::prelude::*;
use crate::rencode::value::{Model, Value, models, lemma_list_model, lemma_dict_model};
use crate::types::event::{arg_int, arg_str};
use crate::types::message::result_values;
use crate::types::rpc_error::{Dict, dict_from_pairs, dict_model, dict_of};

verus! {

pub const RPC_RESPONSE: i64 = 1;

pub const RPC_ERROR: i64 = 2;

pub const RPC_EVENT: i64 = 3;

/// A call of a method on the daemon; the server takes a list of these.
pub struct Request {
    pub method: &'static str,
    pub args: Vec<Value>,
    pub kwargs: Dict,
}

/// An exception raised by the daemon while it answered a request.
#[derive(Debug)]
pub struct Error {
    pub exception: String,
    pub args: Vec<Value>,
    pub kwargs: Dict,
    pub traceback: String,
}

/// A message from the daemon, with an event's data left as the daemon sent it.
#[derive(Debug)]
pub enum Inbound {
    Response { request_id: i64, result: Result<Vec<Value>, Error> },
    Event { event_name: String, data: Vec<Value> },
}

/// Why a list of values is not an inbound message.
#[derive(Debug, Clone, Copy, PartialEq, Eq)]
pub enum InboundError {
    /// The message has fewer elements than its type needs.
    Missing,
    /// The first element is not an integer.
    InvalidMessageType,
    /// The first element is an integer other than 1, 2 or 3.
    UnknownMessageType(i64),
    /// The request id is not an integer.
    InvalidRequestId,
    /// An element of an error answer has the wrong type.
    InvalidErrorField,
    /// An event's name is not a string.
    InvalidEventName,
    /// An event's data is not a list.
    InvalidEventData,
}

/// Whether the four fields of an error answer, from `ms[2]` on, are all there
/// and of the right types.
pub open spec fn error_fields(ms: Seq<Model>) -> Result<(), InboundError> {
    if ms.len() < 3 {
        Err(InboundError::Missing)
    } else if !(ms[2] is Str) {
        Err(InboundError::InvalidErrorField)
    } else if ms.len() < 4 {
        Err(InboundError::Missing)
    } else if !(ms[3] is List) {
        Err(InboundError::InvalidErrorField)
    } else if ms.len() < 5 {
        Err(InboundError::Missing)
    } else if !(ms[4] is Dict && dict_of(ms[4]->Dict_0) is Some) {
        Err(InboundError::InvalidErrorField)
    } else if ms.len() < 6 {
        Err(InboundError::Missing)
    } else if !(ms[5] is Str) {
        Err(InboundError::InvalidErrorField)
    } else {
        Ok(())
    }
}

/// Whether `r` is what the list `ms` reads as.
pub open spec fn inbound_from(r: Result<Inbound, InboundError>, ms: Seq<Model>) -> bool {
    if ms.len() == 0 {
        r == Err::<Inbound, InboundError>(InboundError::Missing)
    } else if arg_int(ms[0]) is None {
        r == Err::<Inbound, InboundError>(InboundError::InvalidMessageType)
    } else if !(arg_int(ms[0]) matches Some(t) && 1 <= t <= 3) {
        r == Err::<Inbound, InboundError>(InboundError::UnknownMessageType(arg_int(ms[0])->0 as i64))
    } else if arg_int(ms[0]) == Some(3int) {
        if ms.len() < 2 {
            r == Err::<Inbound, InboundError>(InboundError::Missing)
        } else if arg_str(ms[1]) is None {
            r == Err::<Inbound, InboundError>(InboundError::InvalidEventName)
        } else if ms.len() < 3 {
            r == Err::<Inbound, InboundError>(InboundError::Missing)
        } else if !(ms[2] is List) {
            r == Err::<Inbound, InboundError>(InboundError::InvalidEventData)
        } else {
            r matches Ok(Inbound::Event { event_name, data }) && event_name@ == ms[1]->Str_0
                && models(data@) == ms[2]->List_0
        }
    } else if ms.len() < 2 {
        r == Err::<Inbound, InboundError>(InboundError::Missing)
    } else if arg_int(ms[1]) is None {
        r == Err::<Inbound, InboundError>(InboundError::InvalidRequestId)
    } else if arg_int(ms[0]) == Some(1int) {
        if ms.len() < 3 {
            r == Err::<Inbound, InboundError>(InboundError::Missing)
        } else {
            r matches Ok(Inbound::Response { request_id, result: Ok(values) }) && request_id
                == arg_int(ms[1])->0 && models(values@) == result_values(ms[2])
        }
    } else {
        match error_fields(ms) {
            Err(e) => r == Err::<Inbound, InboundError>(e),
            Ok(()) => r matches Ok(Inbound::Response { request_id, result: Err(err) })
                && request_id == arg_int(ms[1])->0 && err.exception@ == ms[2]->Str_0 && models(
                err.args@,
            ) == ms[3]->List_0 && dict_model(err.kwargs@) == dict_of(ms[4]->Dict_0)->0
                && err.traceback@ == ms[5]->Str_0,
        }
    }
}

fn int_of(v: &Value) -> (r: Option<i64>)
    ensures
        match arg_int(v.model()) {
            Some(x) => r == Some(x as i64),
            None => r is None,
        },
{
    match v {
        Value::I8(x) => Some(*x as i64),
        Value::I16(x) => Some(*x as i64),
        Value::I32(x) => Some(*x as i64),
        Value::I64(x) => Some(*x),
        _ => None,
    }
}

fn list_of(v: &Value) -> (r: Option<Vec<Value>>)
    ensures
        match v.model() {
            Model::List(items) => r matches Some(out) && models(out@) == items,
            _ => r is None,
        },
{
    match v {
        Value::List(items) => {
            proof {
                lemma_list_model(*items);
            }
            match v.deep_clone() {
                Value::List(out) => {
                    proof {
                        lemma_list_model(out);
                    }
                    Some(out)
                },
                _ => None,
            }
        },
        _ => None,
    }
}

fn str_of(v: &Value) -> (r: Option<String>)
    ensures
        match arg_str(v.model()) {
            Some(s) => r matches Some(x) && x@ == s,
            None => r is None,
        },
{
    match v {
        Value::Str(s) => Some(s.clone()),
        _ => None,
    }
}

impl Inbound {
    /// Reads a message from the list of values it arrived as.
    pub fn from(data: &[Value]) -> (r: Result<Inbound, InboundError>)
        ensures
            inbound_from(r, models(data@)),
    {
        let ghost ms = models(data@);
        assert(forall|i: int| 0 <= i < data@.len() ==> #[trigger] ms[i] == data@[i].model());
        if data.len() == 0 {
            return Err(InboundError::Missing);
        }
        let msg_type = match int_of(&data[0]) {
            Some(t) => t,
            None => return Err(InboundError::InvalidMessageType),
        };
        if msg_type == RPC_EVENT {
            if data.len() < 2 {
                return Err(InboundError::Missing);
            }
            let event_name = match str_of(&data[1]) {
                Some(s) => s,
                None => return Err(InboundError::InvalidEventName),
            };
            if data.len() < 3 {
                return Err(InboundError::Missing);
            }
            let event_data = match list_of(&data[2]) {
                Some(v) => v,
                None => return Err(InboundError::InvalidEventData),
            };
            return Ok(Inbound::Event { event_name, data: event_data });
        }
        if msg_type != RPC_RESPONSE && msg_type != RPC_ERROR {
            return Err(InboundError::UnknownMessageType(msg_type));
        }
        if data.len() < 2 {
            return Err(InboundError::Missing);
        }
        let request_id = match int_of(&data[1]) {
            Some(id) => id,
            None => return Err(InboundError::InvalidRequestId),
        };
        if msg_type == RPC_RESPONSE {
            if data.len() < 3 {
                return Err(InboundError::Missing);
            }
            let values = match list_of(&data[2]) {
                Some(v) => v,
                None => {
                    let mut v: Vec<Value> = Vec::new();
                    v.push(data[2].deep_clone());
                    assert(models(v@) =~= seq![data@[2].model()]);
                    v
                },
            };
            return Ok(Inbound::Response { request_id, result: Ok(values) });
        }
        if data.len() < 3 {
            return Err(InboundError::Missing);
        }
        let exception = match str_of(&data[2]) {
            Some(s) => s,
            None => return Err(InboundError::InvalidErrorField),
        };
        if data.len() < 4 {
            return Err(InboundError::Missing);
        }
        let args = match list_of(&data[3]) {
            Some(v) => v,
            None => return Err(InboundError::InvalidErrorField),
        };
        if data.len() < 5 {
            return Err(InboundError::Missing);
        }
        let kwargs = match &data[4] {
            Value::Dict(pairs) => {
                proof {
                    lemma_dict_model(*pairs);
                }
                match dict_from_pairs(pairs) {
                    Some(d) => d,
                    None => return Err(InboundError::InvalidErrorField),
                }
            },
            _ => return Err(InboundError::InvalidErrorField),
        };
        if data.len() < 6 {
            return Err(InboundError::Missing);
        }
        let traceback = match str_of(&data[5]) {
            Some(s) => s,
            None => return Err(InboundError::InvalidErrorField),
        };
        Ok(
            Inbound::Response {
                request_id,
                result: Err(Error { exception, args, kwargs, traceback }),
            },
        )
    }
}

/// Law: what the three kinds of inbound message read as.
/// - `[1, id, v]` answers request `id` with the values of `v`: the items of a
///   list, or `v` alone.
/// - `[2, id, exception, args, kwargs, traceback]` answers it with that error
///   report, as it came.
/// - `[3, name, data]` announces the event `name` with `data` left as sent.
/// - Any other number first is refused as an unknown message type.
pub proof fn law_inbound_kinds(
    r: Result<Inbound, InboundError>,
    id: i64,
    v: Model,
    name: Seq<char>,
    args: Seq<Model>,
    kwargs: Seq<(Model, Model)>,
    traceback: Seq<char>,
    t: i64,
    rest: Seq<Model>,
)
    ensures
        inbound_from(r, seq![Model::I8(1), Model::I64(id), v]) ==> (r matches Ok(
            Inbound::Response { request_id, result: Ok(values) },
        ) && request_id == id && models(values@) == (if v is List {
            v->List_0
        } else {
            seq![v]
        })),
        dict_of(kwargs) is Some && inbound_from(
            r,
            seq![
                Model::I8(2),
                Model::I64(id),
                Model::Str(name),
                Model::List(args),
                Model::Dict(kwargs),
                Model::Str(traceback),
            ],
        ) ==> (r matches Ok(Inbound::Response { request_id, result: Err(err) }) && request_id == id
            && err.exception@ == name && models(err.args@) == args && dict_model(err.kwargs@)
            == dict_of(kwargs)->0 && err.traceback@ == traceback),
        inbound_from(r, seq![Model::I8(3), Model::Str(name), Model::List(args)]) ==> (r matches Ok(
            Inbound::Event { event_name, data },
        ) && event_name@ == name && models(data@) == args),
        !(1 <= t <= 3) && inbound_from(r, seq![Model::I64(t)] + rest) ==> r == Err::<
            Inbound,
            InboundError,
        >(InboundError::UnknownMessageType(t)),
{
}

} // verus!
