//! The message model and its wire envelope.
//!
//! A message travels as one JSON object: a request carries `id`, `method`
//! and `params`, a notification `method` and `params`, and a response `id`
//! with exactly one of `result` and `error`.
use vstd::prelude::*;

use crate::json::{self, entries, str_in, u64_in, Object};
use serde_json::Value;

verus! {

/// What a request comes to: a success value or an error value.
pub type Outcome = Result<Value, Value>;

/// The error text that a response holding both or neither of `result` and
/// `error` resolves to.
pub const MALFORMED_RESPONSE: &'static str = "RPC response must contain exactly one of 'error' or 'result' fields.";

/// One unit of the protocol, in either direction.
#[derive(Debug, PartialEq)]
pub enum Message {
    Notification { method: String, params: Value },
    Request { id: u64, method: String, params: Value },
    Response { id: u64, outcome: Outcome },
}

/// A message with its method name as text.
pub ghost enum MessageView {
    Notification { method: Seq<char>, params: Value },
    Request { id: u64, method: Seq<char>, params: Value },
    Response { id: u64, outcome: Outcome },
}

impl View for Message {
    type V = MessageView;

    open spec fn view(&self) -> MessageView {
        match self {
            Message::Notification { method, params } => MessageView::Notification {
                method: method@,
                params: *params,
            },
            Message::Request { id, method, params } => MessageView::Request {
                id: *id,
                method: method@,
                params: *params,
            },
            Message::Response { id, outcome } => MessageView::Response { id: *id, outcome: *outcome },
        }
    }
}

/// Why an inbound object is not a message.
#[derive(Debug, Clone, Copy, PartialEq, Eq)]
pub enum DecodeError {
    /// `id` is present but is not an unsigned integer.
    BadId,
    /// A call lacks `method`, or it is not a string.
    BadMethod,
    /// A call lacks `params`.
    MissingParams,
}

/// `f` is the envelope of `m`: exactly the fields that its kind carries.
pub open spec fn is_envelope_of(f: Map<Seq<char>, Value>, m: MessageView) -> bool {
    match m {
        MessageView::Notification { method, params } => {
            &&& f.dom() == set!["method"@, "params"@]
            &&& str_in(f["method"@]) == Some(method)
            &&& f["params"@] == params
        },
        MessageView::Request { id, method, params } => {
            &&& f.dom() == set!["id"@, "method"@, "params"@]
            &&& u64_in(f["id"@]) == Some(id)
            &&& str_in(f["method"@]) == Some(method)
            &&& f["params"@] == params
        },
        MessageView::Response { id, outcome } => match outcome {
            Ok(v) => {
                &&& f.dom() == set!["id"@, "result"@]
                &&& u64_in(f["id"@]) == Some(id)
                &&& f["result"@] == v
            },
            Err(e) => {
                &&& f.dom() == set!["id"@, "error"@]
                &&& u64_in(f["id"@]) == Some(id)
                &&& f["error"@] == e
            },
        },
    }
}

/// How a call (a request when `id` is given, else a notification) decodes.
pub open spec fn call_decodes_to(
    f: Map<Seq<char>, Value>,
    id: Option<u64>,
    r: Result<MessageView, DecodeError>,
) -> bool {
    if !f.contains_key("method"@) || str_in(f["method"@]) is None {
        r == Err::<MessageView, DecodeError>(DecodeError::BadMethod)
    } else if !f.contains_key("params"@) {
        r == Err::<MessageView, DecodeError>(DecodeError::MissingParams)
    } else {
        let method = str_in(f["method"@])->Some_0;
        match id {
            Some(id) => r == Ok::<MessageView, DecodeError>(
                MessageView::Request { id, method, params: f["params"@] },
            ),
            None => r == Ok::<MessageView, DecodeError>(
                MessageView::Notification { method, params: f["params"@] },
            ),
        }
    }
}

/// How a response with the given id decodes: exactly one of `result` and
/// `error` gives that outcome; both or neither give an error outcome with
/// the text `MALFORMED_RESPONSE`.
pub open spec fn response_decodes_to(
    f: Map<Seq<char>, Value>,
    id: u64,
    r: Result<MessageView, DecodeError>,
) -> bool {
    let has_result = f.contains_key("result"@);
    let has_error = f.contains_key("error"@);
    if has_result && !has_error {
        r == Ok::<MessageView, DecodeError>(
            MessageView::Response { id, outcome: Ok(f["result"@]) },
        )
    } else if has_error && !has_result {
        r == Ok::<MessageView, DecodeError>(
            MessageView::Response { id, outcome: Err(f["error"@]) },
        )
    } else {
        r matches Ok(MessageView::Response { id: i, outcome: Err(v) }) && i == id && str_in(v)
            == Some(MALFORMED_RESPONSE@)
    }
}

/// What an inbound object with fields `f` decodes to. Fields beyond those
/// the kind reads are ignored.
pub open spec fn decodes_to(f: Map<Seq<char>, Value>, r: Result<MessageView, DecodeError>) -> bool {
    if f.contains_key("id"@) {
        match u64_in(f["id"@]) {
            None => r == Err::<MessageView, DecodeError>(DecodeError::BadId),
            Some(id) => if f.contains_key("method"@) {
                call_decodes_to(f, Some(id), r)
            } else {
                response_decodes_to(f, id, r)
            },
        }
    } else {
        call_decodes_to(f, None, r)
    }
}

/// The view of a decoding result.
pub open spec fn decoded_view(r: Result<Message, DecodeError>) -> Result<MessageView, DecodeError> {
    match r {
        Ok(m) => Ok(m@),
        Err(e) => Err(e),
    }
}

proof fn lemma_keys_differ()
    ensures
        "id"@ != "method"@,
        "id"@ != "params"@,
        "id"@ != "result"@,
        "id"@ != "error"@,
        "method"@ != "params"@,
        "method"@ != "result"@,
        "method"@ != "error"@,
        "params"@ != "result"@,
        "params"@ != "error"@,
        "result"@ != "error"@,
{
    reveal_strlit("id");
    reveal_strlit("method");
    reveal_strlit("params");
    reveal_strlit("result");
    reveal_strlit("error");
    assert("id"@.len() != "method"@.len());
    assert("id"@.len() != "params"@.len());
    assert("id"@.len() != "result"@.len());
    assert("id"@.len() != "error"@.len());
    assert("method"@[0] != "params"@[0]);
    assert("method"@[0] != "result"@[0]);
    assert("params"@[0] != "result"@[0]);
    assert("method"@.len() != "error"@.len());
    assert("params"@.len() != "error"@.len());
    assert("result"@.len() != "error"@.len());
}

/// The envelope of a message: the JSON object that carries it on the wire.
pub fn encode(msg: Message) -> (r: Object)
    ensures
        is_envelope_of(entries(r), msg@),
{
    proof {
        lemma_keys_differ();
    }
    let mut obj = json::new_object();
    match msg {
        Message::Notification { method, params } => {
            json::put(&mut obj, "method", json::string_value(method.as_str()));
            json::put(&mut obj, "params", params);
        },
        Message::Request { id, method, params } => {
            json::put(&mut obj, "id", json::number_value(id));
            json::put(&mut obj, "method", json::string_value(method.as_str()));
            json::put(&mut obj, "params", params);
        },
        Message::Response { id, outcome } => {
            json::put(&mut obj, "id", json::number_value(id));
            match outcome {
                Ok(v) => json::put(&mut obj, "result", v),
                Err(e) => json::put(&mut obj, "error", e),
            }
        },
    }
    proof {
        assert(entries(obj).dom() =~= match msg@ {
            MessageView::Notification { .. } => set!["method"@, "params"@],
            MessageView::Request { .. } => set!["id"@, "method"@, "params"@],
            MessageView::Response { outcome, .. } => if outcome is Ok {
                set!["id"@, "result"@]
            } else {
                set!["id"@, "error"@]
            },
        });
    }
    obj
}


/// The message that an inbound object carries; see `decodes_to`.
pub fn decode(obj: Object) -> (r: Result<Message, DecodeError>)
    ensures
        decodes_to(entries(obj), decoded_view(r)),
{
    proof {
        lemma_keys_differ();
    }
    let mut obj = obj;
    let id_field = json::take(&mut obj, "id");
    let method_field = json::take(&mut obj, "method");
    let id = match id_field {
        None => None,
        Some(v) => match json::as_u64(&v) {
            None => {
                return Err(DecodeError::BadId);
            },
            Some(n) => Some(n),
        },
    };
    match (id, method_field) {
        (Some(id), None) => {
            let result = json::take(&mut obj, "result");
            let error = json::take(&mut obj, "error");
            let outcome = match (result, error) {
                (Some(v), None) => Ok(v),
                (None, Some(e)) => Err(e),
                _ => Err(json::string_value(MALFORMED_RESPONSE)),
            };
            Ok(Message::Response { id, outcome })
        },
        (_, None) => Err(DecodeError::BadMethod),
        (_, Some(mv)) => match json::as_string(&mv) {
            None => Err(DecodeError::BadMethod),
            Some(method) => match json::take(&mut obj, "params") {
                None => Err(DecodeError::MissingParams),
                Some(params) => match id {
                    Some(id) => Ok(Message::Request { id, method, params }),
                    None => Ok(Message::Notification { method, params }),
                },
            },
        },
    }
}

/// Decoding the envelope of a message gives back that message, and no
/// other result.
pub proof fn lemma_decode_encode(f: Map<Seq<char>, Value>, m: MessageView)
    requires
        is_envelope_of(f, m),
    ensures
        decodes_to(f, Ok(m)),
        forall|r: Result<MessageView, DecodeError>| decodes_to(f, r) ==> r == Ok::<MessageView, DecodeError>(m),
{
    lemma_keys_differ();
    assert(f.dom().contains("method"@) <==> (m is Notification || m is Request));
    assert(f.dom().contains("id"@) <==> !(m is Notification));
    assert(f.dom().contains("params"@) <==> !(m is Response));
    assert(f.dom().contains("result"@) <==> (m matches MessageView::Response { outcome: Ok(_), .. }));
    assert(f.dom().contains("error"@) <==> (m matches MessageView::Response { outcome: Err(_), .. }));
}

/// A response object that holds both or neither of `result` and `error`
/// decodes to an error outcome for its id, never to a success.
pub proof fn lemma_malformed_response(f: Map<Seq<char>, Value>, id: u64)
    requires
        f.contains_key("id"@),
        u64_in(f["id"@]) == Some(id),
        !f.contains_key("method"@),
        f.contains_key("result"@) == f.contains_key("error"@),
    ensures
        forall|r: Result<MessageView, DecodeError>| #[trigger]
            decodes_to(f, r) ==> (r matches Ok(MessageView::Response { id: i, outcome: Err(v) })
                && i == id && str_in(v) == Some(MALFORMED_RESPONSE@)),
{
}

} // verus!
