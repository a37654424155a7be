//! Framing: one message per line of JSON text.
use vstd::prelude::*;
use vstd::string::StringExecFns;

use crate::json::{self, entries, object_text, parsed_entries, Object};
use serde_json::Value;
use crate::message::{decode, decodes_to, encode, is_envelope_of, DecodeError, Message};

verus! {

/// Why a line could not be written or read.
#[derive(Debug, Clone, Copy, PartialEq, Eq)]
pub enum FrameError {
    /// The text is not a JSON object.
    Syntax,
    /// The object is not a message.
    Malformed(DecodeError),
}

/// What reading a line gives, from its parse.
pub open spec fn unframed(
    parsed: Option<Map<Seq<char>, Value>>,
    r: Result<Message, FrameError>,
) -> bool {
    match parsed {
        None => r == Err::<Message, FrameError>(FrameError::Syntax),
        Some(f) => match r {
            Ok(m) => decodes_to(f, Ok(m@)),
            Err(FrameError::Malformed(e)) => decodes_to(f, Err(e)),
            Err(FrameError::Syntax) => false,
        },
    }
}

/// Ends a line of text with a newline.
pub fn terminate(text: String) -> (r: String)
    ensures
        r@ == text@ + "\n"@,
{
    let mut line = text;
    line.append("\n");
    line
}

/// The line that carries a message: its envelope's JSON text and a newline.
pub fn frame(msg: Message) -> (line: String)
    ensures
        exists|f: Map<Seq<char>, Value>| is_envelope_of(f, msg@) && line@ == object_text(f) + "\n"@,
{
    let ghost m = msg@;
    let obj = encode(msg);
    let text = match json::to_text(&obj) {
        Ok(text) => text,
        Err(_) => {
            assert(false);
            String::new()
        },
    };
    let line = terminate(text);
    assert(is_envelope_of(entries(obj), m) && line@ == object_text(entries(obj)) + "\n"@);
    line
}

/// The message that an object read from the wire carries.
pub fn message_of(obj: Object) -> (r: Result<Message, FrameError>)
    ensures
        unframed(Some(entries(obj)), r),
{
    match decode(obj) {
        Ok(m) => Ok(m),
        Err(e) => Err(FrameError::Malformed(e)),
    }
}

/// The message that a line read from the wire carries. Text that is not a
/// JSON object, or an object that is not a message, is an error.
pub fn unframe(line: &str) -> (r: Result<Message, FrameError>)
    ensures
        unframed(parsed_entries(line@), r),
{
    match json::parse_object(line) {
        Ok(obj) => message_of(obj),
        Err(_) => Err(FrameError::Syntax),
    }
}

} // verus!
