//! A bidirectional request/response transport over newline-delimited JSON.
//!
//! The verified core holds the message model and its wire envelope, line
//! framing, the correlation of outgoing requests with their responses, and
//! the decisions of the dispatch loop. Threads, locks and channels live
//! around it.
pub mod code_action;
pub mod correlator;
pub mod dispatch;
pub mod frame;
pub mod json;
pub mod message;

pub use code_action::CodeAction;
pub use correlator::Correlator;
pub use dispatch::{answer, io_error, start_request, Action, ControlFlow, Dispatcher, IO_ERROR};
pub use frame::{frame, message_of, terminate, unframe, FrameError};
pub use message::{decode, encode, DecodeError, Message, Outcome, MALFORMED_RESPONSE};
