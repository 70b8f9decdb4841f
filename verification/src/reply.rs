//! What the driver answers to a call.
use crate::json::{Json, JsonView};
use vstd::prelude::*;

verus! {

/// An answer: the fields of a success, an error with its code and its message, or a text that is
/// the whole answer.
#[derive(Debug, PartialEq)]
pub enum Reply {
    Success(Json),
    Error { code: String, message: String },
    Raw(String),
}

/// What an answer is.
#[verifier::ext_equal]
pub enum ReplyView {
    Success(JsonView),
    Error { code: Seq<char>, message: Seq<char> },
    Raw(Seq<char>),
}

impl View for Reply {
    type V = ReplyView;

    open spec fn view(&self) -> ReplyView {
        match *self {
            Reply::Success(fields) => ReplyView::Success(fields@),
            Reply::Error { code, message } => ReplyView::Error { code: code@, message: message@ },
            Reply::Raw(text) => ReplyView::Raw(text@),
        }
    }
}

/// The error with a code and a message.
pub open spec fn error_view(code: Seq<char>, message: Seq<char>) -> ReplyView {
    ReplyView::Error { code, message }
}

/// The error with a code and a message.
pub fn error(code: &str, message: &str) -> (r: Reply)
    ensures
        r@ == error_view(code@, message@),
{
    Reply::Error { code: code.to_owned(), message: message.to_owned() }
}

/// An answer is seen as it is: the fields of a success, the code and the message of an error, or
/// the text.
pub proof fn law_an_answer_is_seen_as_it_is(reply: Reply)
    ensures
        match reply {
            Reply::Success(fields) => reply@ == ReplyView::Success(fields@),
            Reply::Error { code, message } => reply@ matches ReplyView::Error {
                code: seen_code,
                message: seen_message,
            } && seen_code == code@ && seen_message == message@,
            Reply::Raw(text) => reply@ == ReplyView::Raw(text@),
        },
{
}

} // verus!
