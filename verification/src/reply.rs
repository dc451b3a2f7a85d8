//! How the server's answer to an expression is read.

use vstd::prelude::*;
use crate::std_text::{lossy_utf8, trimmed, utf8_lossy};

verus! {

/// A message received from the server.
pub enum Reply {
    Text(String),
    Binary(Vec<u8>),
    Close,
    /// Any other kind of message (ping, pong, raw frame).
    Other,
}

/// What a reply amounts to before its text is read as a number.
pub enum Reading {
    /// The reply carries this text, to be read as a number; `binary` tells
    /// whether it came in a binary message.
    Candidate { text: String, binary: bool },
    /// The reply is a failure with this message.
    Failure(String),
}

/// The step of the exchange with the server that failed.
#[derive(Clone, Copy, Debug, PartialEq, Eq, Structural)]
pub enum Stage {
    Send,
    Receive,
}

/// The message shown when the connection closes.
pub open spec fn closed_text() -> Seq<char> {
    "El servidor cerró la conexión"@
}

/// The message shown for a reply of an unexpected kind.
pub open spec fn unexpected_text() -> Seq<char> {
    "Error inesperado"@
}

/// What a reply amounts to: its trimmed text for text and binary messages,
/// a failure otherwise.
pub open spec fn reading_of(reply: Reply) -> (bool, Seq<char>, bool) {
    match reply {
        Reply::Text(t) => (true, trimmed(t@), false),
        Reply::Binary(b) => (true, trimmed(lossy_utf8(b@)), true),
        Reply::Close => (false, closed_text(), false),
        Reply::Other => (false, unexpected_text(), false),
    }
}

/// The view of a reading: whether it is a candidate number, its text, and
/// whether it came in a binary message.
pub open spec fn reading_view(r: Reading) -> (bool, Seq<char>, bool) {
    match r {
        Reading::Candidate { text, binary } => (true, text@, binary),
        Reading::Failure(m) => (false, m@, false),
    }
}

/// The error shown when the text of a reply is not a number.
pub open spec fn rejection_text(text: Seq<char>, binary: bool) -> Seq<char> {
    if binary {
        "Respuesta binaria "@ + text
    } else {
        text
    }
}

/// The error shown when a step of the exchange fails with `detail`.
pub open spec fn failure_text(stage: Stage, detail: Seq<char>) -> Seq<char> {
    match stage {
        Stage::Send => "Error al enviar "@ + detail,
        Stage::Receive => "Error al recibir "@ + detail,
    }
}

/// Reads a reply: text and binary messages give their text without
/// surrounding white space, a close or any other message gives a failure.
pub fn read_reply(reply: Reply) -> (r: Reading)
    ensures
        reading_view(r) == reading_of(reply),
        r is Candidate <==> (reply is Text || reply is Binary),
        r is Candidate ==> (r->binary <==> reply is Binary),
{
    proof {
        crate::display_laws::law_reply_kinds(reply);
    }
    match reply {
        Reply::Text(t) => Reading::Candidate { text: t.as_str().trim().to_owned(), binary: false },
        Reply::Binary(b) => {
            let text = utf8_lossy(b.as_slice());
            Reading::Candidate { text: text.as_str().trim().to_owned(), binary: true }
        },
        Reply::Close => Reading::Failure("El servidor cerró la conexión".to_owned()),
        Reply::Other => Reading::Failure("Error inesperado".to_owned()),
    }
}

/// The error for a reply whose text is not a number: the text itself, or,
/// for a binary message, the text behind `Respuesta binaria `.
pub fn rejection(text: &str, binary: bool) -> (m: String)
    ensures
        m@ == rejection_text(text@, binary),
{
    if binary {
        let mut m = "Respuesta binaria ".to_owned();
        m.append(text);
        m
    } else {
        text.to_owned()
    }
}

/// The error for a failed step of the exchange.
pub fn failure(stage: Stage, detail: &str) -> (m: String)
    ensures
        m@ == failure_text(stage, detail@),
{
    let mut m = match stage {
        Stage::Send => "Error al enviar ".to_owned(),
        Stage::Receive => "Error al recibir ".to_owned(),
    };
    m.append(detail);
    m
}

} // verus!
