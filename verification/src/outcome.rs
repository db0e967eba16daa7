//! What an operation answers.
use vstd::prelude::*;
use vstd::string::*;

use crate::json::Json;
use crate::json;

verus! {

/// Why an operation failed.
#[derive(Debug, Clone, Copy, PartialEq, Eq, Structural)]
pub enum ErrCode {
    InvalidParams,
    Unavailable,
    Conflict,
    Internal,
    UnknownOp,
}

impl ErrCode {
    /// The code as it stands in an answer.
    pub open spec fn text(self) -> Seq<char> {
        match self {
            ErrCode::InvalidParams => "INVALID_PARAMS"@,
            ErrCode::Unavailable => "UNAVAILABLE"@,
            ErrCode::Conflict => "CONFLICT"@,
            ErrCode::Internal => "INTERNAL"@,
            ErrCode::UnknownOp => "UNKNOWN_OP"@,
        }
    }

    /// The code as it stands in an answer.
    pub fn as_text(self) -> (r: String)
        ensures
            r@ == self.text(),
    {
        match self {
            ErrCode::InvalidParams => "INVALID_PARAMS".to_owned(),
            ErrCode::Unavailable => "UNAVAILABLE".to_owned(),
            ErrCode::Conflict => "CONFLICT".to_owned(),
            ErrCode::Internal => "INTERNAL".to_owned(),
            ErrCode::UnknownOp => "UNKNOWN_OP".to_owned(),
        }
    }
}

/// An answer: data where the operation succeeded, a code where it failed, and a
/// message where there is something to say.
#[derive(Debug)]
pub struct Outcome {
    pub ok: bool,
    pub data: Option<Json>,
    pub code: Option<String>,
    pub message: Option<String>,
}

/// What an `Outcome` is: see there.
pub struct OutcomeView {
    pub ok: bool,
    pub data: Option<json::JsonView>,
    pub code: Option<Seq<char>>,
    pub message: Option<Seq<char>>,
}

impl View for Outcome {
    type V = OutcomeView;

    open spec fn view(&self) -> OutcomeView {
        OutcomeView {
            ok: self.ok,
            data: match self.data {
                Some(d) => Some(d@),
                None => None,
            },
            code: match self.code {
                Some(c) => Some(c@),
                None => None,
            },
            message: match self.message {
                Some(m) => Some(m@),
                None => None,
            },
        }
    }
}

/// No two codes are told as the same text.
pub proof fn law_codes_have_different_texts(a: ErrCode, b: ErrCode)
    ensures
        a.text() == b.text() ==> a == b,
{
    reveal_strlit("INVALID_PARAMS");
    reveal_strlit("UNAVAILABLE");
    reveal_strlit("CONFLICT");
    reveal_strlit("INTERNAL");
    reveal_strlit("UNKNOWN_OP");
    if a.text() == b.text() {
        assert(a.text().len() == b.text().len() && a.text()[0] == b.text()[0]);
    }
}

/// The answer of a failed operation.
pub open spec fn failure(code: ErrCode, message: Seq<char>) -> OutcomeView {
    OutcomeView { ok: false, data: None, code: Some(code.text()), message: Some(message) }
}

/// The answer of an operation that succeeded.
pub open spec fn success(data: json::JsonView) -> OutcomeView {
    OutcomeView { ok: true, data: Some(data), code: None, message: None }
}

/// The answer of an operation that succeeded and says so.
pub open spec fn success_with(data: json::JsonView, message: Seq<char>) -> OutcomeView {
    OutcomeView { ok: true, data: Some(data), code: None, message: Some(message) }
}

impl Outcome {
    /// The answer of a failed operation.
    pub fn err(code: ErrCode, message: String) -> (r: Outcome)
        ensures
            r@ == failure(code, message@),
    {
        Outcome { ok: false, data: None, code: Some(code.as_text()), message: Some(message) }
    }

    /// The answer of an operation that succeeded.
    pub fn ok(data: Json) -> (r: Outcome)
        ensures
            r@ == success(data@),
    {
        Outcome { ok: true, data: Some(data), code: None, message: None }
    }

    /// The answer of an operation that succeeded and says so.
    pub fn ok_msg(data: Json, message: String) -> (r: Outcome)
        ensures
            r@ == success_with(data@, message@),
    {
        Outcome { ok: true, data: Some(data), code: None, message: Some(message) }
    }
}

} // verus!
