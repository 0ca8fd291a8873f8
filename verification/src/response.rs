//! What came back for a call, and what it means for a caller that expects a
//! value of some type.

use vstd::prelude::*;
use crate::api::Call;
use crate::error::{Error, ErrorView};
use crate::json::{Json, JsonValue};
use crate::parse::parsed;

verus! {

/// An HTTP response: its status and the text of its body.
#[derive(Debug)]
pub struct Answer {
    pub status: u16,
    pub text: String,
}

/// The mathematical value of an [`Answer`].
pub struct AnswerView {
    pub status: u16,
    pub text: Seq<char>,
}

impl View for Answer {
    type V = AnswerView;

    open spec fn view(&self) -> AnswerView {
        AnswerView { status: self.status, text: self.text@ }
    }
}

/// How the exchange with the server ended.
#[derive(Debug)]
pub enum Outcome {
    /// No response was obtained; the transport's account of the failure.
    Failed(String),
    /// The server answered.
    Answered(Answer),
}

/// The mathematical value of an [`Outcome`].
pub enum OutcomeView {
    Failed(Seq<char>),
    Answered(AnswerView),
}

impl View for Outcome {
    type V = OutcomeView;

    open spec fn view(&self) -> OutcomeView {
        match self {
            Outcome::Failed(reason) => OutcomeView::Failed(reason@),
            Outcome::Answered(answer) => OutcomeView::Answered(answer@),
        }
    }
}

/// The capability of being read from a response body.
pub trait Decode: Sized + View {
    /// The value that a JSON body stands for, where it has the expected shape.
    spec fn spec_from_json(json: JsonValue) -> Option<Self::V>;

    /// The value that a success without a JSON body stands for, where the
    /// type accepts one.
    spec fn spec_from_nothing() -> Option<Self::V>;

    /// Reads a value from a JSON body; there is none where the body has not
    /// the expected shape.
    fn from_json(json: &Json) -> (r: Option<Self>)
        ensures
            r is Some == Self::spec_from_json(json@) is Some,
            r is Some ==> r.unwrap()@ == Self::spec_from_json(json@).unwrap(),
    ;

    /// Makes a value of a success whose body is no JSON, where the type
    /// accepts that.
    fn from_nothing() -> (r: Option<Self>)
        ensures
            r is Some == Self::spec_from_nothing() is Some,
            r is Some ==> r.unwrap()@ == Self::spec_from_nothing().unwrap(),
    ;
}

/// The success class of HTTP statuses.
pub open spec fn is_success(status: u16) -> bool {
    200 <= status <= 299
}

/// The failure that an answer outside the success class stands for. Where the
/// body is a JSON object with a string member `error`, that string is the
/// message, and a string member `code` the code. Otherwise the message is the
/// body's text as it came, and there is no code.
pub open spec fn http_error(answer: AnswerView) -> ErrorView {
    match parsed(answer.text) {
        Some(json) => match json.text("error"@) {
            Some(message) => ErrorView::Http {
                status: answer.status,
                code: json.text("code"@),
                message,
            },
            None => ErrorView::Http { status: answer.status, code: None, message: answer.text },
        },
        None => ErrorView::Http { status: answer.status, code: None, message: answer.text },
    }
}

/// The value that a success stands for, for a caller that expects a `T`: what
/// the body stands for where it is JSON, and what the type makes of no JSON
/// where it is not. Where that is no value, a decoding failure that carries
/// the body's text.
pub open spec fn decoded<T: Decode>(answer: AnswerView) -> Result<T::V, ErrorView> {
    let value = match parsed(answer.text) {
        Some(json) => T::spec_from_json(json),
        None => T::spec_from_nothing(),
    };
    match value {
        Some(v) => Ok(v),
        None => Err(ErrorView::Decode(answer.text)),
    }
}

/// What an exchange means for a caller that expects a `T`.
pub open spec fn concluded<T: Decode>(outcome: OutcomeView) -> Result<T::V, ErrorView> {
    match outcome {
        OutcomeView::Failed(reason) => Err(ErrorView::Transport(reason)),
        OutcomeView::Answered(answer) => if is_success(answer.status) {
            decoded::<T>(answer)
        } else {
            Err(http_error(answer))
        },
    }
}

/// Turns an answer outside the success class into its failure.
pub fn read_http_error(answer: &Answer) -> (e: Error)
    ensures
        e@ == http_error(answer@),
{
    match &Json::parse(answer.text.as_str()) {
        Some(json) => match json.text("error") {
            Some(message) => Error::Http { status: answer.status, code: json.text("code"), message },
            None => Error::Http { status: answer.status, code: None, message: answer.text.clone() },
        },
        None => Error::Http { status: answer.status, code: None, message: answer.text.clone() },
    }
}

impl<T: Decode> Call<T> {
    /// Turns the end of the exchange into the value that this call expects,
    /// or into the failure of the one kind that applies.
    pub fn conclude(&self, outcome: &Outcome) -> (r: Result<T, Error>)
        ensures
            match r {
                Ok(v) => concluded::<T>(outcome@) == Ok::<T::V, ErrorView>(v@),
                Err(e) => concluded::<T>(outcome@) == Err::<T::V, ErrorView>(e@),
            },
    {
        match outcome {
            Outcome::Failed(reason) => Err(Error::Transport(reason.clone())),
            Outcome::Answered(answer) => {
                if 200 <= answer.status && answer.status <= 299 {
                    let value = match &Json::parse(answer.text.as_str()) {
                        Some(json) => T::from_json(json),
                        None => T::from_nothing(),
                    };
                    match value {
                        Some(v) => Ok(v),
                        None => Err(Error::Decode(answer.text.clone())),
                    }
                } else {
                    Err(read_http_error(answer))
                }
            },
        }
    }
}

/// The three kinds of failure never overlap, and each comes from its own
/// cause: a transport failure where no response was obtained, an HTTP failure
/// where the status is outside the success class, a decoding failure where
/// the status is a success.
pub proof fn lemma_failure_follows_its_cause<T: Decode>(outcome: OutcomeView)
    ensures
        concluded::<T>(outcome) matches Err(e) ==> {
            &&& (e is Transport) == (outcome is Failed)
            &&& (e is Http) == (outcome matches OutcomeView::Answered(answer) && !is_success(
                answer.status,
            ))
            &&& (e is Decode) == (outcome matches OutcomeView::Answered(answer) && is_success(
                answer.status,
            ))
        },
        outcome is Failed ==> concluded::<T>(outcome) is Err,
        outcome matches OutcomeView::Answered(answer) && !is_success(answer.status) ==> concluded::<
            T,
        >(outcome) is Err,
{
}

/// A success whose body has not the expected shape is a decoding failure that
/// carries the body's text, never an HTTP failure, whatever the status within
/// the success class.
pub proof fn lemma_unexpected_body_is_decode_failure<T: Decode>(answer: AnswerView)
    requires
        is_success(answer.status),
        match parsed(answer.text) {
            Some(json) => T::spec_from_json(json) is None,
            None => T::spec_from_nothing() is None,
        },
    ensures
        concluded::<T>(OutcomeView::Answered(answer)) == Err::<T::V, ErrorView>(
            ErrorView::Decode(answer.text),
        ),
{
}

/// A success whose body has the expected shape yields the value that the
/// body stands for. Nothing else is asked: not a credential, not a verb.
pub proof fn lemma_expected_body_is_the_value<T: Decode>(answer: AnswerView, json: JsonValue)
    requires
        is_success(answer.status),
        parsed(answer.text) == Some(json),
        T::spec_from_json(json) is Some,
    ensures
        concluded::<T>(OutcomeView::Answered(answer)) == Ok::<T::V, ErrorView>(
            T::spec_from_json(json).unwrap(),
        ),
{
}

/// An answer with status 401 is a failure of the authentication class, and
/// one with status 404 a failure of the not-found class, whatever the call
/// expects and whatever the body holds.
pub proof fn lemma_status_decides_the_class<T: Decode>(answer: AnswerView)
    ensures
        answer.status == 401 ==> (concluded::<T>(OutcomeView::Answered(answer)) matches Err(e)
            && e.is_authentication()),
        answer.status == 404 ==> (concluded::<T>(OutcomeView::Answered(answer)) matches Err(e)
            && e.is_not_found()),
{
}

} // verus!
