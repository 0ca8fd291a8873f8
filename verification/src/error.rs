//! What can go wrong with a call: three kinds of failure that never overlap.

use vstd::prelude::*;
use vstd::string::StringExecFns;
use crate::text::{decimal, push_decimal};

verus! {

/// The failure of one call.
#[derive(Debug, PartialEq, Eq)]
pub enum Error {
    /// No HTTP response was obtained: the network, the name lookup, the
    /// connection or the wait for the answer failed. Carries the transport's
    /// account of it.
    Transport(String),
    /// The server answered with a status outside the success class. Carries
    /// the status, the server's message and, where the server names one, its
    /// error code.
    Http { status: u16, code: Option<String>, message: String },
    /// The server answered with a success status, but the body has not the
    /// shape that the call expects. Carries the body's text.
    Decode(String),
}

/// The mathematical value of an [`Error`].
pub enum ErrorView {
    Transport(Seq<char>),
    Http { status: u16, code: Option<Seq<char>>, message: Seq<char> },
    Decode(Seq<char>),
}

impl View for Error {
    type V = ErrorView;

    open spec fn view(&self) -> ErrorView {
        match self {
            Error::Transport(reason) => ErrorView::Transport(reason@),
            Error::Http { status, code, message } => ErrorView::Http {
                status: *status,
                code: match code {
                    Some(c) => Some(c@),
                    None => None,
                },
                message: message@,
            },
            Error::Decode(body) => ErrorView::Decode(body@),
        }
    }
}

impl ErrorView {
    /// The HTTP status that the failure carries, if it is an HTTP failure.
    pub open spec fn status(self) -> Option<u16> {
        match self {
            ErrorView::Http { status, .. } => Some(status),
            _ => None,
        }
    }

    /// The server refused the credential, or asked for one: status 401.
    pub open spec fn is_authentication(self) -> bool {
        self.status() == Some(401u16)
    }

    /// The server does not know the resource: status 404.
    pub open spec fn is_not_found(self) -> bool {
        self.status() == Some(404u16)
    }

    /// The failure in one line, for a person to read.
    pub open spec fn describe(self) -> Seq<char> {
        match self {
            ErrorView::Transport(reason) => "transport failure: "@ + reason,
            ErrorView::Http { status, message, .. } => "HTTP "@ + decimal(status as nat) + ": "@
                + message,
            ErrorView::Decode(body) => "unexpected response body: "@ + body,
        }
    }
}

impl Error {
    /// The HTTP status that the failure carries, if it is an HTTP failure.
    pub fn status(&self) -> (r: Option<u16>)
        ensures
            r == self@.status(),
    {
        match self {
            Error::Http { status, .. } => Some(*status),
            _ => None,
        }
    }

    /// Whether no HTTP response was obtained.
    pub fn is_transport(&self) -> (r: bool)
        ensures
            r == (self@ is Transport),
    {
        match self {
            Error::Transport(_) => true,
            _ => false,
        }
    }

    /// Whether the server answered with a status outside the success class.
    pub fn is_http(&self) -> (r: bool)
        ensures
            r == (self@ is Http),
    {
        match self {
            Error::Http { .. } => true,
            _ => false,
        }
    }

    /// Whether a success came with a body of the wrong shape.
    pub fn is_decode(&self) -> (r: bool)
        ensures
            r == (self@ is Decode),
    {
        match self {
            Error::Decode(_) => true,
            _ => false,
        }
    }

    /// Whether the server refused the credential, or asked for one.
    pub fn is_authentication(&self) -> (r: bool)
        ensures
            r == self@.is_authentication(),
    {
        match self {
            Error::Http { status, .. } => *status == 401,
            _ => false,
        }
    }

    /// Whether the server does not know the resource.
    pub fn is_not_found(&self) -> (r: bool)
        ensures
            r == self@.is_not_found(),
    {
        match self {
            Error::Http { status, .. } => *status == 404,
            _ => false,
        }
    }

    /// The failure in one line, for a person to read.
    pub fn describe(&self) -> (r: String)
        ensures
            r@ == self@.describe(),
    {
        match self {
            Error::Transport(reason) => {
                let mut line = String::from_str("transport failure: ");
                line.append(reason.as_str());
                line
            },
            Error::Http { status, message, .. } => {
                let mut line = String::from_str("HTTP ");
                push_decimal(&mut line, *status as u64);
                line.append(": ");
                line.append(message.as_str());
                line
            },
            Error::Decode(body) => {
                let mut line = String::from_str("unexpected response body: ");
                line.append(body.as_str());
                line
            },
        }
    }
}

/// Every failure is of exactly one kind, and the classes that a caller tells
/// apart (a refused credential, an unknown resource, a network that is down,
/// a body of the wrong shape) exclude each other.
pub proof fn lemma_kinds_are_disjoint(e: ErrorView)
    ensures
        (e is Transport) || (e is Http) || (e is Decode),
        !((e is Transport) && (e is Http)),
        !((e is Transport) && (e is Decode)),
        !((e is Http) && (e is Decode)),
        e.is_authentication() ==> (e is Http) && !e.is_not_found(),
        e.is_not_found() ==> (e is Http) && !e.is_authentication(),
{
}

} // verus!
