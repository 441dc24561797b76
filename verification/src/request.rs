//! The parsed command protocol: requests delivered by the transport and the
//! responses handed back to it.

use vstd::prelude::*;

verus! {

/// The command variants of the protocol.
#[derive(Clone, Copy, Debug, PartialEq, Eq, Structural)]
pub enum RequestType {
    Ping,
    SetCmd,
    Get,
    Del,
    Exit,
    Illegal,
}

/// The kind of a response.
#[derive(Clone, Copy, Debug, PartialEq, Eq, Structural)]
pub enum ResponseType {
    Okay,
    Value,
    Error,
}

/// An already-parsed command: an optional key list, an optional value, and the
/// command variant. `Set` uses one key and the value, `Get` one key, `Del` one
/// or more keys; `Ping`, `Exit` and `Illegal` carry neither.
#[derive(Clone, Debug)]
pub struct Request {
    pub key: Option<Vec<String>>,
    pub value: Option<String>,
    pub request_type: RequestType,
}

/// A response: an optional payload and its kind. A missing key on `Get` is a
/// successful response carrying a sentinel value, not an error.
#[derive(Clone, Debug)]
pub struct Response {
    pub value: Option<String>,
    pub response_type: ResponseType,
}

/// The mathematical view of a request: key list and value as character
/// sequences.
pub struct RequestModel {
    pub key: Option<Seq<Seq<char>>>,
    pub value: Option<Seq<char>>,
    pub request_type: RequestType,
}

/// The mathematical view of a response.
pub struct ResponseModel {
    pub value: Option<Seq<char>>,
    pub response_type: ResponseType,
}

impl View for Request {
    type V = RequestModel;

    open spec fn view(&self) -> RequestModel {
        RequestModel {
            key: self.key.deep_view(),
            value: self.value.deep_view(),
            request_type: self.request_type,
        }
    }
}

impl View for Response {
    type V = ResponseModel;

    open spec fn view(&self) -> ResponseModel {
        ResponseModel {
            value: self.value.deep_view(),
            response_type: self.response_type,
        }
    }
}

impl RequestModel {
    /// The key list, meaningful only when `key` is present.
    pub open spec fn keys(self) -> Seq<Seq<char>> {
        self.key->Some_0
    }

    /// The first key, meaningful only when at least one key is present.
    pub open spec fn key0(self) -> Seq<char> {
        self.keys()[0]
    }

    /// The value field, meaningful only when present.
    pub open spec fn val(self) -> Seq<char> {
        self.value->Some_0
    }

    /// Whether the fields carried match what the command variant needs:
    /// `Set` exactly one key and a value, `Get` exactly one key, `Del` at
    /// least one key; the other variants need nothing.
    pub open spec fn arity_ok(self) -> bool {
        match self.request_type {
            RequestType::SetCmd => self.key is Some && self.keys().len() == 1 && self.value is Some,
            RequestType::Get => self.key is Some && self.keys().len() == 1,
            RequestType::Del => self.key is Some && self.keys().len() >= 1,
            _ => true,
        }
    }

    /// A request the middleware lets through: the arity fits and the command
    /// is not the upstream parse-failure marker.
    pub open spec fn well_formed(self) -> bool {
        self.arity_ok() && !(self.request_type is Illegal)
    }
}

impl Request {
    /// Checks at run time whether the fields match the command variant's arity.
    pub fn check_arity(&self) -> (b: bool)
        ensures
            b == self@.arity_ok(),
    {
        match self.request_type {
            RequestType::SetCmd => match (&self.key, &self.value) {
                (Some(ks), Some(_)) => ks.len() == 1,
                _ => false,
            },
            RequestType::Get => match &self.key {
                Some(ks) => ks.len() == 1,
                None => false,
            },
            RequestType::Del => match &self.key {
                Some(ks) => ks.len() >= 1,
                None => false,
            },
            _ => true,
        }
    }

    /// Checks at run time whether the middleware should let the request pass.
    pub fn check_well_formed(&self) -> (b: bool)
        ensures
            b == self@.well_formed(),
    {
        let illegal = match self.request_type {
            RequestType::Illegal => true,
            _ => false,
        };
        !illegal && self.check_arity()
    }
}

/// The middleware's rejection of an illegal or malformed command; it aborts
/// the call before any store mutation or log append.
#[derive(Clone, Copy, Debug, PartialEq, Eq, Structural)]
pub struct ProtocolError;

impl ProtocolError {
    /// A human-readable description of the rejection.
    pub fn message(&self) -> (r: String)
        ensures
            r@ == "Illegal!"@,
    {
        let mut s = String::new();
        s.append("Illegal!");
        s
    }
}

} // verus!
