//! The command dispatcher: maps one request to its store effect, its
//! response, and the log line to append. Each incoming command produces
//! exactly one outcome; no state is retained across commands.

use vstd::prelude::*;

use crate::aof::{del_line, redis_operation, set_line};
use crate::numfmt::dec_str;
use crate::request::{Request, RequestModel, RequestType, Response, ResponseModel, ResponseType};
use crate::semantics::{apply_request, removed_count, StoreModel};
use crate::store::S;

verus! {

/// What dispatching one command yields: a response together with the log
/// line to append (for a successful mutation), or the instruction to
/// terminate the process (the `Exit` command).
#[derive(Debug)]
pub enum DispatchOutcome {
    Reply { resp: Response, log_entry: Option<String> },
    Terminate,
}

/// The mathematical view of a dispatch outcome.
#[verifier::ext_equal]
pub enum OutcomeModel {
    Reply { resp: ResponseModel, log_entry: Option<Seq<char>> },
    Terminate,
}

impl View for DispatchOutcome {
    type V = OutcomeModel;

    open spec fn view(&self) -> OutcomeModel {
        match self {
            DispatchOutcome::Reply { resp, log_entry } => OutcomeModel::Reply {
                resp: resp@,
                log_entry: log_entry.deep_view(),
            },
            DispatchOutcome::Terminate => OutcomeModel::Terminate,
        }
    }
}

/// What `Get` answers for a key: the stored value, or the `NULL!` sentinel
/// for an absent key (a successful response, not an error).
pub open spec fn get_value(m: StoreModel, k: Seq<char>) -> Seq<char> {
    if m.contains_key(k) {
        m[k]
    } else {
        "NULL!"@
    }
}

/// The response each command earns, given the store state it runs against.
pub open spec fn response_of(m: StoreModel, r: RequestModel) -> ResponseModel {
    match r.request_type {
        RequestType::Ping => ResponseModel {
            value: Some("PONG"@),
            response_type: ResponseType::Okay,
        },
        RequestType::SetCmd => ResponseModel {
            value: Some("OK!"@),
            response_type: ResponseType::Okay,
        },
        RequestType::Get => ResponseModel {
            value: Some(get_value(m, r.key0())),
            response_type: ResponseType::Value,
        },
        RequestType::Del => ResponseModel {
            value: Some(dec_str(removed_count(m, r.keys()))),
            response_type: ResponseType::Value,
        },
        _ => ResponseModel { value: None, response_type: ResponseType::Okay },
    }
}

/// The log line a command must append: the serialized mutation for `Set` and
/// `Del`, nothing for the read-only and control commands.
pub open spec fn log_line_of(r: RequestModel) -> Option<Seq<char>> {
    match r.request_type {
        RequestType::SetCmd => Some(set_line(r.key0(), r.val())),
        RequestType::Del => Some(del_line(r.keys())),
        _ => None,
    }
}

/// The whole outcome of dispatching a command with fitting arity.
pub open spec fn dispatch_outcome(m: StoreModel, r: RequestModel) -> OutcomeModel {
    if r.request_type is Exit {
        OutcomeModel::Terminate
    } else {
        OutcomeModel::Reply { resp: response_of(m, r), log_entry: log_line_of(r) }
    }
}

impl S {
    /// Dispatches one command: mutates the store as the command demands and
    /// returns the response together with the log line the caller must
    /// append before answering (`Set` and `Del`), or the terminate
    /// instruction for `Exit`. The caller is expected to keep the mutation
    /// and the append in one critical section, so the log order always
    /// matches the order in which mutations became visible.
    pub fn redis_command(&mut self, req: &Request) -> (out: DispatchOutcome)
        requires
            req@.arity_ok(),
        ensures
            final(self)@ == apply_request(old(self)@, req@),
            final(self).aof_file == old(self).aof_file,
            out@ == dispatch_outcome(old(self)@, req@),
    {
        match req.request_type {
            RequestType::Ping => {
                let mut pong = String::new();
                pong.append("PONG");
                DispatchOutcome::Reply {
                    resp: Response {
                        value: Some(pong),
                        response_type: ResponseType::Okay,
                    },
                    log_entry: None,
                }
            },
            RequestType::SetCmd => {
                let entry = redis_operation(req);
                if let (Some(ks), Some(v)) = (&req.key, &req.value) {
                    self.set(ks[0].clone(), v.clone());
                    proof {
                        assert(req@.keys()[0] == ks@[0]@);
                    }
                    let mut okay = String::new();
                    okay.append("OK!");
                    DispatchOutcome::Reply {
                        resp: Response {
                            value: Some(okay),
                            response_type: ResponseType::Okay,
                        },
                        log_entry: Some(entry),
                    }
                } else {
                    proof {
                        assert(false);
                    }
                    DispatchOutcome::Terminate
                }
            },
            RequestType::Get => {
                if let Some(ks) = &req.key {
                    proof {
                        assert(req@.keys()[0] == ks@[0]@);
                    }
                    let resp = match self.get(&ks[0]) {
                        Some(v) => Response {
                            value: Some(v.clone()),
                            response_type: ResponseType::Value,
                        },
                        None => {
                            let mut sentinel = String::new();
                            sentinel.append("NULL!");
                            Response { value: Some(sentinel), response_type: ResponseType::Value }
                        },
                    };
                    DispatchOutcome::Reply { resp, log_entry: None }
                } else {
                    proof {
                        assert(false);
                    }
                    DispatchOutcome::Terminate
                }
            },
            RequestType::Del => {
                let entry = redis_operation(req);
                if let Some(ks) = &req.key {
                    let count = self.delete(ks);
                    let resp = Response {
                        value: Some(crate::numfmt::usize_to_string(count)),
                        response_type: ResponseType::Value,
                    };
                    DispatchOutcome::Reply { resp, log_entry: Some(entry) }
                } else {
                    proof {
                        assert(false);
                    }
                    DispatchOutcome::Terminate
                }
            },
            RequestType::Exit => DispatchOutcome::Terminate,
            RequestType::Illegal => DispatchOutcome::Reply {
                resp: Response { value: None, response_type: ResponseType::Okay },
                log_entry: None,
            },
        }
    }
}

} // verus!
