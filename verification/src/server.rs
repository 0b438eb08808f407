//! The relay's request handling, reduced to its decisions.
//!
//! The HTTP framework outside this crate hands each handler the request's
//! path, its raw header values and its body, and performs the asynchronous
//! work (mailbox delivery, queue polling).  Everything the handlers decide —
//! which request is malformed, which needs a live channel, which resets or
//! tears one down, and which status each outcome maps to — is verified here
//! over plain values.

use vstd::prelude::*;

use crate::headers::{dec_value, parse_decimal, valid_decimal};
use crate::packet::Packet;
use crate::queue::GetPoll;

verus! {

/// The statuses the relay answers with.
pub enum Status {
    Okay,
    BadRequest,
    Gone,
    PreconditionFailed,
    InternalError,
}

impl Status {
    /// The wire code of each status.
    pub open spec fn spec_code(&self) -> u16 {
        match self {
            Status::Okay => 200,
            Status::BadRequest => 400,
            Status::Gone => 410,
            Status::PreconditionFailed => 412,
            Status::InternalError => 500,
        }
    }

    #[verifier::when_used_as_spec(spec_code)]
    pub fn code(&self) -> (c: u16)
        ensures
            c == self.spec_code(),
    {
        match self {
            Status::Okay => 200,
            Status::BadRequest => 400,
            Status::Gone => 410,
            Status::PreconditionFailed => 412,
            Status::InternalError => 500,
        }
    }
}

/// What can go wrong before a handler reaches the channel.
pub enum RequestError {
    /// A required header is absent.
    MissingField,
    /// A header value is not a decimal integer that fits.
    BadInteger,
    /// The path has no live channel.
    NoChannel,
    /// A failure inside the relay (a dropped mailbox, a broken payload).
    Internal,
}

impl RequestError {
    /// The status each error maps to: malformed requests are the client's
    /// fault, a missing channel asks the client to retry later, and the rest
    /// is the relay's.
    pub fn status(&self) -> (s: Status)
        ensures
            (*self is MissingField || *self is BadInteger) ==> s is BadRequest,
            *self is NoChannel ==> s is PreconditionFailed,
            *self is Internal ==> s is InternalError,
    {
        match self {
            RequestError::MissingField => Status::BadRequest,
            RequestError::BadInteger => Status::BadRequest,
            RequestError::NoChannel => Status::PreconditionFailed,
            RequestError::Internal => Status::InternalError,
        }
    }
}

/// What a PUT asks for.
pub enum PutDecision {
    /// Create or replace the channel with this many workers.
    Reset { worker_num: usize },
    /// Deliver the body as a packet for `index` into worker `worker`'s
    /// mailbox.
    Deliver { worker: usize, index: usize },
    /// Refuse the request.
    Reject(RequestError),
}

/// Decide a PUT from its header values.  `channel_workers` is the worker
/// count of the live channel at the request's path, if there is one.
///
/// A reset header wins outright; otherwise the worker and index headers must
/// both be present and decimal, the path must have a channel, and the worker
/// id must fall inside its mailbox range.
pub fn classify_put(
    worker_num_hdr: Option<&Vec<u8>>,
    worker_hdr: Option<&Vec<u8>>,
    index_hdr: Option<&Vec<u8>>,
    channel_workers: Option<usize>,
) -> (d: PutDecision)
    ensures
        worker_num_hdr is Some && valid_decimal(worker_num_hdr->0@) ==> d
            == (PutDecision::Reset { worker_num: dec_value(worker_num_hdr->0@) as usize }),
        worker_num_hdr is Some && !valid_decimal(worker_num_hdr->0@) ==> d
            == PutDecision::Reject(RequestError::BadInteger),
        worker_num_hdr is None && (worker_hdr is None || index_hdr is None) ==> d
            == PutDecision::Reject(RequestError::MissingField),
        worker_num_hdr is None && worker_hdr is Some && index_hdr is Some && (!valid_decimal(
            worker_hdr->0@,
        ) || !valid_decimal(index_hdr->0@)) ==> d == PutDecision::Reject(
            RequestError::BadInteger,
        ),
        worker_num_hdr is None && worker_hdr is Some && index_hdr is Some && valid_decimal(
            worker_hdr->0@,
        ) && valid_decimal(index_hdr->0@) ==> {
            if channel_workers is None {
                d == PutDecision::Reject(RequestError::NoChannel)
            } else if dec_value(worker_hdr->0@) >= channel_workers->0 {
                d == PutDecision::Reject(RequestError::BadInteger)
            } else {
                d == (PutDecision::Deliver {
                    worker: dec_value(worker_hdr->0@) as usize,
                    index: dec_value(index_hdr->0@) as usize,
                })
            }
        },
{
    if let Some(v) = worker_num_hdr {
        return match parse_decimal(v.as_slice()) {
            Some(n) => PutDecision::Reset { worker_num: n },
            None => PutDecision::Reject(RequestError::BadInteger),
        };
    }

    let (worker_bytes, index_bytes) = match (worker_hdr, index_hdr) {
        (Some(w), Some(i)) => (w, i),
        _ => {
            return PutDecision::Reject(RequestError::MissingField);
        },
    };

    let worker = match parse_decimal(worker_bytes.as_slice()) {
        Some(w) => w,
        None => {
            return PutDecision::Reject(RequestError::BadInteger);
        },
    };
    let index = match parse_decimal(index_bytes.as_slice()) {
        Some(i) => i,
        None => {
            return PutDecision::Reject(RequestError::BadInteger);
        },
    };

    let workers = match channel_workers {
        Some(n) => n,
        None => {
            return PutDecision::Reject(RequestError::NoChannel);
        },
    };

    if worker >= workers {
        return PutDecision::Reject(RequestError::BadInteger);
    }

    PutDecision::Deliver { worker, index }
}

/// What a GET asks for.
pub enum GetDecision {
    /// Tear the channel down.
    Reset,
    /// Acknowledge `ack` if given, then poll the queue for `index`.
    Serve { index: usize, ack: Option<usize> },
    /// Refuse the request.
    Reject(RequestError),
}

/// Decide a GET from its header values.  A reset header wins outright and
/// needs no channel; otherwise the path must have a channel, the
/// acknowledgement header must be decimal when present, and the index header
/// must be present and decimal.
pub fn classify_get(
    reset_hdr: Option<&Vec<u8>>,
    index_hdr: Option<&Vec<u8>>,
    ack_hdr: Option<&Vec<u8>>,
    channel_exists: bool,
) -> (d: GetDecision)
    ensures
        reset_hdr is Some ==> d is Reset,
        reset_hdr is None && !channel_exists ==> d == GetDecision::Reject(
            RequestError::NoChannel,
        ),
        reset_hdr is None && channel_exists && ack_hdr is Some && !valid_decimal(ack_hdr->0@)
            ==> d == GetDecision::Reject(RequestError::BadInteger),
        reset_hdr is None && channel_exists && (ack_hdr is None || valid_decimal(
            ack_hdr->0@,
        )) ==> {
            if index_hdr is None {
                d == GetDecision::Reject(RequestError::MissingField)
            } else if !valid_decimal(index_hdr->0@) {
                d == GetDecision::Reject(RequestError::BadInteger)
            } else {
                d == (GetDecision::Serve {
                    index: dec_value(index_hdr->0@) as usize,
                    ack: if ack_hdr is Some {
                        Some(dec_value(ack_hdr->0@) as usize)
                    } else {
                        None::<usize>
                    },
                })
            }
        },
{
    if reset_hdr.is_some() {
        return GetDecision::Reset;
    }

    if !channel_exists {
        return GetDecision::Reject(RequestError::NoChannel);
    }

    let ack = match ack_hdr {
        Some(a) => match parse_decimal(a.as_slice()) {
            Some(v) => Some(v),
            None => {
                return GetDecision::Reject(RequestError::BadInteger);
            },
        },
        None => None,
    };

    let index = match index_hdr {
        Some(i) => match parse_decimal(i.as_slice()) {
            Some(v) => v,
            None => {
                return GetDecision::Reject(RequestError::BadInteger);
            },
        },
        None => {
            return GetDecision::Reject(RequestError::MissingField);
        },
    };

    GetDecision::Serve { index, ack }
}

/// Turn a resolved queue poll into the response: a present packet is served
/// with its bytes, an evicted or holed index is gone for good.
pub fn respond_get(r: GetPoll) -> (out: (Status, Vec<u8>))
    requires
        !(r is Pending),
    ensures
        r matches GetPoll::Ready(p) ==> out.0 is Okay && out.1@ == p.data@,
        r is Gone ==> out.0 is Gone && out.1@.len() == 0,
{
    match r {
        GetPoll::Ready(p) => (Status::Okay, p.data),
        GetPoll::Gone => (Status::Gone, Vec::new()),
        GetPoll::Pending => (Status::InternalError, Vec::new()),
    }
}

/// Build the packet a data PUT delivers: the request's index with its body.
pub fn packet_of_put(index: usize, body: Vec<u8>) -> (p: Packet)
    ensures
        p.index == index,
        p.data@ == body@,
{
    Packet { index, data: body }
}

} // verus!
