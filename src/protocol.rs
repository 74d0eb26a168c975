//! Messages of the agent-service protocol. The agent first initiates a session over
//! HTTP, then talks over a socket; the encoding of these values is left to the caller.

use crate::instruction::Instruction;
use vstd::prelude::*;

verus! {

/// A message from the agent to the service, with points of `DIMS` readings.
#[derive(Clone, Debug, PartialEq)]
pub enum AhtpMessage<T, const DIMS: usize> {
    /// Collected points
    Send(Vec<[T; DIMS]>),
    /// Join the session with this id
    Connect(u128),
    /// Which dimensions to maximize (true) or minimize (false)
    Goal(Vec<(usize, bool)>),
}

impl<T, const DIMS: usize> From<Vec<(usize, bool)>> for AhtpMessage<T, DIMS> {
    fn from(value: Vec<(usize, bool)>) -> Self {
        AhtpMessage::Goal(value)
    }
}

impl<T, const DIMS: usize> vstd::std_specs::convert::FromSpecImpl<Vec<(usize, bool)>> for AhtpMessage<T, DIMS> {
    open spec fn obeys_from_spec() -> bool {
        true
    }

    open spec fn from_spec(v: Vec<(usize, bool)>) -> Self {
        AhtpMessage::Goal(v)
    }
}

impl<T, const DIMS: usize> From<Vec<[T; DIMS]>> for AhtpMessage<T, DIMS> {
    fn from(value: Vec<[T; DIMS]>) -> Self {
        AhtpMessage::Send(value)
    }
}

impl<T, const DIMS: usize> vstd::std_specs::convert::FromSpecImpl<Vec<[T; DIMS]>> for AhtpMessage<T, DIMS> {
    open spec fn obeys_from_spec() -> bool {
        true
    }

    open spec fn from_spec(v: Vec<[T; DIMS]>) -> Self {
        AhtpMessage::Send(v)
    }
}

/// A reply from the service to the agent.
#[derive(Clone, Debug, PartialEq, Eq)]
pub enum AhtpResponse {
    /// The session was opened under this id
    Initialized(u128),
    /// Instructions to carry out
    Instruction(Vec<Instruction>),
}

impl AhtpResponse {
    /// The session id, when this is the reply to an initiation.
    pub fn get_init(self) -> (r: Option<u128>)
        ensures
            match self {
                AhtpResponse::Initialized(id) => r == Some(id),
                _ => r is None,
            },
    {
        match self {
            AhtpResponse::Initialized(id) => Some(id),
            _ => None,
        }
    }
}

} // verus!
