//! Error taxonomy of the driver.
//!
//! Payloads are byte strings: they are built from child stderr output or from
//! fixed diagnostic texts, and end up in the log field of an error response.
use vstd::prelude::*;

verus! {

/// A match-level failure, attributed and classified.
#[derive(Debug)]
pub enum SimulatorError {
    CompilationError(Vec<u8>),
    RuntimeError(Vec<u8>),
    UnidentifiedError(Vec<u8>),
    FifoCreationError(Vec<u8>),
    EpollError(Vec<u8>),
    TimeOutError(Vec<u8>),
    RabbitMqError(Vec<u8>),
    Player1Error(Vec<u8>),
    Player2Error(Vec<u8>),
}

impl SimulatorError {
    /// The payload carried by the error.
    pub open spec fn payload(&self) -> Seq<u8> {
        match self {
            SimulatorError::CompilationError(e) => e@,
            SimulatorError::RuntimeError(e) => e@,
            SimulatorError::UnidentifiedError(e) => e@,
            SimulatorError::FifoCreationError(e) => e@,
            SimulatorError::EpollError(e) => e@,
            SimulatorError::TimeOutError(e) => e@,
            SimulatorError::RabbitMqError(e) => e@,
            SimulatorError::Player1Error(e) => e@,
            SimulatorError::Player2Error(e) => e@,
        }
    }
}

/// A failure of the event registry.
#[derive(Debug)]
pub enum EpollError {
    EpollCallbackError(Vec<u8>),
    EpollFdError(Vec<u8>),
    EpollCreateError(Vec<u8>),
    PidFdError(Vec<u8>),
    EpollRegisterError(Vec<u8>),
    EpollWaitError(Vec<u8>),
    EpollProcessNotFound(Vec<u8>),
}

impl EpollError {
    /// The message carried by the error.
    pub open spec fn message(&self) -> Seq<u8> {
        match self {
            EpollError::EpollCallbackError(e) => e@,
            EpollError::EpollFdError(e) => e@,
            EpollError::EpollCreateError(e) => e@,
            EpollError::PidFdError(e) => e@,
            EpollError::EpollRegisterError(e) => e@,
            EpollError::EpollWaitError(e) => e@,
            EpollError::EpollProcessNotFound(e) => e@,
        }
    }
}

impl From<EpollError> for SimulatorError {
    /// A registry failure surfaces as a match-level event error carrying the
    /// registry's message.
    fn from(val: EpollError) -> (r: SimulatorError) {
        match val {
            EpollError::EpollCallbackError(e) => SimulatorError::EpollError(e),
            EpollError::EpollFdError(e) => SimulatorError::EpollError(e),
            EpollError::EpollCreateError(e) => SimulatorError::EpollError(e),
            EpollError::PidFdError(e) => SimulatorError::EpollError(e),
            EpollError::EpollRegisterError(e) => SimulatorError::EpollError(e),
            EpollError::EpollWaitError(e) => SimulatorError::EpollError(e),
            EpollError::EpollProcessNotFound(e) => SimulatorError::EpollError(e),
        }
    }
}

impl vstd::std_specs::convert::FromSpecImpl<EpollError> for SimulatorError {
    open spec fn obeys_from_spec() -> bool {
        true
    }

    open spec fn from_spec(val: EpollError) -> SimulatorError {
        match val {
            EpollError::EpollCallbackError(e) => SimulatorError::EpollError(e),
            EpollError::EpollFdError(e) => SimulatorError::EpollError(e),
            EpollError::EpollCreateError(e) => SimulatorError::EpollError(e),
            EpollError::PidFdError(e) => SimulatorError::EpollError(e),
            EpollError::EpollRegisterError(e) => SimulatorError::EpollError(e),
            EpollError::EpollWaitError(e) => SimulatorError::EpollError(e),
            EpollError::EpollProcessNotFound(e) => SimulatorError::EpollError(e),
        }
    }
}

} // verus!
