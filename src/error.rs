use vstd::prelude::*;
use vstd::string::StringExecFns;

verus! {

/// Errors raised by the contract-facing runtime.
#[derive(Debug, Clone, PartialEq, Eq)]
pub enum Error {
    Io(String),
    State(String),
    Event(String),
    Gas(String),
    Memory(String),
    Serialization(String),
    Contract(String),
    Crypto(String),
    TooExpensive(String),
    Unknown(String),
    NameTooLong(String),
    DataTooLarge(String),
    TooManyEvents(String),
    InvalidSignature(String),
    InvalidNonce(String),
    Unauthorized(String),
    MaxDepthExceeded(String),
    InvalidProtocolVersion(String),
}

/// Errors raised by the host: memory bridge, imports and the executor.
#[derive(Debug, Clone, PartialEq, Eq)]
pub enum ExecutorError {
    RuntimeError(String),
    StorageError(String),
    SerializationError(String),
    CryptoError(String),
    CosmWasmError(String),
    HostFunctionError(String),
    MemoryAccessError(String),
    NoMemory,
    NoModule,
    ModuleError(String),
    InstantiationError(String),
    EntryPointNotFound(String),
    ExecutionError(String),
    ApiError(String),
    DeserializationError(String),
    MemoryError(String),
    NoContract,
    GasLimitExceeded,
    NotInstantiated,
    NoMemoryExport,
    MaxDepthExceeded(String),
}

/// Event-log operations report failures with the same error type.
pub type EventError = Error;

/// The label that introduces each kind of error in its message.
pub open spec fn error_label(e: Error) -> Seq<char> {
    match e {
        Error::Io(_) => "IO error: "@,
        Error::State(_) => "State error: "@,
        Error::Event(_) => "Event error: "@,
        Error::Gas(_) => "Gas error: "@,
        Error::Memory(_) => "Memory error: "@,
        Error::Serialization(_) => "Serialization error: "@,
        Error::Contract(_) => "Contract error: "@,
        Error::Crypto(_) => "Crypto error: "@,
        Error::TooExpensive(_) => "Too expensive error: "@,
        Error::Unknown(_) => "Unknown error: "@,
        Error::NameTooLong(_) => "Name too long error: "@,
        Error::DataTooLarge(_) => "Data too large error: "@,
        Error::TooManyEvents(_) => "Too many events error: "@,
        Error::InvalidSignature(_) => "Invalid signature error: "@,
        Error::InvalidNonce(_) => "Invalid nonce error: "@,
        Error::Unauthorized(_) => "Unauthorized error: "@,
        Error::MaxDepthExceeded(_) => "Max depth exceeded error: "@,
        Error::InvalidProtocolVersion(_) => "Invalid protocol version error: "@,
    }
}

/// The detail an error carries.
pub open spec fn error_detail(e: Error) -> Seq<char> {
    match e {
        Error::Io(d) | Error::State(d) | Error::Event(d) | Error::Gas(d) | Error::Memory(d)
        | Error::Serialization(d) | Error::Contract(d) | Error::Crypto(d) | Error::TooExpensive(d)
        | Error::Unknown(d) | Error::NameTooLong(d) | Error::DataTooLarge(d) | Error::TooManyEvents(d)
        | Error::InvalidSignature(d) | Error::InvalidNonce(d) | Error::Unauthorized(d)
        | Error::MaxDepthExceeded(d) | Error::InvalidProtocolVersion(d) => d@,
    }
}

impl Error {
    /// The error as text: its kind's label, then its detail.
    pub fn message(&self) -> (r: String)
        ensures
            r@ == error_label(*self) + error_detail(*self),
    {
        let (label, detail): (&str, &String) = match self {
            Error::Io(d) => ("IO error: ", d),
            Error::State(d) => ("State error: ", d),
            Error::Event(d) => ("Event error: ", d),
            Error::Gas(d) => ("Gas error: ", d),
            Error::Memory(d) => ("Memory error: ", d),
            Error::Serialization(d) => ("Serialization error: ", d),
            Error::Contract(d) => ("Contract error: ", d),
            Error::Crypto(d) => ("Crypto error: ", d),
            Error::TooExpensive(d) => ("Too expensive error: ", d),
            Error::Unknown(d) => ("Unknown error: ", d),
            Error::NameTooLong(d) => ("Name too long error: ", d),
            Error::DataTooLarge(d) => ("Data too large error: ", d),
            Error::TooManyEvents(d) => ("Too many events error: ", d),
            Error::InvalidSignature(d) => ("Invalid signature error: ", d),
            Error::InvalidNonce(d) => ("Invalid nonce error: ", d),
            Error::Unauthorized(d) => ("Unauthorized error: ", d),
            Error::MaxDepthExceeded(d) => ("Max depth exceeded error: ", d),
            Error::InvalidProtocolVersion(d) => ("Invalid protocol version error: ", d),
        };
        let mut text = label.to_owned();
        text.append(detail.as_str());
        text
    }
}

} // verus!
