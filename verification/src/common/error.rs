//! The error type of the gateway, with its stable codes and HTTP statuses.

use vstd::prelude::*;
use vstd::string::StringExecFns;

verus! {

/// Why a model could not serve a call.
#[derive(Debug, Clone, Copy, PartialEq, Eq, Structural)]
pub enum ModelFault {
    /// The registry holds no model under the id.
    NotFound,
    /// The model is registered but not ready to serve.
    Unavailable,
    /// The registry already holds as many models as it may.
    CapacityExceeded,
    /// The model is loaded but reports bad health.
    Unhealthy,
}

/// Why the dispatcher gave a request up.
#[derive(Debug, Clone, Copy, PartialEq, Eq, Structural)]
pub enum BatchFault {
    /// The request outlived its queue deadline before a batch took it.
    Expired,
    /// The ingress queue stands above its high-watermark.
    Overloaded,
}

/// Every failure the gateway reports. Each variant carries a message.
#[derive(Debug, Clone, PartialEq)]
pub enum UniModelError {
    Config(String),
    Model(ModelFault, String),
    Plugin(String),
    BatchProcessing(BatchFault, String),
    Scheduling(String),
    Resource(String),
    Network(String),
    Authentication(String),
    Authorization(String),
    Validation(String),
    Io(String),
    Serialization(String),
    Http(String),
    Internal(String),
}

impl UniModelError {
    /// Whether the error is a model error with the given cause.
    pub open spec fn is_model_fault(self, fault: ModelFault) -> bool {
        self matches UniModelError::Model(f, _) && f == fault
    }

    /// Whether the error is a batch error with the given cause.
    pub open spec fn is_batch_fault(self, fault: BatchFault) -> bool {
        self matches UniModelError::BatchProcessing(f, _) && f == fault
    }

    /// The message the error carries.
    pub open spec fn message(self) -> Seq<char> {
        match self {
            UniModelError::Config(m) => m@,
            UniModelError::Model(_, m) => m@,
            UniModelError::Plugin(m) => m@,
            UniModelError::BatchProcessing(_, m) => m@,
            UniModelError::Scheduling(m) => m@,
            UniModelError::Resource(m) => m@,
            UniModelError::Network(m) => m@,
            UniModelError::Authentication(m) => m@,
            UniModelError::Authorization(m) => m@,
            UniModelError::Validation(m) => m@,
            UniModelError::Io(m) => m@,
            UniModelError::Serialization(m) => m@,
            UniModelError::Http(m) => m@,
            UniModelError::Internal(m) => m@,
        }
    }

    /// The stable code string of the error's kind.
    pub open spec fn code(self) -> Seq<char> {
        match self {
            UniModelError::Config(_) => "CONFIG_ERROR"@,
            UniModelError::Model(_, _) => "MODEL_ERROR"@,
            UniModelError::Plugin(_) => "PLUGIN_ERROR"@,
            UniModelError::BatchProcessing(_, _) => "BATCH_ERROR"@,
            UniModelError::Scheduling(_) => "SCHEDULE_ERROR"@,
            UniModelError::Resource(_) => "RESOURCE_ERROR"@,
            UniModelError::Network(_) => "NETWORK_ERROR"@,
            UniModelError::Authentication(_) => "AUTH_ERROR"@,
            UniModelError::Authorization(_) => "AUTHZ_ERROR"@,
            UniModelError::Validation(_) => "VALIDATION_ERROR"@,
            UniModelError::Io(_) => "IO_ERROR"@,
            UniModelError::Serialization(_) => "SERIALIZATION_ERROR"@,
            UniModelError::Http(_) => "HTTP_ERROR"@,
            UniModelError::Internal(_) => "INTERNAL_ERROR"@,
        }
    }

    /// The HTTP status under which the error is surfaced.
    pub open spec fn status(self) -> u16 {
        match self {
            UniModelError::Config(_) => 500,
            UniModelError::Model(ModelFault::NotFound, _) => 404,
            UniModelError::Model(_, _) => 503,
            UniModelError::Plugin(_) => 500,
            UniModelError::BatchProcessing(BatchFault::Expired, _) => 503,
            UniModelError::BatchProcessing(BatchFault::Overloaded, _) => 429,
            UniModelError::Scheduling(_) => 503,
            UniModelError::Resource(_) => 503,
            UniModelError::Network(_) => 502,
            UniModelError::Authentication(_) => 401,
            UniModelError::Authorization(_) => 403,
            UniModelError::Validation(_) => 400,
            UniModelError::Io(_) => 500,
            UniModelError::Serialization(_) => 400,
            UniModelError::Http(_) => 500,
            UniModelError::Internal(_) => 500,
        }
    }

    /// What the error's kind puts in front of the message when it is shown.
    pub open spec fn prefix(self) -> Seq<char> {
        match self {
            UniModelError::Config(_) => "Configuration error: "@,
            UniModelError::Model(_, _) => "Model error: "@,
            UniModelError::Plugin(_) => "Plugin error: "@,
            UniModelError::BatchProcessing(_, _) => "Batch processing error: "@,
            UniModelError::Scheduling(_) => "Scheduling error: "@,
            UniModelError::Resource(_) => "Resource error: "@,
            UniModelError::Network(_) => "Network error: "@,
            UniModelError::Authentication(_) => "Authentication error: "@,
            UniModelError::Authorization(_) => "Authorization error: "@,
            UniModelError::Validation(_) => "Validation error: "@,
            UniModelError::Io(_) => "IO error: "@,
            UniModelError::Serialization(_) => "Serialization error: "@,
            UniModelError::Http(_) => "HTTP error: "@,
            UniModelError::Internal(_) => "Internal error: "@,
        }
    }

    /// The text shown for the error: the kind's prefix, then the message.
    pub open spec fn text(self) -> Seq<char> {
        self.prefix() + self.message()
    }

    /// A configuration error.
    pub fn config(msg: &str) -> (e: Self)
        ensures
            e is Config,
            e.message() == msg@,
    {
        UniModelError::Config(msg.to_owned())
    }

    /// An error about a model that the registry does not hold.
    pub fn model(msg: &str) -> (e: Self)
        ensures
            e.is_model_fault(ModelFault::NotFound),
            e.message() == msg@,
    {
        UniModelError::Model(ModelFault::NotFound, msg.to_owned())
    }

    /// An error about a registered model that cannot serve now.
    pub fn model_unavailable(msg: &str) -> (e: Self)
        ensures
            e.is_model_fault(ModelFault::Unavailable),
            e.message() == msg@,
    {
        UniModelError::Model(ModelFault::Unavailable, msg.to_owned())
    }

    /// An error about a loaded model in bad health.
    pub fn model_unhealthy(msg: &str) -> (e: Self)
        ensures
            e.is_model_fault(ModelFault::Unhealthy),
            e.message() == msg@,
    {
        UniModelError::Model(ModelFault::Unhealthy, msg.to_owned())
    }

    /// The error of a registration that found the registry full.
    pub fn capacity_exceeded(msg: &str) -> (e: Self)
        ensures
            e.is_model_fault(ModelFault::CapacityExceeded),
            e.message() == msg@,
    {
        UniModelError::Model(ModelFault::CapacityExceeded, msg.to_owned())
    }

    /// A failure of a backend executor.
    pub fn plugin(msg: &str) -> (e: Self)
        ensures
            e is Plugin,
            e.message() == msg@,
    {
        UniModelError::Plugin(msg.to_owned())
    }

    /// The terminal error of a request that outlived its queue deadline.
    pub fn expired(msg: &str) -> (e: Self)
        ensures
            e.is_batch_fault(BatchFault::Expired),
            e.message() == msg@,
    {
        UniModelError::BatchProcessing(BatchFault::Expired, msg.to_owned())
    }

    /// The refusal of a request while the ingress queue is too long.
    pub fn overloaded(msg: &str) -> (e: Self)
        ensures
            e.is_batch_fault(BatchFault::Overloaded),
            e.message() == msg@,
    {
        UniModelError::BatchProcessing(BatchFault::Overloaded, msg.to_owned())
    }

    /// A refusal of malformed input.
    pub fn validation(msg: &str) -> (e: Self)
        ensures
            e is Validation,
            e.message() == msg@,
    {
        UniModelError::Validation(msg.to_owned())
    }

    /// A broken invariant or a misuse of the engine.
    pub fn internal(msg: &str) -> (e: Self)
        ensures
            e is Internal,
            e.message() == msg@,
    {
        UniModelError::Internal(msg.to_owned())
    }

    /// The stable code string of the error's kind.
    pub fn error_code(&self) -> (code: &'static str)
        ensures
            code@ == self.code(),
    {
        match self {
            UniModelError::Config(_) => "CONFIG_ERROR",
            UniModelError::Model(_, _) => "MODEL_ERROR",
            UniModelError::Plugin(_) => "PLUGIN_ERROR",
            UniModelError::BatchProcessing(_, _) => "BATCH_ERROR",
            UniModelError::Scheduling(_) => "SCHEDULE_ERROR",
            UniModelError::Resource(_) => "RESOURCE_ERROR",
            UniModelError::Network(_) => "NETWORK_ERROR",
            UniModelError::Authentication(_) => "AUTH_ERROR",
            UniModelError::Authorization(_) => "AUTHZ_ERROR",
            UniModelError::Validation(_) => "VALIDATION_ERROR",
            UniModelError::Io(_) => "IO_ERROR",
            UniModelError::Serialization(_) => "SERIALIZATION_ERROR",
            UniModelError::Http(_) => "HTTP_ERROR",
            UniModelError::Internal(_) => "INTERNAL_ERROR",
        }
    }

    /// The HTTP status under which the error is surfaced.
    pub fn status_code(&self) -> (status: u16)
        ensures
            status == self.status(),
    {
        match self {
            UniModelError::Config(_) => 500,
            UniModelError::Model(ModelFault::NotFound, _) => 404,
            UniModelError::Model(_, _) => 503,
            UniModelError::Plugin(_) => 500,
            UniModelError::BatchProcessing(BatchFault::Expired, _) => 503,
            UniModelError::BatchProcessing(BatchFault::Overloaded, _) => 429,
            UniModelError::Scheduling(_) => 503,
            UniModelError::Resource(_) => 503,
            UniModelError::Network(_) => 502,
            UniModelError::Authentication(_) => 401,
            UniModelError::Authorization(_) => 403,
            UniModelError::Validation(_) => 400,
            UniModelError::Io(_) => 500,
            UniModelError::Serialization(_) => 400,
            UniModelError::Http(_) => 500,
            UniModelError::Internal(_) => 500,
        }
    }

    /// The message the error carries.
    pub fn message_text(&self) -> (msg: &String)
        ensures
            msg@ == self.message(),
    {
        match self {
            UniModelError::Config(m) => m,
            UniModelError::Model(_, m) => m,
            UniModelError::Plugin(m) => m,
            UniModelError::BatchProcessing(_, m) => m,
            UniModelError::Scheduling(m) => m,
            UniModelError::Resource(m) => m,
            UniModelError::Network(m) => m,
            UniModelError::Authentication(m) => m,
            UniModelError::Authorization(m) => m,
            UniModelError::Validation(m) => m,
            UniModelError::Io(m) => m,
            UniModelError::Serialization(m) => m,
            UniModelError::Http(m) => m,
            UniModelError::Internal(m) => m,
        }
    }

    /// The text shown for the error: the kind's prefix, then the message.
    pub fn to_string(&self) -> (shown: String)
        ensures
            shown@ == self.text(),
    {
        let prefix: &'static str = match self {
            UniModelError::Config(_) => "Configuration error: ",
            UniModelError::Model(_, _) => "Model error: ",
            UniModelError::Plugin(_) => "Plugin error: ",
            UniModelError::BatchProcessing(_, _) => "Batch processing error: ",
            UniModelError::Scheduling(_) => "Scheduling error: ",
            UniModelError::Resource(_) => "Resource error: ",
            UniModelError::Network(_) => "Network error: ",
            UniModelError::Authentication(_) => "Authentication error: ",
            UniModelError::Authorization(_) => "Authorization error: ",
            UniModelError::Validation(_) => "Validation error: ",
            UniModelError::Io(_) => "IO error: ",
            UniModelError::Serialization(_) => "Serialization error: ",
            UniModelError::Http(_) => "HTTP error: ",
            UniModelError::Internal(_) => "Internal error: ",
        };
        prefix.to_owned().concat(self.message_text().as_str())
    }
}

} // verus!
