//! Fixed values of the service surface and checks on them.

use crate::common::enums::ModelType;
use crate::common::text::lowercase_text;
use vstd::prelude::*;

verus! {

/// Namespace for the constants of the service surface.
pub struct ConfigConstants;

/// Message reported for the only port number that is refused.
pub open spec fn invalid_port_message() -> Seq<char> {
    "Invalid port: 0 (must be 1-65535)"@
}

impl ConfigConstants {
    /// Version segment of every route.
    pub const API_VERSION: &'static str = "v1";

    /// Route template of the prediction endpoint.
    pub const PREDICT_PATH: &'static str = "/models/{model_name}:predict";

    /// Port the server listens on unless configured otherwise.
    pub const DEFAULT_PORT: u16 = 8080;

    /// Request timeout in seconds unless configured otherwise.
    pub const DEFAULT_TIMEOUT: u64 = 30;

    /// Text form of the model type assumed when none is given.
    pub const DEFAULT_MODEL_TYPE: &'static str = "LLM(Gguf)";

    /// Text form of the status of a loaded model.
    pub const LOADED_STATUS: &'static str = "Loaded";

    /// Port of the second listener, as text.
    pub const EXTENDED_PORT: &'static str = "8081";

    /// Accepts every port in `1..=65535` and refuses port 0.
    pub fn validate_port(port: u16) -> (r: Result<(), String>)
        ensures
            r is Ok <==> port != 0,
            r matches Err(msg) ==> msg@ == invalid_port_message(),
    {
        if port == 0 {
            Err("Invalid port: 0 (must be 1-65535)".to_owned())
        } else {
            Ok(())
        }
    }

    /// Reads a model type from text, whatever its letter case. No text is
    /// refused: an unknown one names a family of its own.
    pub fn validate_model_type(type_str: &str) -> (r: Result<ModelType, String>)
        ensures
            r matches Ok(t) && t.reads_as(lowercase_text(type_str@)),
    {
        ModelType::parse(type_str)
    }
}

} // verus!
