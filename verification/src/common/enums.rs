//! Named model formats and load states, with their text forms.

use crate::common::text::{lowercase_text, text_is, to_lowercase};
use vstd::prelude::*;
use vstd::string::StringExecFns;

verus! {

/// What every enum of this module offers: its text form.
pub trait EnumTrait {
    /// The text form of the value.
    spec fn text(&self) -> Seq<char>;

    /// The text form of the value.
    fn to_string(&self) -> (shown: String)
        ensures
            shown@ == self.text(),
    ;
}

/// Format of a language model.
#[derive(Clone, Copy, Debug, PartialEq, Eq, Structural)]
pub enum LlmFormat {
    Gguf,
    TensorRtLlm,
}

/// Format of a general model.
#[derive(Clone, Copy, Debug, PartialEq, Eq, Structural)]
pub enum GeneralFormat {
    Onnx,
    TensorFlow,
    PyTorch,
}

/// Format family of a model.
#[derive(Clone, Debug, PartialEq, Eq)]
pub enum ModelType {
    /// A language model in the given format.
    Llm(LlmFormat),
    /// A general model in the given format.
    General(GeneralFormat),
    /// A computer-vision model.
    Cv,
    /// Any other family, by name.
    Other(String),
}

impl LlmFormat {
    /// The name of the format.
    pub open spec fn name(self) -> Seq<char> {
        match self {
            LlmFormat::Gguf => "Gguf"@,
            LlmFormat::TensorRtLlm => "TensorRtLlm"@,
        }
    }

    /// The name of the format.
    pub fn as_str(&self) -> (name: &'static str)
        ensures
            name@ == self.name(),
    {
        match self {
            LlmFormat::Gguf => "Gguf",
            LlmFormat::TensorRtLlm => "TensorRtLlm",
        }
    }
}

impl GeneralFormat {
    /// The name of the format.
    pub open spec fn name(self) -> Seq<char> {
        match self {
            GeneralFormat::Onnx => "Onnx"@,
            GeneralFormat::TensorFlow => "TensorFlow"@,
            GeneralFormat::PyTorch => "PyTorch"@,
        }
    }

    /// The name of the format.
    pub fn as_str(&self) -> (name: &'static str)
        ensures
            name@ == self.name(),
    {
        match self {
            GeneralFormat::Onnx => "Onnx",
            GeneralFormat::TensorFlow => "TensorFlow",
            GeneralFormat::PyTorch => "PyTorch",
        }
    }
}

impl ModelType {
    /// Whether the value is what the lower-case text `lower` names: one of
    /// the six known spellings, or else the family called `lower`.
    pub open spec fn reads_as(self, lower: Seq<char>) -> bool {
        if lower == "llm(gguf)"@ {
            self == ModelType::Llm(LlmFormat::Gguf)
        } else if lower == "llm(tensorrtllm)"@ {
            self == ModelType::Llm(LlmFormat::TensorRtLlm)
        } else if lower == "general(onnx)"@ {
            self == ModelType::General(GeneralFormat::Onnx)
        } else if lower == "general(tensorflow)"@ {
            self == ModelType::General(GeneralFormat::TensorFlow)
        } else if lower == "general(pytorch)"@ {
            self == ModelType::General(GeneralFormat::PyTorch)
        } else if lower == "cv"@ {
            self == ModelType::Cv
        } else {
            self matches ModelType::Other(name) && name@ == lower
        }
    }

    /// The model type that a lower-case text names.
    pub fn from_lowercase(lower: String) -> (t: Self)
        ensures
            t.reads_as(lower@),
    {
        if text_is(&lower, "llm(gguf)") {
            ModelType::Llm(LlmFormat::Gguf)
        } else if text_is(&lower, "llm(tensorrtllm)") {
            ModelType::Llm(LlmFormat::TensorRtLlm)
        } else if text_is(&lower, "general(onnx)") {
            ModelType::General(GeneralFormat::Onnx)
        } else if text_is(&lower, "general(tensorflow)") {
            ModelType::General(GeneralFormat::TensorFlow)
        } else if text_is(&lower, "general(pytorch)") {
            ModelType::General(GeneralFormat::PyTorch)
        } else if text_is(&lower, "cv") {
            ModelType::Cv
        } else {
            ModelType::Other(lower)
        }
    }

    /// Reads a model type from text, whatever its letter case. Every text
    /// names a type: an unknown one names a family of its own.
    pub fn parse(s: &str) -> (r: Result<Self, String>)
        ensures
            r matches Ok(t) && t.reads_as(lowercase_text(s@)),
    {
        Ok(ModelType::from_lowercase(to_lowercase(s)))
    }
}

impl EnumTrait for ModelType {
    open spec fn text(&self) -> Seq<char> {
        match self {
            ModelType::Llm(format) => "LLM("@ + format.name() + ")"@,
            ModelType::General(format) => "General("@ + format.name() + ")"@,
            ModelType::Cv => "CV"@,
            ModelType::Other(name) => "Other("@ + name@ + ")"@,
        }
    }

    fn to_string(&self) -> (shown: String) {
        match self {
            ModelType::Llm(format) => "LLM(".to_owned().concat(format.as_str()).concat(")"),
            ModelType::General(format) => "General(".to_owned().concat(format.as_str()).concat(")"),
            ModelType::Cv => "CV".to_owned(),
            ModelType::Other(name) => "Other(".to_owned().concat(name.as_str()).concat(")"),
        }
    }
}

impl std::str::FromStr for ModelType {
    type Err = String;

    /// Reads a model type from text, whatever its letter case. Every text
    /// names a type: an unknown one names a family of its own.
    fn from_str(s: &str) -> (r: Result<Self, String>)
        ensures
            r matches Ok(t) && t.reads_as(lowercase_text(s@)),
    {
        ModelType::parse(s)
    }
}

/// Load state of a model as the transport layer names it.
#[derive(Clone, Copy, Debug, PartialEq, Eq, Structural)]
pub enum Status {
    Loaded,
    Unloaded,
    Loading,
    Error,
}

impl Status {
    /// The status that a lower-case text names, if it names one.
    pub open spec fn named_by(lower: Seq<char>) -> Option<Status> {
        if lower == "loaded"@ {
            Some(Status::Loaded)
        } else if lower == "unloaded"@ {
            Some(Status::Unloaded)
        } else if lower == "loading"@ {
            Some(Status::Loading)
        } else if lower == "error"@ {
            Some(Status::Error)
        } else {
            None
        }
    }

    /// The status that a lower-case text names, or the refusal of a text
    /// that names none.
    pub fn from_lowercase(lower: &String) -> (r: Result<Self, String>)
        ensures
            match r {
                Ok(status) => Status::named_by(lower@) == Some(status),
                Err(msg) => Status::named_by(lower@) is None && msg@ == "Invalid status"@,
            },
    {
        if text_is(lower, "loaded") {
            Ok(Status::Loaded)
        } else if text_is(lower, "unloaded") {
            Ok(Status::Unloaded)
        } else if text_is(lower, "loading") {
            Ok(Status::Loading)
        } else if text_is(lower, "error") {
            Ok(Status::Error)
        } else {
            Err("Invalid status".to_owned())
        }
    }

    /// Reads a status from text, whatever its letter case.
    pub fn parse(s: &str) -> (r: Result<Self, String>)
        ensures
            match r {
                Ok(status) => Status::named_by(lowercase_text(s@)) == Some(status),
                Err(msg) => Status::named_by(lowercase_text(s@)) is None && msg@
                    == "Invalid status"@,
            },
    {
        let lower = to_lowercase(s);
        Status::from_lowercase(&lower)
    }
}

impl EnumTrait for Status {
    open spec fn text(&self) -> Seq<char> {
        match self {
            Status::Loaded => "Loaded"@,
            Status::Unloaded => "Unloaded"@,
            Status::Loading => "Loading"@,
            Status::Error => "Error"@,
        }
    }

    fn to_string(&self) -> (shown: String) {
        match self {
            Status::Loaded => "Loaded".to_owned(),
            Status::Unloaded => "Unloaded".to_owned(),
            Status::Loading => "Loading".to_owned(),
            Status::Error => "Error".to_owned(),
        }
    }
}

impl std::str::FromStr for Status {
    type Err = String;

    /// Reads a status from text, whatever its letter case; a text that
    /// names none is refused.
    fn from_str(s: &str) -> (r: Result<Self, String>)
        ensures
            match r {
                Ok(status) => Status::named_by(lowercase_text(s@)) == Some(status),
                Err(msg) => Status::named_by(lowercase_text(s@)) is None && msg@
                    == "Invalid status"@,
            },
    {
        Status::parse(s)
    }
}

} // verus!
