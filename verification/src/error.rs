//! The engine's error type.

use vstd::prelude::*;
use crate::text::cat;

verus! {

/// Errors raised by the engine. Errors that come from I/O, parsers or the
/// network carry the message of the underlying failure.
#[derive(Clone, Debug)]
pub enum EngineError {
    InvalidConfig(String),
    PolicyViolation(String),
    Runtime(String),
    MissingTool(String),
    PathSafety(String),
    Network(String),
    NotFound(String),
    Io(String),
    SerdeJson(String),
    SerdeYaml(String),
    Reqwest(String),
}

pub type EngineResult<T> = Result<T, EngineError>;

/// The category prefix under which each error is displayed.
pub open spec fn error_prefix(e: EngineError) -> Seq<char> {
    match e {
        EngineError::InvalidConfig(_) => "invalid config: "@,
        EngineError::PolicyViolation(_) => "policy violation: "@,
        EngineError::Runtime(_) => "runtime error: "@,
        EngineError::MissingTool(_) => "tooling missing: "@,
        EngineError::PathSafety(_) => "filesystem safety violation: "@,
        EngineError::Network(_) => "network error: "@,
        EngineError::NotFound(_) => "not found: "@,
        EngineError::Io(_) => "io error: "@,
        EngineError::SerdeJson(_) => "serialization error: "@,
        EngineError::SerdeYaml(_) => "yaml error: "@,
        EngineError::Reqwest(_) => "http error: "@,
    }
}

/// The detail text carried by an error.
pub open spec fn error_detail(e: EngineError) -> Seq<char> {
    match e {
        EngineError::InvalidConfig(s) => s@,
        EngineError::PolicyViolation(s) => s@,
        EngineError::Runtime(s) => s@,
        EngineError::MissingTool(s) => s@,
        EngineError::PathSafety(s) => s@,
        EngineError::Network(s) => s@,
        EngineError::NotFound(s) => s@,
        EngineError::Io(s) => s@,
        EngineError::SerdeJson(s) => s@,
        EngineError::SerdeYaml(s) => s@,
        EngineError::Reqwest(s) => s@,
    }
}

impl EngineError {
    /// The human-readable rendering of the error: category, then detail.
    pub fn message(&self) -> (r: String)
        ensures
            r@ == error_prefix(*self) + error_detail(*self),
    {
        match self {
            EngineError::InvalidConfig(s) => cat("invalid config: ", s.as_str()),
            EngineError::PolicyViolation(s) => cat("policy violation: ", s.as_str()),
            EngineError::Runtime(s) => cat("runtime error: ", s.as_str()),
            EngineError::MissingTool(s) => cat("tooling missing: ", s.as_str()),
            EngineError::PathSafety(s) => cat("filesystem safety violation: ", s.as_str()),
            EngineError::Network(s) => cat("network error: ", s.as_str()),
            EngineError::NotFound(s) => cat("not found: ", s.as_str()),
            EngineError::Io(s) => cat("io error: ", s.as_str()),
            EngineError::SerdeJson(s) => cat("serialization error: ", s.as_str()),
            EngineError::SerdeYaml(s) => cat("yaml error: ", s.as_str()),
            EngineError::Reqwest(s) => cat("http error: ", s.as_str()),
        }
    }
}

} // verus!
