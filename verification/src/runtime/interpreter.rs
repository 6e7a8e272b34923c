//! The interpreter whose instances run scripts.

use vstd::prelude::*;

verus! {

/// How an interpreter is set up.
#[derive(Debug)]
pub struct Options {
    /// The file that configures the cache of compiled code.
    pub cache_config_file: Option<String>,
}

/// Why an interpreter cannot be made.
#[derive(Debug)]
pub enum CreateError {
    /// The code cannot be compiled.
    Wasm(anyhow::Error),
}

/// Why the state of an instance cannot be captured. Capturing never fails.
#[derive(Debug)]
pub enum CaptureError {
    Never(core::convert::Infallible),
}

/// The state of an instance after a first phase, to start other instances from.
#[derive(Debug)]
pub struct Template {
    pub memory: Vec<u8>,
}

/// Passes the failure of a step of making an interpreter on.
pub fn created<T>(step: Result<T, anyhow::Error>) -> (r: Result<T, CreateError>)
    ensures
        r == match step {
            Ok(x) => Ok(x),
            Err(e) => Err(CreateError::Wasm(e)),
        },
{
    match step {
        Ok(x) => Ok(x),
        Err(e) => Err(CreateError::Wasm(e)),
    }
}

impl Template {
    /// Captures the memory of an instance.
    pub fn capture(memory: &[u8]) -> (r: Result<Template, CaptureError>)
        ensures
            r matches Ok(template) && template.memory@ == memory@,
    {
        Ok(Template { memory: vstd::slice::slice_to_vec(memory) })
    }
}

} // verus!
