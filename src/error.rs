use vstd::prelude::*;

verus! {

/// Every way a request can fail.
#[derive(Debug, PartialEq, Eq)]
pub enum NlpError {
    /// A language identifier outside the supported set.
    UnsupportedLanguage,
    /// The requested resource has no registered builder.
    ResourceUnavailable,
    /// Building the resource failed; the key may be built again later.
    BuildFailed(String),
    /// The engine failed while serving a call.
    InferenceFailed(String),
    /// A numeric value has no text form (it is not finite).
    SerializationError,
}

} // verus!
