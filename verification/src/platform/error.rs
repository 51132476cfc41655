use vstd::prelude::*;

verus! {

#[verifier::external_type_specification]
#[verifier::external_body]
pub struct ExAnyhowError(anyhow::Error);

/// Platform-agnostic error types for the sync provider abstraction layer.
#[derive(Debug)]
pub enum PlatformError {
    /// Operation not supported on this platform.
    NotSupported,
    /// Operation failed, with a message.
    Failed(String),
    /// Any other error.
    Other(anyhow::Error),
}

impl PlatformError {
    /// The error's message, as its `Display` text reads; for `Other`, the
    /// wrapped error's own text.
    pub fn message(&self) -> (r: String)
        ensures
            *self is NotSupported ==> r@ == "operation not supported on this platform"@,
            *self matches PlatformError::Failed(m) ==> r@ == "operation failed: "@ + m@,
    {
        match self {
            PlatformError::NotSupported => "operation not supported on this platform".to_owned(),
            PlatformError::Failed(msg) => {
                let mut s = "operation failed: ".to_owned();
                s.append(msg.as_str());
                proof { reveal_strlit("operation failed: "); }
                s
            },
            PlatformError::Other(e) => error_text(e),
        }
    }
}

/// `anyhow::Error`'s `Display` text.
#[verifier::external_body]
fn error_text(e: &anyhow::Error) -> String {
    e.to_string()
}

} // verus!
