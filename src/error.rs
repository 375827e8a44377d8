use vstd::prelude::*;

verus! {

/// Why a run stopped.
#[derive(Debug, Clone, Copy, PartialEq, Eq, Structural)]
pub enum RunError {
    /// No pull token could be had from the auth endpoint.
    Auth,
    /// The manifest could not be fetched or read.
    Manifest,
    /// A layer blob could not be fetched.
    Blob,
    /// The sandbox could not be created or the binary not copied.
    Io,
    /// A layer could not be decompressed or unpacked.
    Extract,
    /// The root change or the device setup failed.
    Isolation,
    /// The command could not be launched or waited for.
    Spawn,
}

/// The process status of a run that stopped on an error.
pub const FAILURE_STATUS: i32 = 1;

/// A short description of the step that failed with `e`.
pub open spec fn error_text(e: RunError) -> Seq<char> {
    match e {
        RunError::Auth => "failed to fetch an auth token"@,
        RunError::Manifest => "failed to fetch the manifest"@,
        RunError::Blob => "failed to fetch a layer blob"@,
        RunError::Io => "failed to prepare the sandbox"@,
        RunError::Extract => "failed to extract a layer"@,
        RunError::Isolation => "failed to isolate the process"@,
        RunError::Spawn => "failed to run the command"@,
    }
}

impl RunError {
    /// A short description of the failed step.
    pub fn message(&self) -> (r: String)
        ensures
            r@ == error_text(*self),
    {
        match self {
            RunError::Auth => "failed to fetch an auth token".to_string(),
            RunError::Manifest => "failed to fetch the manifest".to_string(),
            RunError::Blob => "failed to fetch a layer blob".to_string(),
            RunError::Io => "failed to prepare the sandbox".to_string(),
            RunError::Extract => "failed to extract a layer".to_string(),
            RunError::Isolation => "failed to isolate the process".to_string(),
            RunError::Spawn => "failed to run the command".to_string(),
        }
    }
}

} // verus!
