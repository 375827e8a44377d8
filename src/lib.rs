//! Building blocks of three small system tools: a container bootstrap engine
//! (registry client, sandbox builder, isolation and exec engine), the message
//! models of a small HTTP server, and the command planning of a small shell.
//! Every item here is pure logic with a contract; the I/O around it lives in
//! the application crate.

pub mod engine;
pub mod error;
pub mod http;
pub mod registry;
pub mod sandbox;
pub mod shell;

pub use engine::{
    exit_status, Run, RunAction, RunStage, StepOutcome, DEVICE_DIR, NULL_DEVICE, SIGNAL_STATUS,
};
pub use error::{RunError, FAILURE_STATUS};
pub use http::{decimal_string, Request, Response, StatusCode};
pub use registry::{
    auth_url, blob_url, manifest_url, BlobFetch, CallKind, FetchAction, FetchReply, FetchStage,
    ImageReference, LayerDescriptor, Manifest, RegistryCall,
};
pub use sandbox::{
    decompress_layer, join_path, plan_binary_copy, sandbox_dir, CopyPlan, SANDBOX_DIR,
};
pub use shell::{
    binary_candidates, cd_target, echo_line, is_builtin, split_path_list, type_message,
};
