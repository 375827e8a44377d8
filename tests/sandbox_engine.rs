use byo_tools::{
    decompress_layer, exit_status, join_path, plan_binary_copy, sandbox_dir, Run, RunAction,
    RunError, RunStage, StepOutcome,
};
use std::io::Write;

#[test]
fn join_path_like_path_join() {
    assert_eq!(join_path("/work", "sandbox"), "/work/sandbox");
    assert_eq!(join_path("/work/", "sandbox"), "/work/sandbox");
    assert_eq!(join_path("", "sandbox"), "sandbox");
    assert_eq!(join_path("/work", "/etc"), "/etc");
    assert_eq!(sandbox_dir("/home/u"), "/home/u/sandbox");
}

#[test]
fn binary_copy_plan() {
    let p = plan_binary_copy("/usr/local/bin/docker-explorer", "/w/sandbox").unwrap();
    assert_eq!(p.dirs, vec!["/w/sandbox/usr/local/bin".to_string(), "/w/sandbox/bin".to_string()]);
    assert_eq!(p.source, "/usr/local/bin/docker-explorer");
    assert_eq!(p.destination, "/w/sandbox/usr/local/bin/docker-explorer");
    let p = plan_binary_copy("/bin/ls", "/w/sandbox").unwrap();
    assert_eq!(p.destination, "/w/sandbox/bin/ls");
}

#[test]
fn binary_copy_of_relative_command_is_io_error() {
    assert!(matches!(plan_binary_copy("ls", "/w/sandbox"), Err(RunError::Io)));
    assert!(matches!(plan_binary_copy("", "/w/sandbox"), Err(RunError::Io)));
}

#[test]
fn layer_decompression() {
    let mut e = flate2::write::GzEncoder::new(Vec::new(), flate2::Compression::default());
    e.write_all(b"tar archive bytes").unwrap();
    let blob = e.finish().unwrap();
    assert_eq!(decompress_layer(&blob).unwrap(), b"tar archive bytes".to_vec());
    assert!(matches!(decompress_layer(b"not gzip at all"), Err(RunError::Extract)));
}

#[test]
fn exit_status_is_child_code() {
    assert_eq!(exit_status(Some(7)), 7);
    assert_eq!(exit_status(Some(0)), 0);
    assert_eq!(exit_status(None), 1);
}

#[test]
fn run_goes_through_every_step_in_order() {
    let (mut r, a) = Run::new();
    assert_eq!(a, RunAction::CreateSandbox);
    assert_eq!(r.step(StepOutcome::Done), RunAction::FetchBlobs);
    assert_eq!(r.step(StepOutcome::Fetched(2)), RunAction::CopyBinary);
    assert_eq!(r.step(StepOutcome::Done), RunAction::ExtractLayer(0));
    assert_eq!(r.step(StepOutcome::Done), RunAction::ExtractLayer(1));
    assert_eq!(r.step(StepOutcome::Done), RunAction::ChangeRoot);
    assert_eq!(r.step(StepOutcome::Done), RunAction::UnsharePid);
    assert_eq!(r.step(StepOutcome::Done), RunAction::Spawn);
    assert_eq!(r.step(StepOutcome::Done), RunAction::Wait);
    assert_eq!(r.step(StepOutcome::Exited(Some(7))), RunAction::Exit(7));
    assert_eq!(r.stage, RunStage::Terminated);
    assert_eq!(r.step(StepOutcome::Done), RunAction::Exit(7));
}

#[test]
fn run_without_layers_goes_to_root_change() {
    let (mut r, _) = Run::new();
    r.step(StepOutcome::Done);
    r.step(StepOutcome::Fetched(0));
    assert_eq!(r.step(StepOutcome::Done), RunAction::ChangeRoot);
}

#[test]
fn run_of_child_killed_by_signal_exits_with_fallback() {
    let (mut r, _) = Run::new();
    for o in [StepOutcome::Done, StepOutcome::Fetched(0), StepOutcome::Done, StepOutcome::Done, StepOutcome::Done, StepOutcome::Done] {
        r.step(o);
    }
    assert_eq!(r.stage, RunStage::ChildRunning);
    assert_eq!(r.step(StepOutcome::Exited(None)), RunAction::Exit(1));
}

#[test]
fn run_stops_when_manifest_fetch_fails() {
    let (mut r, _) = Run::new();
    r.step(StepOutcome::Done);
    assert_eq!(r.step(StepOutcome::Failed(RunError::Manifest)), RunAction::Exit(1));
    assert_eq!(r.stage, RunStage::Aborted);
    assert_eq!(r.error, Some(RunError::Manifest));
    assert_eq!(r.step(StepOutcome::Done), RunAction::Exit(1));
}

#[test]
fn run_stops_when_binary_copy_fails() {
    let (mut r, _) = Run::new();
    r.step(StepOutcome::Done);
    r.step(StepOutcome::Fetched(1));
    assert_eq!(r.step(StepOutcome::Failed(RunError::Io)), RunAction::Exit(1));
    assert_eq!(r.error, Some(RunError::Io));
    assert_eq!(r.stage, RunStage::Aborted);
}

#[test]
fn run_outcome_of_wrong_kind_aborts() {
    let (mut r, _) = Run::new();
    assert_eq!(r.step(StepOutcome::Fetched(3)), RunAction::Exit(1));
    assert_eq!(r.error, Some(RunError::Io));
}

#[test]
fn run_error_messages() {
    assert!(!RunError::Spawn.message().is_empty());
    assert_ne!(RunError::Auth.message(), RunError::Blob.message());
}
