use crate::error::{RunError, FAILURE_STATUS};
use vstd::prelude::*;

verus! {

/// The directory made for devices inside the new root.
pub const DEVICE_DIR: &'static str = "/dev";

/// The empty file that stands for the null device inside the new root.
pub const NULL_DEVICE: &'static str = "/dev/null";

/// The status reported for a child that ended without an exit code (killed
/// by a signal).
pub const SIGNAL_STATUS: i32 = 1;

/// The status a run exits with, given the child's exit code if it had one.
pub open spec fn exit_status_of(code: Option<i32>) -> i32 {
    match code {
        Some(c) => c,
        None => SIGNAL_STATUS,
    }
}

/// The status a run exits with: the child's own exit code, or the fixed
/// fallback when it had none.
pub fn exit_status(code: Option<i32>) -> (r: i32)
    ensures
        r == exit_status_of(code),
{
    match code {
        Some(c) => c,
        None => SIGNAL_STATUS,
    }
}

/// The steps of a run, in the order they happen.
#[derive(Debug, Clone, Copy, PartialEq, Eq, Structural)]
pub enum RunStage {
    Unbuilt,
    SandboxCreated,
    BlobsFetched,
    BinaryCopied,
    LayersExtracted,
    RootChanged,
    NamespaceIsolated,
    ChildRunning,
    Terminated,
    Aborted,
}

/// What the caller is to do next.
#[derive(Debug, Clone, Copy, PartialEq, Eq, Structural)]
pub enum RunAction {
    /// Make the sandbox directory.
    CreateSandbox,
    /// Fetch all layer blobs of the image.
    FetchBlobs,
    /// Copy the command's binary into the sandbox.
    CopyBinary,
    /// Decompress and unpack the layer with this index into the sandbox.
    ExtractLayer(usize),
    /// Change the root into the sandbox and set up the device directory.
    ChangeRoot,
    /// Move into a new PID namespace.
    UnsharePid,
    /// Launch the command with inherited output streams.
    Spawn,
    /// Wait for the child to end.
    Wait,
    /// End the process with this status.
    Exit(i32),
}

/// How the last action went.
#[derive(Debug, Clone, Copy, PartialEq, Eq, Structural)]
pub enum StepOutcome {
    /// The action succeeded.
    Done,
    /// The blobs were fetched; there are this many layers.
    Fetched(usize),
    /// The child ended, with its exit code if it had one.
    Exited(Option<i32>),
    /// The action failed with this error.
    Failed(RunError),
}

/// The error that a step fails with when its outcome is not one it can take.
pub open spec fn stage_error(stage: RunStage) -> RunError {
    match stage {
        RunStage::Unbuilt => RunError::Io,
        RunStage::SandboxCreated => RunError::Manifest,
        RunStage::BlobsFetched => RunError::Io,
        RunStage::BinaryCopied => RunError::Extract,
        RunStage::LayersExtracted => RunError::Isolation,
        RunStage::RootChanged => RunError::Isolation,
        _ => RunError::Spawn,
    }
}

/// One run: build the sandbox, fill it, isolate, run the command, exit.
#[derive(Debug, Clone, Copy, PartialEq, Eq, Structural)]
pub struct Run {
    pub stage: RunStage,
    /// The number of layers, once fetched.
    pub layer_count: usize,
    /// The number of layers unpacked so far.
    pub extracted: usize,
    /// The error the run stopped on.
    pub error: Option<RunError>,
    /// The status the run ends with, once it has ended.
    pub status: i32,
}

/// Whether run `r` has ended, by exiting or by a failure.
pub open spec fn ended(r: Run) -> bool {
    r.stage == RunStage::Terminated || r.stage == RunStage::Aborted
}

/// The next state and action of run `r` after `o`. A failure at any step,
/// or an outcome that the step cannot have, ends the run with the failure
/// status; an ended run only repeats its exit.
pub open spec fn run_next(r: Run, o: StepOutcome) -> (Run, RunAction) {
    let abort = |e: RunError| (Run { stage: RunStage::Aborted, error: Some(e), status: FAILURE_STATUS, ..r }, RunAction::Exit(FAILURE_STATUS));
    if ended(r) {
        (r, RunAction::Exit(r.status))
    } else {
        match (r.stage, o) {
            (_, StepOutcome::Failed(e)) => abort(e),
            (RunStage::Unbuilt, StepOutcome::Done) => (Run { stage: RunStage::SandboxCreated, ..r }, RunAction::FetchBlobs),
            (RunStage::SandboxCreated, StepOutcome::Fetched(n)) => (Run { stage: RunStage::BlobsFetched, layer_count: n, ..r }, RunAction::CopyBinary),
            (RunStage::BlobsFetched, StepOutcome::Done) => if r.layer_count == 0 {
                (Run { stage: RunStage::LayersExtracted, ..r }, RunAction::ChangeRoot)
            } else {
                (Run { stage: RunStage::BinaryCopied, ..r }, RunAction::ExtractLayer(0))
            },
            (RunStage::BinaryCopied, StepOutcome::Done) => if r.extracted + 1 >= r.layer_count {
                (Run { stage: RunStage::LayersExtracted, extracted: r.layer_count, ..r }, RunAction::ChangeRoot)
            } else {
                (Run { extracted: (r.extracted + 1) as usize, ..r }, RunAction::ExtractLayer((r.extracted + 1) as usize))
            },
            (RunStage::LayersExtracted, StepOutcome::Done) => (Run { stage: RunStage::RootChanged, ..r }, RunAction::UnsharePid),
            (RunStage::RootChanged, StepOutcome::Done) => (Run { stage: RunStage::NamespaceIsolated, ..r }, RunAction::Spawn),
            (RunStage::NamespaceIsolated, StepOutcome::Done) => (Run { stage: RunStage::ChildRunning, ..r }, RunAction::Wait),
            (RunStage::ChildRunning, StepOutcome::Exited(code)) => (
                Run { stage: RunStage::Terminated, status: exit_status_of(code), ..r },
                RunAction::Exit(exit_status_of(code)),
            ),
            _ => abort(stage_error(r.stage)),
        }
    }
}

/// The state of a run that has done nothing yet.
pub open spec fn initial_run() -> Run {
    Run { stage: RunStage::Unbuilt, layer_count: 0, extracted: 0, error: None, status: 0 }
}

/// The state reached and the actions asked for when `r` is given the
/// outcomes `os` one after another.
pub open spec fn drive(r: Run, os: Seq<StepOutcome>) -> (Run, Seq<RunAction>)
    decreases os.len(),
{
    if os.len() == 0 {
        (r, Seq::empty())
    } else {
        let (r1, a) = run_next(r, os[0]);
        let (r2, rest) = drive(r1, os.drop_first());
        (r2, seq![a] + rest)
    }
}

/// The outcomes of a run in which every step succeeds: the image has `n`
/// layers and the child ends with `code`.
pub open spec fn success_outcomes(n: usize, code: Option<i32>) -> Seq<StepOutcome> {
    seq![StepOutcome::Done, StepOutcome::Fetched(n)] + Seq::new((n + 1) as nat, |i: int| StepOutcome::Done)
        + seq![StepOutcome::Done, StepOutcome::Done, StepOutcome::Done, StepOutcome::Exited(code)]
}

/// The actions that follow the first one in a run in which every step
/// succeeds: fetch, copy, unpack each layer in index order, change root,
/// detach the PID namespace, spawn, wait, exit with the child's status.
pub open spec fn success_actions(n: usize, code: Option<i32>) -> Seq<RunAction> {
    seq![RunAction::FetchBlobs, RunAction::CopyBinary] + Seq::new(n as nat, |i: int| RunAction::ExtractLayer(i as usize))
        + seq![RunAction::ChangeRoot, RunAction::UnsharePid, RunAction::Spawn, RunAction::Wait, RunAction::Exit(exit_status_of(code))]
}

proof fn lemma_drive_append(r: Run, a: Seq<StepOutcome>, b: Seq<StepOutcome>)
    ensures
        drive(r, a + b).0 == drive(drive(r, a).0, b).0,
        drive(r, a + b).1 == drive(r, a).1 + drive(drive(r, a).0, b).1,
    decreases a.len(),
{
    if a.len() == 0 {
        assert(a + b =~= b);
        assert(Seq::<RunAction>::empty() + drive(r, b).1 =~= drive(r, b).1);
    } else {
        assert((a + b).drop_first() =~= a.drop_first() + b);
        let (r1, act) = run_next(r, a[0]);
        lemma_drive_append(r1, a.drop_first(), b);
        let (r2, x) = drive(r1, a.drop_first());
        let (r3, y) = drive(r2, b);
        assert(seq![act] + (x + y) =~= (seq![act] + x) + y);
    }
}

proof fn lemma_drive_layers(r: Run, k: nat)
    requires
        r.stage == RunStage::BinaryCopied,
        r.extracted < r.layer_count,
        k == r.layer_count - r.extracted,
        r.layer_count < usize::MAX,
    ensures
        drive(r, Seq::new(k, |i: int| StepOutcome::Done)).0.stage == RunStage::LayersExtracted,
        drive(r, Seq::new(k, |i: int| StepOutcome::Done)).0.extracted == r.layer_count,
        drive(r, Seq::new(k, |i: int| StepOutcome::Done)).0.layer_count == r.layer_count,
        drive(r, Seq::new(k, |i: int| StepOutcome::Done)).1 == Seq::new((k - 1) as nat, |i: int| RunAction::ExtractLayer((r.extracted + 1 + i) as usize))
            + seq![RunAction::ChangeRoot],
    decreases k,
{
    let os = Seq::new(k, |i: int| StepOutcome::Done);
    let (r1, a) = run_next(r, StepOutcome::Done);
    assert(os.drop_first() =~= Seq::new((k - 1) as nat, |i: int| StepOutcome::Done));
    if k == 1 {
        assert(drive(r1, os.drop_first()) == (r1, Seq::<RunAction>::empty()));
        assert(Seq::new((k - 1) as nat, |i: int| RunAction::ExtractLayer((r.extracted + 1 + i) as usize)) =~= Seq::empty());
        assert(seq![a] + Seq::<RunAction>::empty() =~= seq![RunAction::ChangeRoot]);
    } else {
        lemma_drive_layers(r1, (k - 1) as nat);
        assert(a == RunAction::ExtractLayer((r.extracted + 1) as usize));
        assert(seq![a] + (Seq::new((k - 2) as nat, |i: int| RunAction::ExtractLayer((r1.extracted + 1 + i) as usize)) + seq![RunAction::ChangeRoot])
            =~= Seq::new((k - 1) as nat, |i: int| RunAction::ExtractLayer((r.extracted + 1 + i) as usize)) + seq![RunAction::ChangeRoot]);
    }
}

/// A run in which every step succeeds asks, after making the sandbox, for
/// exactly these actions: fetch the blobs, copy the binary, unpack the
/// layers one by one in index order (the order of the manifest), change the
/// root, detach the PID namespace, spawn, wait, and exit with the child's
/// own status; it ends terminated.
pub proof fn lemma_successful_run(n: usize, code: Option<i32>)
    requires
        n < usize::MAX,
    ensures
        drive(initial_run(), success_outcomes(n, code)).1 == success_actions(n, code),
        drive(initial_run(), success_outcomes(n, code)).0.stage == RunStage::Terminated,
        drive(initial_run(), success_outcomes(n, code)).0.status == exit_status_of(code),
{
    let r0 = initial_run();
    let head = seq![StepOutcome::Done, StepOutcome::Fetched(n), StepOutcome::Done];
    let layers = Seq::new(n as nat, |i: int| StepOutcome::Done);
    let tail = seq![StepOutcome::Done, StepOutcome::Done, StepOutcome::Done, StepOutcome::Exited(code)];
    assert(success_outcomes(n, code) =~= head + (layers + tail));
    lemma_drive_append(r0, head, layers + tail);
    lemma_drive_append(drive(r0, head).0, layers, tail);
    let (r1, a1) = run_next(r0, StepOutcome::Done);
    let (r2, a2) = run_next(r1, StepOutcome::Fetched(n));
    let (r3, a3) = run_next(r2, StepOutcome::Done);
    let h1 = head.drop_first();
    let h2 = h1.drop_first();
    assert(h1 =~= seq![StepOutcome::Fetched(n), StepOutcome::Done]);
    assert(h2 =~= seq![StepOutcome::Done]);
    assert(h2.drop_first() =~= Seq::<StepOutcome>::empty());
    assert(drive(r3, h2.drop_first()) == (r3, Seq::<RunAction>::empty()));
    assert(drive(r2, h2) == (r3, seq![a3] + Seq::<RunAction>::empty()));
    assert(drive(r1, h1).1 =~= seq![a2, a3]);
    assert(drive(r0, head).0 == r3);
    assert(drive(r0, head).1 =~= seq![a1, a2, a3]);
    let ghost r4: Run;
    let ghost mid: Seq<RunAction>;
    if n == 0 {
        assert(layers =~= Seq::<StepOutcome>::empty());
        r4 = r3;
        mid = Seq::empty();
        assert(a3 == RunAction::ChangeRoot);
    } else {
        lemma_drive_layers(r3, n as nat);
        r4 = drive(r3, layers).0;
        mid = drive(r3, layers).1;
        assert(a3 == RunAction::ExtractLayer(0));
    }
    let (r5, a5) = run_next(r4, StepOutcome::Done);
    let (r6, a6) = run_next(r5, StepOutcome::Done);
    let (r7, a7) = run_next(r6, StepOutcome::Done);
    let (r8, a8) = run_next(r7, StepOutcome::Exited(code));
    let t1 = tail.drop_first();
    let t2 = t1.drop_first();
    let t3 = t2.drop_first();
    assert(t1 =~= seq![StepOutcome::Done, StepOutcome::Done, StepOutcome::Exited(code)]);
    assert(t2 =~= seq![StepOutcome::Done, StepOutcome::Exited(code)]);
    assert(t3 =~= seq![StepOutcome::Exited(code)]);
    assert(t3.drop_first() =~= Seq::<StepOutcome>::empty());
    assert(drive(r8, t3.drop_first()) == (r8, Seq::<RunAction>::empty()));
    assert(drive(r7, t3) == (r8, seq![a8] + Seq::<RunAction>::empty()));
    assert(drive(r6, t2).1 =~= seq![a7, a8]);
    assert(drive(r5, t1).1 =~= seq![a6, a7, a8]);
    assert(drive(r4, tail).0 == r8);
    assert(drive(r4, tail).1 =~= seq![a5, a6, a7, a8]);
    assert(r8.stage == RunStage::Terminated);
    let all = seq![a1, a2, a3] + (mid + seq![a5, a6, a7, a8]);
    assert(all =~= success_actions(n, code));
}

/// Once a run has ended, whatever it is told it asks for nothing but its
/// exit, with the same status; after a failure that status is the failure
/// status.
pub proof fn lemma_ended_run_only_exits(r: Run, os: Seq<StepOutcome>)
    requires
        ended(r),
    ensures
        drive(r, os).0 == r,
        drive(r, os).1 == Seq::new(os.len(), |i: int| RunAction::Exit(r.status)),
    decreases os.len(),
{
    if os.len() > 0 {
        lemma_ended_run_only_exits(r, os.drop_first());
        assert(drive(r, os).1 =~= Seq::new(os.len(), |i: int| RunAction::Exit(r.status)));
    }
}

/// A failed step ends the run at once with the failure status, whatever
/// step it was: nothing after it is attempted.
pub proof fn lemma_failure_ends_run(r: Run, e: RunError, os: Seq<StepOutcome>)
    requires
        !ended(r),
    ensures
        drive(r, seq![StepOutcome::Failed(e)] + os).1 == Seq::new(os.len() + 1, |i: int| RunAction::Exit(FAILURE_STATUS)),
        drive(r, seq![StepOutcome::Failed(e)] + os).0.error == Some(e),
{
    let all = seq![StepOutcome::Failed(e)] + os;
    assert(all.drop_first() =~= os);
    let (r1, a) = run_next(r, StepOutcome::Failed(e));
    lemma_ended_run_only_exits(r1, os);
    assert(drive(r, all).1 =~= Seq::new(os.len() + 1, |i: int| RunAction::Exit(FAILURE_STATUS)));
}

impl Run {
    /// Unpacking has not gone past the layers, and a run that is unpacking
    /// has a layer left.
    pub open spec fn wf(&self) -> bool {
        &&& self.extracted <= self.layer_count
        &&& self.stage == RunStage::BinaryCopied ==> self.extracted < self.layer_count
        &&& (self.stage == RunStage::Unbuilt || self.stage == RunStage::SandboxCreated
            || self.stage == RunStage::BlobsFetched) ==> self.extracted == 0
    }

    /// A new run; its first action makes the sandbox.
    pub fn new() -> (r: (Run, RunAction))
        ensures
            r.0.wf(),
            r.0 == initial_run(),
            r.1 == RunAction::CreateSandbox,
    {
        (Run { stage: RunStage::Unbuilt, layer_count: 0, extracted: 0, error: None, status: 0 }, RunAction::CreateSandbox)
    }

    /// Takes the outcome of the last action and gives the next one.
    pub fn step(&mut self, o: StepOutcome) -> (a: RunAction)
        requires
            old(self).wf(),
        ensures
            final(self).wf(),
            (*final(self), a) == run_next(*old(self), o),
    {
        if self.stage == RunStage::Terminated || self.stage == RunStage::Aborted {
            return RunAction::Exit(self.status);
        }
        let next = match (self.stage, o) {
            (_, StepOutcome::Failed(e)) => None,
            (RunStage::Unbuilt, StepOutcome::Done) => {
                self.stage = RunStage::SandboxCreated;
                Some(RunAction::FetchBlobs)
            },
            (RunStage::SandboxCreated, StepOutcome::Fetched(n)) => {
                self.stage = RunStage::BlobsFetched;
                self.layer_count = n;
                Some(RunAction::CopyBinary)
            },
            (RunStage::BlobsFetched, StepOutcome::Done) => {
                if self.layer_count == 0 {
                    self.stage = RunStage::LayersExtracted;
                    Some(RunAction::ChangeRoot)
                } else {
                    self.stage = RunStage::BinaryCopied;
                    Some(RunAction::ExtractLayer(0))
                }
            },
            (RunStage::BinaryCopied, StepOutcome::Done) => {
                if self.extracted + 1 >= self.layer_count {
                    self.stage = RunStage::LayersExtracted;
                    self.extracted = self.layer_count;
                    Some(RunAction::ChangeRoot)
                } else {
                    self.extracted = self.extracted + 1;
                    Some(RunAction::ExtractLayer(self.extracted))
                }
            },
            (RunStage::LayersExtracted, StepOutcome::Done) => {
                self.stage = RunStage::RootChanged;
                Some(RunAction::UnsharePid)
            },
            (RunStage::RootChanged, StepOutcome::Done) => {
                self.stage = RunStage::NamespaceIsolated;
                Some(RunAction::Spawn)
            },
            (RunStage::NamespaceIsolated, StepOutcome::Done) => {
                self.stage = RunStage::ChildRunning;
                Some(RunAction::Wait)
            },
            (RunStage::ChildRunning, StepOutcome::Exited(code)) => {
                self.stage = RunStage::Terminated;
                self.status = exit_status(code);
                Some(RunAction::Exit(self.status))
            },
            _ => None,
        };
        match next {
            Some(a) => a,
            None => {
                let e = match o {
                    StepOutcome::Failed(e) => e,
                    _ => match self.stage {
                        RunStage::Unbuilt => RunError::Io,
                        RunStage::SandboxCreated => RunError::Manifest,
                        RunStage::BlobsFetched => RunError::Io,
                        RunStage::BinaryCopied => RunError::Extract,
                        RunStage::LayersExtracted => RunError::Isolation,
                        RunStage::RootChanged => RunError::Isolation,
                        _ => RunError::Spawn,
                    },
                };
                self.stage = RunStage::Aborted;
                self.error = Some(e);
                self.status = FAILURE_STATUS;
                RunAction::Exit(FAILURE_STATUS)
            },
        }
    }
}

} // verus!
