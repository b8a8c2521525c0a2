//! The decisions of a run: staging each attached device in turn, counting
//! what it staged, and what follows each outcome (notices, stopping when the
//! staging area is full, uploading or not, mailing the report). The copying,
//! uploading and sending happen outside this library; the run is told how
//! each went.

use vstd::prelude::*;

use crate::text::push_str;

verus! {

/// Why staging a device stopped early.
#[derive(Debug, PartialEq, Eq)]
pub struct StageFailure {
    /// What went wrong.
    pub message: String,
    /// Whether the copy was interrupted because the staging area is full.
    pub staging_full: bool,
}

/// Where the staging of one device stands.
#[derive(Debug, PartialEq, Eq)]
pub enum StagePhase {
    /// Staging the files; `staged` of `total` are done.
    Staging { staged: usize, total: usize },
    /// Every file is staged; the device is being cleaned up.
    Cleaning { staged: usize },
    /// Finished.
    Done,
}

/// What to do next while staging a device.
#[derive(Debug, PartialEq, Eq)]
pub enum StageStep {
    /// Stage the file with this index in the device's listing.
    StageFile(usize),
    /// Clean up the device (remove what its kind leaves behind).
    Cleanup,
    /// Stop: the number of files staged, or why staging failed.
    Done(Result<usize, StageFailure>),
}

/// What happened since the last step.
#[derive(Debug, PartialEq, Eq)]
pub enum StageEvent {
    /// The file asked for was staged.
    FileStaged,
    /// The device was cleaned up.
    CleanedUp,
    /// The last step failed.
    Failed(StageFailure),
}

/// Whether `event` answers the step the staging in `phase` asked for.
pub open spec fn stage_expects(phase: StagePhase, event: StageEvent) -> bool {
    match phase {
        StagePhase::Staging { .. } => event is FileStaged || event is Failed,
        StagePhase::Cleaning { .. } => event is CleanedUp || event is Failed,
        StagePhase::Done => false,
    }
}

/// The phase and step that follow `event` in `phase`.
pub open spec fn stage_next(phase: StagePhase, event: StageEvent) -> (StagePhase, StageStep) {
    match (phase, event) {
        (StagePhase::Staging { staged, total }, StageEvent::FileStaged) => if staged + 1 < total {
            (StagePhase::Staging { staged: (staged + 1) as usize, total }, StageStep::StageFile((staged + 1) as usize))
        } else {
            (StagePhase::Cleaning { staged: (staged + 1) as usize }, StageStep::Cleanup)
        },
        (StagePhase::Cleaning { staged }, StageEvent::CleanedUp) => (StagePhase::Done, StageStep::Done(Ok(staged))),
        (_, StageEvent::Failed(f)) => (StagePhase::Done, StageStep::Done(Err(f))),
        _ => (phase, StageStep::Cleanup),
    }
}

/// The staging of one device: each listed file in order, then the cleanup.
#[derive(Debug)]
pub struct DeviceStaging {
    pub phase: StagePhase,
}

/// The phase a staging of `total` files starts in, and its first step.
pub open spec fn stage_start(total: usize) -> (StagePhase, StageStep) {
    if total > 0 {
        (StagePhase::Staging { staged: 0, total }, StageStep::StageFile(0))
    } else {
        (StagePhase::Cleaning { staged: 0 }, StageStep::Cleanup)
    }
}

/// Whether a phase's counts are in range.
pub open spec fn stage_phase_ok(phase: StagePhase) -> bool {
    phase matches StagePhase::Staging { staged, total } ==> staged < total
}

impl DeviceStaging {
    /// Begins staging a device that listed `total` files.
    pub fn begin(total: usize) -> (r: (DeviceStaging, StageStep))
        ensures
            (r.0.phase, r.1) == stage_start(total),
            stage_phase_ok(r.0.phase),
    {
        if total > 0 {
            (DeviceStaging { phase: StagePhase::Staging { staged: 0, total } }, StageStep::StageFile(0))
        } else {
            (DeviceStaging { phase: StagePhase::Cleaning { staged: 0 } }, StageStep::Cleanup)
        }
    }

    /// Takes the outcome of the last step and says what to do next.
    pub fn step(&mut self, event: StageEvent) -> (a: StageStep)
        requires
            stage_expects(old(self).phase, event),
            stage_phase_ok(old(self).phase),
        ensures
            (final(self).phase, a) == stage_next(old(self).phase, event),
            stage_phase_ok(final(self).phase),
    {
        match (&self.phase, event) {
            (StagePhase::Staging { staged, total }, StageEvent::FileStaged) => {
                let (s, t) = (*staged, *total);
                if s + 1 < t {
                    self.phase = StagePhase::Staging { staged: s + 1, total: t };
                    StageStep::StageFile(s + 1)
                } else {
                    self.phase = StagePhase::Cleaning { staged: s + 1 };
                    StageStep::Cleanup
                }
            },
            (StagePhase::Cleaning { staged }, StageEvent::CleanedUp) => {
                let s = *staged;
                self.phase = StagePhase::Done;
                StageStep::Done(Ok(s))
            },
            (_, StageEvent::Failed(f)) => {
                self.phase = StagePhase::Done;
                StageStep::Done(Err(f))
            },
            _ => {
                proof {
                    assert(false);
                }
                StageStep::Cleanup
            },
        }
    }
}

/// Runs a staging from `phase` through `k` files staged in a row, then the
/// cleanup succeeding.
pub open spec fn run_staging(phase: StagePhase, k: nat) -> (StagePhase, StageStep)
    decreases k,
{
    if k == 0 {
        stage_next(phase, StageEvent::CleanedUp)
    } else {
        run_staging(stage_next(phase, StageEvent::FileStaged).0, (k - 1) as nat)
    }
}

/// When every listed file is staged and the cleanup succeeds, staging a
/// device reports exactly the number of files it listed: it asks for each
/// file in order, once.
pub proof fn law_staging_counts_files(total: usize)
    ensures
        run_staging(stage_start(total).0, total as nat) == (StagePhase::Done, StageStep::Done(Ok(total))),
{
    if total > 0 {
        lemma_staging_from(0, total);
    }
}

proof fn lemma_staging_from(staged: usize, total: usize)
    requires
        staged < total,
    ensures
        run_staging(StagePhase::Staging { staged, total }, (total - staged) as nat) == (
            StagePhase::Done,
            StageStep::Done(Ok(total)),
        ),
    decreases total - staged,
{
    let next = stage_next(StagePhase::Staging { staged, total }, StageEvent::FileStaged).0;
    if staged + 1 < total {
        lemma_staging_from((staged + 1) as usize, total);
        assert(next == StagePhase::Staging { staged: (staged + 1) as usize, total });
    } else {
        assert(next == StagePhase::Cleaning { staged: total });
        assert(run_staging(next, 0) == (StagePhase::Done, StageStep::Done(Ok(total))));
    }
}

/// What the runner is told after each piece of its work.
#[derive(Debug, PartialEq, Eq)]
pub enum RunEvent {
    /// The device named `device` was staged, `num_files` files from it.
    Staged { device: String, num_files: u64 },
    /// Staging the device named `device` stopped because the staging area is
    /// full.
    StagingFull { device: String },
    /// Staging a device failed, for this reason.
    StageFailed(String),
    /// Every attached device was staged.
    StagingDone,
    /// The upload run finished, `num_uploads` files uploaded.
    Uploaded { num_uploads: u64 },
}

/// What the runner does next, in order.
#[derive(Debug, PartialEq, Eq)]
pub enum RunAction {
    /// Send this notification.
    Notify(String),
    /// Go on with the next attached device.
    NextDevice,
    /// Send this notification and stage no further devices.
    NotifyAndStopStaging(String),
    /// Upload what is staged.
    Upload,
    /// Stop without uploading.
    SkipUpload,
    /// Mail the report of the upload run.
    MailReport,
    /// Stop the run with this error.
    Fail(String),
}

/// Whether to upload once staging is over.
pub open spec fn upload_choice(stage_only: bool) -> RunAction {
    if stage_only {
        RunAction::SkipUpload
    } else {
        RunAction::Upload
    }
}

/// What the runner does after `event`, when `stage_only` says whether the run
/// only stages:
/// - a staged device: the notice "Finished staging: DEVICE" when files were
///   staged, then on to the next device;
/// - a full staging area: the notice "Partially staged DEVICE, device will
///   need a second run", no further staging, then the upload or not;
/// - a failed staging: the run fails with that error;
/// - staging over: the upload, or none when only staging;
/// - an upload run: the notice "Finished uploading media" and the mailed
///   report when anything was uploaded, nothing otherwise.
pub fn runner_step(stage_only: bool, event: RunEvent) -> (a: Vec<RunAction>)
    ensures
        match event {
            RunEvent::Staged { device, num_files } => if num_files > 0 {
                &&& a@.len() == 2
                &&& a@[0] matches RunAction::Notify(m) && m@ == "Finished staging: "@ + device@
                &&& a@[1] == RunAction::NextDevice
            } else {
                a@ == seq![RunAction::NextDevice]
            },
            RunEvent::StagingFull { device } => {
                &&& a@.len() == 2
                &&& a@[0] matches RunAction::NotifyAndStopStaging(m) && m@ == "Partially staged "@ + device@
                    + ", device will need a second run"@
                &&& a@[1] == upload_choice(stage_only)
            },
            RunEvent::StageFailed(e) => a@.len() == 1 && (a@[0] matches RunAction::Fail(m) && m@ == e@),
            RunEvent::StagingDone => a@ == seq![upload_choice(stage_only)],
            RunEvent::Uploaded { num_uploads } => if num_uploads > 0 {
                &&& a@.len() == 2
                &&& a@[0] matches RunAction::Notify(m) && m@ == "Finished uploading media"@
                &&& a@[1] == RunAction::MailReport
            } else {
                a@.len() == 0
            },
        },
{
    let mut a: Vec<RunAction> = Vec::new();
    let upload = if stage_only {
        RunAction::SkipUpload
    } else {
        RunAction::Upload
    };
    match event {
        RunEvent::Staged { device, num_files } => {
            if num_files > 0 {
                let mut m = String::new();
                push_str(&mut m, "Finished staging: ");
                push_str(&mut m, device.as_str());
                a.push(RunAction::Notify(m));
            }
            a.push(RunAction::NextDevice);
        },
        RunEvent::StagingFull { device } => {
            let mut m = String::new();
            push_str(&mut m, "Partially staged ");
            push_str(&mut m, device.as_str());
            push_str(&mut m, ", device will need a second run");
            a.push(RunAction::NotifyAndStopStaging(m));
            a.push(upload);
        },
        RunEvent::StageFailed(e) => {
            a.push(RunAction::Fail(e));
        },
        RunEvent::StagingDone => {
            a.push(upload);
        },
        RunEvent::Uploaded { num_uploads } => {
            if num_uploads > 0 {
                let mut m = String::new();
                push_str(&mut m, "Finished uploading media");
                a.push(RunAction::Notify(m));
                a.push(RunAction::MailReport);
            }
        },
    }
    a
}

/// What the runner is told after staging a device named `device`, given how
/// its staging ended: the count of files staged, a full staging area, or the
/// failure.
pub fn staging_event(device: &str, outcome: Result<usize, StageFailure>) -> (e: RunEvent)
    ensures
        match outcome {
            Ok(n) => e matches RunEvent::Staged { device: d, num_files } && d@ == device@ && num_files == n,
            Err(f) => if f.staging_full {
                e matches RunEvent::StagingFull { device: d } && d@ == device@
            } else {
                e == RunEvent::StageFailed(f.message)
            },
        },
{
    match outcome {
        Ok(n) => RunEvent::Staged { device: device.to_owned(), num_files: n as u64 },
        Err(f) => if f.staging_full {
            RunEvent::StagingFull { device: device.to_owned() }
        } else {
            RunEvent::StageFailed(f.message)
        },
    }
}

} // verus!
