//! The decisions of an upload run. For each staged file and each backend the
//! upload proceeds as a small machine: give up when the backend could not be
//! set up, skip when the file is already there, otherwise try up to
//! `MAX_RETRIES` times. A staged file is removed only when every backend holds
//! it afterwards. The transfers themselves happen outside this library; the
//! machine is told how each went.

use vstd::prelude::*;

use crate::reporting::{all_ok, ReportEntry, UploadStatus};
use crate::text::push_str;

verus! {

/// How many times an upload to one backend is attempted.
pub const MAX_RETRIES: usize = 3;

/// What a backend reports of one upload attempt that did not fail outright.
#[derive(Debug, PartialEq, Eq)]
pub enum StorageStatus {
    Success,
    Failure,
}

/// Where the upload of a file to one backend stands.
#[derive(Debug, PartialEq, Eq)]
pub enum UploadPhase {
    /// Waiting to learn whether the backend already has the file.
    Checking,
    /// Uploading; `failures` attempts have failed so far.
    Uploading { failures: usize },
    /// Finished.
    Done,
}

/// What to do next for the upload of a file to one backend.
#[derive(Debug, PartialEq, Eq)]
pub enum UploadAction {
    /// Ask the backend whether it already holds the file.
    CheckUploaded,
    /// Make the attempt with this number (counting from zero).
    Attempt(usize),
    /// Stop, with this outcome.
    Finish(UploadStatus),
}

/// What happened since the last action.
#[derive(Debug, PartialEq, Eq)]
pub enum UploadEvent {
    /// The backend's answer: whether it already holds the file.
    Uploaded(bool),
    /// The attempt succeeded.
    AttemptSucceeded,
    /// The attempt failed, for this reason.
    AttemptFailed(String),
}

/// Whether `event` answers the action the machine in `phase` asked for.
pub open spec fn expects(phase: UploadPhase, event: UploadEvent) -> bool {
    match phase {
        UploadPhase::Checking => event is Uploaded,
        UploadPhase::Uploading { .. } => event is AttemptSucceeded || event is AttemptFailed,
        UploadPhase::Done => false,
    }
}

/// The phase and action that follow `event` in `phase`.
pub open spec fn next(phase: UploadPhase, event: UploadEvent) -> (UploadPhase, UploadAction) {
    match (phase, event) {
        (UploadPhase::Checking, UploadEvent::Uploaded(true)) => (UploadPhase::Done, UploadAction::Finish(UploadStatus::AlreadyUploaded)),
        (UploadPhase::Checking, UploadEvent::Uploaded(false)) => (UploadPhase::Uploading { failures: 0 }, UploadAction::Attempt(0)),
        (UploadPhase::Uploading { .. }, UploadEvent::AttemptSucceeded) => (UploadPhase::Done, UploadAction::Finish(UploadStatus::Succeeded)),
        (UploadPhase::Uploading { failures }, UploadEvent::AttemptFailed(e)) => if failures + 1 >= MAX_RETRIES {
            (UploadPhase::Done, UploadAction::Finish(UploadStatus::Errored(e)))
        } else {
            (UploadPhase::Uploading { failures: (failures + 1) as usize }, UploadAction::Attempt((failures + 1) as usize))
        },
        _ => (phase, UploadAction::Finish(UploadStatus::Errored(arbitrary()))),
    }
}

/// The upload of one file to one backend.
#[derive(Debug)]
pub struct UploadMachine {
    pub phase: UploadPhase,
}

impl UploadMachine {
    /// Begins the upload of a file to a backend. When the backend could not be
    /// set up (`setup_error` holds why), the upload is over at once, errored;
    /// otherwise the first step is to ask whether the file is already there.
    pub fn begin(setup_error: Option<String>) -> (r: (UploadMachine, UploadAction))
        ensures
            match setup_error {
                Some(e) => r.0.phase == UploadPhase::Done && r.1 is Finish && (match r.1 {
                    UploadAction::Finish(UploadStatus::Errored(m)) => m@ == "Failed to get adaptor: "@ + e@,
                    _ => false,
                }),
                None => r.0.phase == UploadPhase::Checking && r.1 == UploadAction::CheckUploaded,
            },
    {
        match setup_error {
            Some(e) => {
                let mut m = String::new();
                push_str(&mut m, "Failed to get adaptor: ");
                push_str(&mut m, e.as_str());
                (UploadMachine { phase: UploadPhase::Done }, UploadAction::Finish(UploadStatus::Errored(m)))
            },
            None => (UploadMachine { phase: UploadPhase::Checking }, UploadAction::CheckUploaded),
        }
    }

    /// Takes the outcome of the last action and says what to do next.
    pub fn step(&mut self, event: UploadEvent) -> (a: UploadAction)
        requires
            expects(old(self).phase, event),
            old(self).phase matches UploadPhase::Uploading { failures } ==> failures < MAX_RETRIES,
        ensures
            (final(self).phase, a) == next(old(self).phase, event),
            final(self).phase matches UploadPhase::Uploading { failures } ==> failures < MAX_RETRIES,
    {
        match (&self.phase, event) {
            (UploadPhase::Checking, UploadEvent::Uploaded(true)) => {
                self.phase = UploadPhase::Done;
                UploadAction::Finish(UploadStatus::AlreadyUploaded)
            },
            (UploadPhase::Checking, UploadEvent::Uploaded(false)) => {
                self.phase = UploadPhase::Uploading { failures: 0 };
                UploadAction::Attempt(0)
            },
            (UploadPhase::Uploading { .. }, UploadEvent::AttemptSucceeded) => {
                self.phase = UploadPhase::Done;
                UploadAction::Finish(UploadStatus::Succeeded)
            },
            (UploadPhase::Uploading { failures }, UploadEvent::AttemptFailed(e)) => {
                let f = *failures;
                if f + 1 >= MAX_RETRIES {
                    self.phase = UploadPhase::Done;
                    UploadAction::Finish(UploadStatus::Errored(e))
                } else {
                    self.phase = UploadPhase::Uploading { failures: f + 1 };
                    UploadAction::Attempt(f + 1)
                }
            },
            _ => {
                proof {
                    assert(false);
                }
                UploadAction::CheckUploaded
            },
        }
    }
}

/// Whether the staged copy of a file may be removed after a run: only when
/// every backend reports it safely upstream.
pub fn should_remove_staged(entry: &ReportEntry) -> (r: bool)
    ensures
        r == all_ok(entry.results@),
{
    entry.is_success()
}

/// The outcome of uploading to a backend that is not set up to already hold
/// the file, when attempts go as `outcomes` says (true for success): the
/// attempts stop at the first success, and at most `MAX_RETRIES` are made.
pub open spec fn attempts_succeed(outcomes: Seq<bool>) -> bool {
    exists|i: int| 0 <= i < MAX_RETRIES && i < outcomes.len() && #[trigger] outcomes[i]
}

/// Runs the machine from `phase` on attempt outcomes `outcomes`, an error
/// message standing for each failure.
pub open spec fn run_attempts(phase: UploadPhase, outcomes: Seq<bool>, msg: String) -> (UploadPhase, UploadAction)
    decreases outcomes.len(),
{
    if outcomes.len() == 0 {
        (phase, UploadAction::CheckUploaded)
    } else {
        let ev = if outcomes[0] { UploadEvent::AttemptSucceeded } else { UploadEvent::AttemptFailed(msg) };
        let (p, a) = next(phase, ev);
        if p == UploadPhase::Done {
            (p, a)
        } else {
            run_attempts(p, outcomes.drop_first(), msg)
        }
    }
}

/// Once uploading has begun, the machine finishes with `Succeeded` exactly
/// when one of the first `MAX_RETRIES` attempts succeeds, and with an error
/// when the first `MAX_RETRIES` all fail; it never asks for more than
/// `MAX_RETRIES` attempts.
pub proof fn law_retries(outcomes: Seq<bool>, msg: String)
    requires
        outcomes.len() >= MAX_RETRIES,
    ensures
        run_attempts(UploadPhase::Uploading { failures: 0 }, outcomes, msg).0 == UploadPhase::Done,
        run_attempts(UploadPhase::Uploading { failures: 0 }, outcomes, msg).1 == (if attempts_succeed(outcomes) {
            UploadAction::Finish(UploadStatus::Succeeded)
        } else {
            UploadAction::Finish(UploadStatus::Errored(msg))
        }),
{
    lemma_run_from(0, outcomes, msg);
}

proof fn lemma_run_from(f: usize, outcomes: Seq<bool>, msg: String)
    requires
        f < MAX_RETRIES,
        outcomes.len() >= MAX_RETRIES - f,
    ensures
        run_attempts(UploadPhase::Uploading { failures: f }, outcomes, msg).0 == UploadPhase::Done,
        run_attempts(UploadPhase::Uploading { failures: f }, outcomes, msg).1 == (if (exists|i: int| 0 <= i < MAX_RETRIES - f && i < outcomes.len() && #[trigger] outcomes[i]) {
            UploadAction::Finish(UploadStatus::Succeeded)
        } else {
            UploadAction::Finish(UploadStatus::Errored(msg))
        }),
    decreases MAX_RETRIES - f,
{
    if outcomes[0] {
        assert(outcomes[0]);
    } else if f + 1 >= MAX_RETRIES {
        assert forall|i: int| 0 <= i < MAX_RETRIES - f && i < outcomes.len() implies !#[trigger] outcomes[i] by {
            assert(i == 0);
        }
    } else {
        let rest = outcomes.drop_first();
        lemma_run_from((f + 1) as usize, rest, msg);
        if exists|i: int| 0 <= i < MAX_RETRIES - (f + 1) && i < rest.len() && #[trigger] rest[i] {
            let i = choose|i: int| 0 <= i < MAX_RETRIES - (f + 1) && i < rest.len() && #[trigger] rest[i];
            assert(outcomes[i + 1]);
        }
        if exists|i: int| 0 <= i < MAX_RETRIES - f && i < outcomes.len() && #[trigger] outcomes[i] {
            let i = choose|i: int| 0 <= i < MAX_RETRIES - f && i < outcomes.len() && #[trigger] outcomes[i];
            assert(i != 0);
            assert(rest[i - 1]);
        }
    }
}

} // verus!
