use stokepile::runner::{runner_step, staging_event, DeviceStaging, RunAction, RunEvent, StageEvent, StageFailure, StageStep};
use stokepile::hotplug::{AttachedDeviceState, DeviceStates};
use stokepile::reporting::{ReportEntry, UploadReport, UploadStatus};
use stokepile::staging::{RemotePathDescriptor, LocalDateTime, UploadDescriptor};
use stokepile::storage::{should_remove_staged, UploadAction, UploadEvent, UploadMachine, UploadPhase, MAX_RETRIES};

fn desc(device: &str) -> UploadDescriptor {
    UploadDescriptor {
        path: RemotePathDescriptor::DateTime {
            capture_time: LocalDateTime { year: 2018, month: 8, day: 26, hour: 14, minute: 30, second: 0 },
            extension: "mp4".into(),
        },
        device_name: device.into(),
        content_hash: [0; 32],
        size: 10,
        uuid: 0,
        transforms: vec![],
    }
}

/// Runs the machine for one backend that already has the file or not, with
/// attempts going as `outcomes` says.
fn run(already: bool, outcomes: &[bool]) -> (UploadStatus, usize) {
    let (mut m, mut action) = UploadMachine::begin(None);
    let mut attempts = 0;
    let mut next_outcome = outcomes.iter();
    loop {
        action = match action {
            UploadAction::CheckUploaded => m.step(UploadEvent::Uploaded(already)),
            UploadAction::Attempt(n) => {
                assert_eq!(n, attempts);
                attempts += 1;
                if *next_outcome.next().expect("more attempts than outcomes") {
                    m.step(UploadEvent::AttemptSucceeded)
                } else {
                    m.step(UploadEvent::AttemptFailed("Didn't upload successfully".into()))
                }
            },
            UploadAction::Finish(status) => return (status, attempts),
        };
    }
}

#[test]
fn test_temporarily_broken_uploader_actually_works() {
    assert_eq!(run(false, &[false, false, true]), (UploadStatus::Succeeded, 3));
}

#[test]
fn test_three_failures_leaves_staged_files() {
    let (status, attempts) = run(false, &[false, false, false, true]);
    assert_eq!(attempts, MAX_RETRIES);
    assert_eq!(status, UploadStatus::Errored("Didn't upload successfully".into()));
    let entry = ReportEntry::new(desc("cam"), vec![("dropbox".into(), status)]);
    assert!(!should_remove_staged(&entry));
}

#[test]
fn test_two_failures_and_then_success_erases_staged_files() {
    let (status, _) = run(false, &[false, false, true]);
    let entry = ReportEntry::new(desc("cam"), vec![("dropbox".into(), status)]);
    assert!(should_remove_staged(&entry));
}

#[test]
fn already_uploaded_files_are_not_sent_again() {
    assert_eq!(run(true, &[]), (UploadStatus::AlreadyUploaded, 0));
}

#[test]
fn backend_that_cannot_be_set_up_errors_at_once() {
    let (m, action) = UploadMachine::begin(Some("no token".into()));
    assert_eq!(m.phase, UploadPhase::Done);
    assert_eq!(action, UploadAction::Finish(UploadStatus::Errored("Failed to get adaptor: no token".into())));
}

#[test]
fn staged_copy_stays_unless_every_backend_holds_it() {
    let entry = ReportEntry::new(
        desc("cam"),
        vec![("dropbox".into(), UploadStatus::Succeeded), ("vimeo".into(), UploadStatus::Errored("x".into()))],
    );
    assert!(!entry.is_success());
    let entry = ReportEntry::new(
        desc("cam"),
        vec![("dropbox".into(), UploadStatus::AlreadyUploaded), ("vimeo".into(), UploadStatus::Succeeded)],
    );
    assert!(entry.is_success());
    assert!(ReportEntry::new(desc("cam"), vec![]).is_success());
}

#[test]
fn report_keeps_entries_per_device_in_order() {
    let mut report = UploadReport::new();
    report.record_activity(ReportEntry::new(desc("front"), vec![]));
    report.record_activity(ReportEntry::new(desc("back"), vec![]));
    let mut second = desc("front");
    second.size = 20;
    report.record_activity(ReportEntry::new(second, vec![]));
    let files = report.files();
    assert_eq!(files.len(), 2);
    assert_eq!(files[0].0, "front".to_string());
    assert_eq!(files[0].1.len(), 2);
    assert_eq!(files[0].1[0].desc.size, 10);
    assert_eq!(files[0].1[1].desc.size, 20);
    assert_eq!(files[1].0, "back".to_string());
    assert_eq!(files[1].1.len(), 1);
}

#[test]
fn devices_are_tracked_across_polls() {
    let mut states = DeviceStates::new();
    let a = "gopro-front".to_string();
    let b = "flysight".to_string();
    states.poll(&vec![a.clone()]);
    assert_eq!(states.state(&a), Some(AttachedDeviceState::Connected));
    assert_eq!(states.state(&b), None);
    let started = states.dispatch();
    assert_eq!(started, vec![a.clone()]);
    assert_eq!(states.state(&a), Some(AttachedDeviceState::Processing));
    assert!(states.dispatch().is_empty());
    states.poll(&vec![a.clone(), b.clone()]);
    assert_eq!(states.state(&a), Some(AttachedDeviceState::Processing));
    assert_eq!(states.state(&b), Some(AttachedDeviceState::Connected));
    states.finish(&a);
    assert_eq!(states.state(&a), Some(AttachedDeviceState::Complete));
    states.poll(&vec![b.clone()]);
    assert_eq!(states.state(&a), Some(AttachedDeviceState::Disconnected));
    states.poll(&vec![a.clone(), b.clone(), b.clone()]);
    assert_eq!(states.state(&a), Some(AttachedDeviceState::Disconnected));
    assert_eq!(states.state(&b), Some(AttachedDeviceState::Connected));
    states.finish(&"unknown".to_string());
    assert_eq!(states.state(&"unknown".to_string()), None);
}

#[test]
fn runner_notifies_only_when_files_were_staged() {
    let acts = runner_step(false, RunEvent::Staged { device: "front".into(), num_files: 3 });
    assert_eq!(acts, vec![RunAction::Notify("Finished staging: front".into()), RunAction::NextDevice]);
    let acts = runner_step(false, RunEvent::Staged { device: "front".into(), num_files: 0 });
    assert_eq!(acts, vec![RunAction::NextDevice]);
}

#[test]
fn runner_stops_staging_when_the_staging_area_is_full() {
    let acts = runner_step(false, RunEvent::StagingFull { device: "card".into() });
    assert_eq!(
        acts,
        vec![
            RunAction::NotifyAndStopStaging("Partially staged card, device will need a second run".into()),
            RunAction::Upload,
        ]
    );
    let acts = runner_step(true, RunEvent::StagingFull { device: "card".into() });
    assert_eq!(acts[1], RunAction::SkipUpload);
}

#[test]
fn runner_uploads_unless_only_staging() {
    assert_eq!(runner_step(false, RunEvent::StagingDone), vec![RunAction::Upload]);
    assert_eq!(runner_step(true, RunEvent::StagingDone), vec![RunAction::SkipUpload]);
    assert_eq!(runner_step(true, RunEvent::StageFailed("no card".into())), vec![RunAction::Fail("no card".into())]);
}

#[test]
fn runner_reports_uploads_only_when_there_were_some() {
    assert_eq!(
        runner_step(false, RunEvent::Uploaded { num_uploads: 2 }),
        vec![RunAction::Notify("Finished uploading media".into()), RunAction::MailReport]
    );
    assert!(runner_step(false, RunEvent::Uploaded { num_uploads: 0 }).is_empty());
}

#[test]
fn staging_outcomes_become_runner_events() {
    assert_eq!(staging_event("gps", Ok(4)), RunEvent::Staged { device: "gps".into(), num_files: 4 });
    let full = StageFailure { message: "no space".into(), staging_full: true };
    assert_eq!(staging_event("gps", Err(full)), RunEvent::StagingFull { device: "gps".into() });
    let broken = StageFailure { message: "unreadable".into(), staging_full: false };
    assert_eq!(staging_event("gps", Err(broken)), RunEvent::StageFailed("unreadable".into()));
}

#[test]
fn staging_a_device_counts_its_files() {
    let (mut m, step) = DeviceStaging::begin(2);
    assert_eq!(step, StageStep::StageFile(0));
    assert_eq!(m.step(StageEvent::FileStaged), StageStep::StageFile(1));
    assert_eq!(m.step(StageEvent::FileStaged), StageStep::Cleanup);
    assert_eq!(m.step(StageEvent::CleanedUp), StageStep::Done(Ok(2)));

    let (mut m, step) = DeviceStaging::begin(0);
    assert_eq!(step, StageStep::Cleanup);
    assert_eq!(m.step(StageEvent::CleanedUp), StageStep::Done(Ok(0)));

    let (mut m, _) = DeviceStaging::begin(3);
    let full = StageFailure { message: "no space".into(), staging_full: true };
    assert_eq!(
        m.step(StageEvent::Failed(StageFailure { message: "no space".into(), staging_full: true })),
        StageStep::Done(Err(full))
    );
}
