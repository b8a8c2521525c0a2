use stokepile::config::{FlysightConfig, GoproConfig, LocalBackupConfig, MassStorageConfig, MountableDeviceLocation};
use stokepile::device::{Device, DeviceDescription, StageSource};
use stokepile::flysight::{FlysightFile, ListedDir, ListedFile, MountedFlysight};
use stokepile::local_backup::MountedLocalBackup;
use stokepile::manual_file::{FoundEntry, ManualFile, ManualFileError};
use stokepile::mass_storage::{is_under_trash, map_files_with_extensions, MassStorageFile, MountedMassStorage, WalkEntry};
use stokepile::mountable::{device_for_label, ExternallyMounted, MountedFilesystem, Mounter, UdisksMounter};
use stokepile::ptp_device::{Gopro, GoproKind};
use stokepile::staging::{LocalDateTime, NaiveDate, RemotePathDescriptor, UploadDescriptor};

fn test_descriptor() -> UploadDescriptor {
    UploadDescriptor {
        path: RemotePathDescriptor::DateTime {
            capture_time: LocalDateTime { year: 2018, month: 8, day: 26, hour: 14, minute: 30, second: 0 },
            extension: "mp4".into(),
        },
        device_name: "test-device".into(),
        content_hash: [0; 32],
        size: 1024,
        uuid: 0,
        transforms: vec![],
    }
}

fn backup_at(path: &str) -> MountedLocalBackup {
    MountedLocalBackup::from_mounted_parts(
        LocalBackupConfig { location: MountableDeviceLocation::Mountpoint(path.into()) },
        MountedFilesystem::new_externally_mounted(path.into()),
    )
}

#[test]
fn test_containing_dir() {
    let backup_adaptor = backup_at("/test/directory");
    let manifest = test_descriptor();
    assert_eq!(backup_adaptor.containing_dir(&manifest), "/test/directory/stokepile/2018/08/26/test-device".to_string());
}

#[test]
fn test_local_path() {
    let backup_adaptor = backup_at("/test/directory");
    let manifest = test_descriptor();
    assert_eq!(
        backup_adaptor.local_path(&manifest),
        "/test/directory/stokepile/2018/08/26/test-device/14-30-00.mp4".to_string()
    );
}

#[test]
fn local_backup_compares_hashes() {
    let backup = backup_at("/test/directory");
    let mut manifest = test_descriptor();
    manifest.content_hash = [7; 32];
    assert!(backup.already_uploaded(&manifest, Some([7; 32])));
    assert!(!backup.already_uploaded(&manifest, Some([8; 32])));
    assert!(!backup.already_uploaded(&manifest, None));
    assert_eq!(backup.name(), "local backup".to_string());
}

#[test]
fn mounting_through_udisks() {
    assert_eq!(device_for_label("STAGING"), "/dev/disk/by-label/STAGING".to_string());
    let mounted = UdisksMounter::mount(
        "/dev/disk/by-label/STAGING",
        true,
        "Mounted /dev/sdb1 at /media/user/STAGING.\n",
        "",
    )
    .expect("mounted");
    assert_eq!(mounted.path(), "/media/user/STAGING");
    assert_eq!(mounted.device, "/dev/disk/by-label/STAGING".to_string());
    assert_eq!(mounted.mounter, Mounter::Udisks(UdisksMounter {}));
    assert_eq!(mounted.device_to_unmount(), Some("/dev/disk/by-label/STAGING".to_string()));
    let failed = UdisksMounter::mount("/dev/sdz", false, "", "Error looking up object").unwrap_err();
    assert_eq!(failed, "Failed to mount: Error looking up object".to_string());
    let unreadable = UdisksMounter::mount("/dev/sdz", true, "something else", "oops").unwrap_err();
    assert_eq!(unreadable, "Failed to mount: oops".to_string());
}

#[test]
fn externally_mounted_filesystems_stay_mounted() {
    let m = MountedFilesystem::new_externally_mounted("/mnt/card".into());
    assert_eq!(m.path(), "/mnt/card");
    assert_eq!(m.device, "".to_string());
    assert_eq!(m.mounter, Mounter::Externally(ExternallyMounted {}));
    assert_eq!(m.device_to_unmount(), None);
}

#[test]
fn attachment_by_location() {
    let label = MountableDeviceLocation::Label("CARD".into());
    assert_eq!(label.probe_path(), "/dev/disk/by-label/CARD".to_string());
    assert!(label.is_attached(true, 0));
    assert!(!label.is_attached(false, 3));
    let mount = MountableDeviceLocation::Mountpoint("/mnt/card".into());
    assert_eq!(mount.probe_path(), "/mnt/card".to_string());
    assert!(mount.is_attached(true, 2));
    assert!(!mount.is_attached(true, 0));
    assert!(!mount.is_attached(false, 2));
    assert_eq!(label.device_to_mount(), "/dev/disk/by-label/CARD".to_string());
}

fn listed_file(name: &str, dir: &str) -> ListedFile {
    ListedFile { name: name.into(), is_file: true, path: format!("/mnt/flysight/{}/{}", dir, name) }
}

fn flysight() -> MountedFlysight {
    MountedFlysight::from_mounted_parts(
        FlysightConfig { name: "data".into(), location: MountableDeviceLocation::Mountpoint("/mnt/flysight".into()) },
        MountedFilesystem::new_externally_mounted("/mnt/flysight".into()),
    )
}

#[test]
fn test_flysight_loads_files() {
    let listing = vec![
        ListedDir {
            name: "18-08-24".into(),
            is_dir: true,
            files: vec![listed_file("11-00-28.CSV", "18-08-24"), listed_file("09-55-30.CSV", "18-08-24"),
                listed_file("10-39-58.csv", "18-08-24"), listed_file("notes.txt", "18-08-24")],
        },
        ListedDir { name: "CONFIG".into(), is_dir: true, files: vec![listed_file("12-00-00.CSV", "CONFIG")] },
        ListedDir { name: "18-08-25".into(), is_dir: false, files: vec![] },
    ];
    let files = flysight().files(&listing).expect("Couldn't load test files");
    assert_eq!(files.len(), 3);
}

#[test]
fn test_flysight_parses_dates() {
    let listing = vec![ListedDir {
        name: "18-08-24".into(),
        is_dir: true,
        files: vec![listed_file("11-00-28.CSV", "18-08-24"), listed_file("09-55-30.CSV", "18-08-24"),
            listed_file("10-39-58.CSV", "18-08-24")],
    }];
    let files = flysight().files(&listing).expect("Couldn't load test files");
    let at = |hour, minute, second| LocalDateTime { year: 2018, month: 8, day: 24, hour, minute, second };
    assert_eq!(files[0].capture_datetime().unwrap(), at(9, 55, 30));
    assert_eq!(files[1].capture_datetime().unwrap(), at(10, 39, 58));
    assert_eq!(files[2].capture_datetime().unwrap(), at(11, 0, 28));
    assert_eq!(files[0].source_path, "/mnt/flysight/18-08-24/09-55-30.CSV".to_string());
    assert_eq!(files[0].extension(), "csv");
    assert_eq!(
        files[0].remote_path(),
        Some(RemotePathDescriptor::DateTime { capture_time: at(9, 55, 30), extension: "csv".into() })
    );
}

#[test]
fn flysight_logs_sort_by_date_then_time() {
    let listing = vec![
        ListedDir { name: "18-08-25".into(), is_dir: true, files: vec![listed_file("08-00-00.CSV", "18-08-25")] },
        ListedDir { name: "18-08-24".into(), is_dir: true, files: vec![listed_file("23-00-00.CSV", "18-08-24")] },
    ];
    let files = flysight().files(&listing).unwrap();
    assert_eq!(files[0].capturedate, "18-08-24".to_string());
    assert_eq!(files[0].capturetime, "23-00-00".to_string());
    assert_eq!(files[1].capturedate, "18-08-25".to_string());
}

#[test]
fn flysight_log_names_lose_their_extension() {
    let f = FlysightFile::new("18-08-24".into(), "09-55-30.CSV", "/x".into());
    assert_eq!(f.capturetime, "09-55-30".to_string());
    assert!(FlysightFile { capturedate: "bad".into(), capturetime: "time".into(), source_path: "/x".into() }
        .capture_datetime()
        .is_none());
}

#[test]
fn flysight_names_cut_inside_a_character_are_refused() {
    let listing = vec![ListedDir {
        name: "18-08-24".into(),
        is_dir: true,
        files: vec![listed_file("09-55-30.CSVé€", "18-08-24")],
    }];
    assert!(flysight().files(&listing).is_none());
    assert!(MountedFlysight::is_date_dir("18-08-24", true));
    assert!(!MountedFlysight::is_date_dir("18-08-24", false));
    assert!(!MountedFlysight::is_date_dir("CONFIG", true));
}

fn found(path: &str) -> WalkEntry {
    WalkEntry::Found { path: path.into(), is_dir: false }
}

#[test]
fn test_mass_storage_loads_files() {
    let entries = vec![
        WalkEntry::Found { path: "/mnt/card".into(), is_dir: true },
        found("/mnt/card/DCIM/GOPR0001.MP4"),
        found("/mnt/card/DCIM/GOPR0001.LRV"),
        found("/mnt/card/DCIM/GOPR0002.mp4"),
        found("/mnt/card/DCIM/._GOPR0002.mp4"),
        found("/mnt/card/.Trashes/501/old.mp4"),
        found("/mnt/card/README"),
        WalkEntry::Failed { failed_path: Some("/mnt/card/.Trashes".into()) },
    ];
    let extensions = vec!["mp4".to_string()];
    let files = map_files_with_extensions(&entries, &extensions);
    assert_eq!(files, vec!["/mnt/card/DCIM/GOPR0001.MP4".to_string(), "/mnt/card/DCIM/GOPR0002.mp4".to_string()]);
    let staged: Vec<MassStorageFile> = files
        .iter()
        .map(|p| MassStorageFile::from_path(p, LocalDateTime { year: 2019, month: 1, day: 2, hour: 3, minute: 4, second: 5 }))
        .collect();
    for file in &staged {
        assert_eq!(file.extension(), "mp4");
    }
    let mounted = MountedMassStorage::from_mounted_parts(
        MassStorageConfig {
            name: "data".into(),
            location: MountableDeviceLocation::Mountpoint("/mnt/card".into()),
            extensions: vec!["mp4".into()],
            cleanup_extensions: Some(vec!["lrv".into()]),
        },
        MountedFilesystem::new_externally_mounted("/mnt/card".into()),
    );
    assert_eq!(mounted.files_matching_extensions(&entries).len(), 2);
    assert_eq!(mounted.files_matching_cleanup_extensions(&entries), vec!["/mnt/card/DCIM/GOPR0001.LRV".to_string()]);
}

#[test]
fn trash_is_found_at_any_depth() {
    assert!(is_under_trash("/mnt/card/.Trashes"));
    assert!(is_under_trash("/mnt/card/.Trashes/501/a.mp4"));
    assert!(is_under_trash(".Trashes/a.mp4"));
    assert!(!is_under_trash("/mnt/card/Trashes/a.mp4"));
    assert!(!is_under_trash("/mnt/card/a.Trashes"));
}

#[test]
fn test_manualfile_path_interpretation() {
    let captured = LocalDateTime { year: 2019, month: 5, day: 6, hour: 7, minute: 8, second: 9 };
    let entries = vec![
        FoundEntry { path: "/tmp/event name/person/day".into(), is_file: false },
        FoundEntry { path: "/tmp/event name/person/day/video.ogv".into(), is_file: true },
        FoundEntry { path: "/tmp/event name/person/day/._video.ogv".into(), is_file: true },
    ];
    let candidates = ManualFile::candidates(&entries);
    assert_eq!(candidates, vec!["/tmp/event name/person/day/video.ogv".to_string()]);
    let mf = ManualFile::from_path(&candidates[0], captured).expect("Couldn't get a test file");
    let desc = mf.descriptor("event name", 22);
    assert_eq!(
        desc.path,
        RemotePathDescriptor::DateName {
            capture_date: NaiveDate { year: 2019, month: 5, day: 6 },
            name: "video".into(),
            extension: "ogv".into(),
        }
    );
    assert_eq!(desc.device_name, "event name".to_string());
    assert_eq!(desc.size, 22);
}

#[test]
fn manual_files_need_a_name_and_extension() {
    let t = LocalDateTime { year: 2019, month: 5, day: 6, hour: 7, minute: 8, second: 9 };
    assert_eq!(ManualFile::from_path("/", t).unwrap_err(), ManualFileError::NoFileName);
    assert_eq!(ManualFile::from_path("/tmp/README", t).unwrap_err(), ManualFileError::NoExtension);
    let mut mf = ManualFile::from_path("/tmp/clip.tar.gz", t).unwrap();
    assert_eq!(mf.name, "clip.tar".to_string());
    assert_eq!(mf.extension, "gz".to_string());
    mf.rename("renamed".into());
    assert_eq!(mf.name, "renamed".to_string());
}

#[test]
fn devices_say_how_they_are_staged() {
    let gopro = Device::Gopro(
        DeviceDescription { name: "front".into() },
        Gopro::new(GoproKind::Hero5Black, "C3131127500000".into()),
    );
    assert_eq!(gopro.name(), "front");
    assert_eq!(gopro.stage_files(), ("front".to_string(), StageSource::Ptp { serial: "C3131127500000".into() }));
    let card = Device::Flysight(
        DeviceDescription { name: "comp".into() },
        FlysightConfig { name: "comp".into(), location: MountableDeviceLocation::Label("COMP".into()) },
    );
    assert_eq!(
        card.stage_files(),
        ("comp".to_string(), StageSource::Mount { location: MountableDeviceLocation::Label("COMP".into()) })
    );
    let _ = GoproConfig { name: "front".into(), serial: "C3131127500000".into() };
}
