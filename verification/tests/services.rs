use sha2::Digest;
use stokepile::content_hasher::{DropboxContentHasher, BLOCK_SIZE};
use stokepile::stager::{manifest_name, staging_name, uuid_text};
use stokepile::client::{check_status, login_result, notification_result, ArchiverClient, ClientError, ClientSetupError};
use stokepile::config::AccessToken;
use stokepile::dropbox::{content_type, same_hash, Cursor, DropboxFilesClient, MetadataResponse};
use stokepile::dummy_libusb::{Context, Descriptor, Device};
use stokepile::dummy_ptp::PtpCamera;
use stokepile::messages::{JsonSignInResp, SendNotificationResp};
use stokepile::metadata_extractor::Metadata;
use stokepile::ptp_device::{
    gopro_kind_for, is_gopro_vendor, parse_gopro_date, Gopro, GoproConnection, GoproFile, GoproKind, GoproObjectFormat,
    ObjectInfo,
};
use stokepile::pushover::{Priority, Pushover};
use stokepile::stager::{descriptor_for, record_staged, MountedStaging, Stager, StagedPaths, StagingDevice};
use stokepile::staging::{
    path_with_transform, LocalDateTime, MediaTransform, RemotePathDescriptor, StagedFile, TrimDetail, UploadDescriptor,
};
use stokepile::config::{MountableDeviceLocation, StagingConfig};
use stokepile::mountable::MountedFilesystem;
use stokepile::trimmer::FFMpegTrimmer;
use stokepile::version::VERSION;
use stokepile::vimeo::VimeoClient;
use stokepile::web_devices::DeviceKind;

#[test]
fn test_parses_gopro_date_correctly() {
    assert_eq!(
        parse_gopro_date("20150101T000649"),
        Some(LocalDateTime { year: 2015, month: 1, day: 1, hour: 0, minute: 6, second: 49 })
    );
    assert_eq!(parse_gopro_date("2015-01-01"), None);
}

#[test]
fn gopro_objects_and_models() {
    assert_eq!(GoproObjectFormat::from_u16(0x300d), Some(GoproObjectFormat::Video));
    assert_eq!(GoproObjectFormat::from_u16(0x1234), None);
    assert_eq!(GoproObjectFormat::Directory.code(), 0x3001);
    assert_eq!(GoproKind::from_u16(0x000d), Some(GoproKind::Hero4Silver));
    assert_eq!(GoproKind::from_u16(0x0999), Some(GoproKind::UnknownGopro(0x0999)));
    assert!(is_gopro_vendor(0x2672));
    assert!(!is_gopro_vendor(0x1234));
    assert_eq!(gopro_kind_for("GoPro", 0x000e), Some(GoproKind::Hero4Black));
    assert_eq!(gopro_kind_for("Sony", 0x000e), None);
    let mut f = GoproFile::from_object(
        7,
        ObjectInfo { CaptureDate: "20150101T000649".into(), ObjectCompressedSize: 100, ObjectFormat: 0x300d },
    );
    assert_eq!(f.extension(), "mp4");
    assert_eq!(f.size(), 100);
    assert_eq!(f.chunk_len(64), 64);
    f.advance(64);
    assert_eq!(f.chunk_len(64), 36);
    assert_eq!(f.capture_datetime().unwrap().second, 49);
}

#[test]
fn dropbox_requests() {
    let client = DropboxFilesClient::new("TOKEN".into());
    assert_eq!(client.user_agent, format!("archiver/{}", VERSION));
    assert_eq!(client.bearer_token(), "Bearer TOKEN".to_string());
    assert_eq!(
        DropboxFilesClient::url("content", "2/files/upload_session/start"),
        "https://content.dropboxapi.com/2/files/upload_session/start".to_string()
    );
    assert_eq!(client.name(), "dropbox");
    assert_eq!(content_type(true), "application/json");
    assert_eq!(content_type(false), "application/octet-stream");
    let mut cursor = Cursor::start("session".into());
    cursor.advance(4096);
    cursor.advance(10);
    assert_eq!(cursor.offset, 4106);
}

fn metadata(hash: [u8; 32]) -> MetadataResponse {
    MetadataResponse {
        tag: "file".into(),
        name: "GOPR0001.MP4".into(),
        id: "id:1".into(),
        client_modified: "".into(),
        server_modified: "".into(),
        rev: "1".into(),
        size: 10,
        path_lower: "/15-01-01/rearcam/gopr0001.mp4".into(),
        path_display: "/15-01-01/rearcam/GOPR0001.MP4".into(),
        content_hash: hash,
    }
}

#[test]
fn dropbox_content_hashes() {
    let hex = "00ff10a0000000000000000000000000000000000000000000000000000000Ab";
    let hash = MetadataResponse::hash_from_hex(hex).expect("hex hash");
    assert_eq!(hash[0], 0x00);
    assert_eq!(hash[1], 0xff);
    assert_eq!(hash[2], 0x10);
    assert_eq!(hash[3], 0xa0);
    assert_eq!(hash[31], 0xab);
    assert!(MetadataResponse::hash_from_hex("00ff").is_err());
    assert!(MetadataResponse::hash_from_hex(&"zz".repeat(32)).is_err());
    assert!(DropboxFilesClient::already_uploaded(&Some(metadata(hash)), &hash));
    assert!(!DropboxFilesClient::already_uploaded(&Some(metadata([0; 32])), &hash));
    assert!(!DropboxFilesClient::already_uploaded(&None, &hash));
    assert!(same_hash(&hash, &hash));
    assert_eq!(metadata(hash).content_hash(), &hash);
}

#[test]
fn test_serialized_priorities_dtrt() {
    assert_eq!(Priority::HighPriority.value(), 1);
    assert_eq!(Priority::NoNotification.value(), -2);
    assert_eq!(Priority::QuietNotification.value(), -1);
    assert_eq!(Priority::RequireConfirmation.value(), 2);
}

#[test]
fn pushover_requests() {
    let p = Pushover::new("redacted".into());
    let r = p
        .request("user".into(), "hi there".into())
        .title("t".into())
        .url("https://example.org".into())
        .url_title("link".into())
        .priority(Priority::HighPriority);
    assert_eq!(r.token, "redacted".to_string());
    assert_eq!(r.user, "user".to_string());
    assert_eq!(r.message, "hi there".to_string());
    assert_eq!(r.title, Some("t".to_string()));
    assert_eq!(r.url, Some("https://example.org".to_string()));
    assert_eq!(r.url_title, Some("link".to_string()));
    assert_eq!(r.priority, Some(Priority::HighPriority));
}

#[test]
fn web_service_answers() {
    assert_eq!(check_status(500, "boom".into()), Err(ClientError::ServerError("boom".into())));
    assert_eq!(check_status(200, "ok".into()), Ok("ok".to_string()));
    assert_eq!(login_result(JsonSignInResp::Token("t".into())), Ok("t".to_string()));
    assert_eq!(login_result(JsonSignInResp::Error("no".into())), Err(ClientError::InvalidLogin));
    assert_eq!(JsonSignInResp::Error("no".into()).into_result(), Err("\"no\"".to_string()));
    assert_eq!(JsonSignInResp::Token("t".into()).into_result(), Ok("t".to_string()));
    assert_eq!(notification_result(SendNotificationResp::Sent), Ok(()));
    assert_eq!(notification_result(SendNotificationResp::NotConfigured), Ok(()));
    assert_eq!(notification_result(SendNotificationResp::Error("e".into())), Err("\"e\"".to_string()));
    assert_eq!(VimeoClient::new("v".into()).authorization(), "bearer v".to_string());
    assert_eq!(VimeoClient::create_upload_body(1024), "{\"upload\":{\"approach\":\"tus\",\"size\":1024}}".to_string());
}

#[test]
fn device_kinds_by_name() {
    assert_eq!(DeviceKind::from_name("ptp"), Some(DeviceKind::Ptp));
    assert_eq!(DeviceKind::from_name("flysight"), Some(DeviceKind::Flysight));
    assert_eq!(DeviceKind::from_name("mass_storage"), Some(DeviceKind::MassStorage));
    assert_eq!(DeviceKind::from_name("nonexistant"), None);
    assert_eq!(DeviceKind::MassStorage.name(), "mass_storage");
}

#[test]
fn usb_and_ptp_stand_ins() {
    let ctx = Context::new().unwrap();
    assert!(ctx.devices().is_err());
    let d = Device { vendor_id: 0x2672, product_id: 0x000d };
    let desc = d.device_descriptor().unwrap();
    assert_eq!(desc, Descriptor { vendor_id: 0x2672, product_id: 0x000d });
    assert_eq!(desc.vendor_id(), 0x2672);
    assert_eq!(desc.product_id(), 0x000d);
    let mut cam = PtpCamera;
    assert!(cam.get_objecthandles_all(0, None).is_err());
    assert!(cam.get_partialobject(1, 0, 10).is_err());
    assert!(cam.get_objectinfo(1).is_err());
    assert!(cam.delete_object(1).is_err());
    assert!(cam.close_session().is_err());
    assert!(cam.power_down().is_err());
    let mut conn = GoproConnection {
        gopro: Gopro { kind: GoproKind::Hero5Black, serial: "C3131127500000".into() },
        camera: PtpCamera,
    };
    assert_eq!(conn.files(), Err(stokepile::dummy_ptp::NO_PTP_SUPPORT.to_string()));
}

#[test]
fn metadata_keeps_the_stream() {
    let m = Metadata::from_output(false, vec![1, 2, 3]);
    assert_eq!(m.bytes(), &[1, 2, 3]);
}

fn staged(path: RemotePathDescriptor) -> StagedFile {
    StagedFile {
        content_path: "/staging/stokepile/clip.mp4".into(),
        manifest_path: "/staging/stokepile/clip.mp4.manifest".into(),
        descriptor: UploadDescriptor {
            path,
            device_name: "cam".into(),
            content_hash: [1; 32],
            size: 100,
            uuid: 5,
            transforms: vec![MediaTransform::trim(3, 6)],
        },
    }
}

#[test]
fn trimmed_copies_sit_beside_their_source() {
    assert!(FFMpegTrimmer::new(false).is_none());
    assert_eq!(FFMpegTrimmer::new(true), Some(FFMpegTrimmer {}));
    let file = staged(RemotePathDescriptor::SpecifiedPath {
        group: "event".into(),
        name: "clip".into(),
        extension: "mp4".into(),
    });
    let detail = TrimDetail { start: 3, end: 6 };
    let targets = FFMpegTrimmer::targets(&file, detail);
    assert_eq!(targets.content_path, "/staging/stokepile/clip-trim-3:6.mp4".to_string());
    assert_eq!(targets.manifest_path, "/staging/stokepile/clip-trim-3:6.mp4.manifest".to_string());
    let trimmed = FFMpegTrimmer::trim(file, targets, detail, Ok((42, [9; 32]))).unwrap();
    assert_eq!(trimmed.content_path, "/staging/stokepile/clip-trim-3:6.mp4".to_string());
    assert_eq!(
        trimmed.descriptor.path,
        RemotePathDescriptor::SpecifiedPath { group: "event".into(), name: "clip-trim-3:6".into(), extension: "mp4".into() }
    );
    assert_eq!(trimmed.descriptor.size, 42);
    assert_eq!(trimmed.descriptor.content_hash, [9; 32]);
    assert!(trimmed.descriptor.transforms.is_empty());
    assert_ne!(trimmed.descriptor.uuid, 5);
    let again = staged(RemotePathDescriptor::SpecifiedPath {
        group: "event".into(),
        name: "clip".into(),
        extension: "mp4".into(),
    });
    let targets = FFMpegTrimmer::targets(&again, detail);
    let (back, why) = FFMpegTrimmer::trim(again, targets, detail, Err("ffmpeg failed".into())).unwrap_err();
    assert_eq!(back.descriptor.uuid, 5);
    assert_eq!(why, "ffmpeg failed".to_string());
}

#[test]
fn staging_area_paths() {
    let staging = MountedStaging::from_mounted_parts(
        StagingConfig { location: MountableDeviceLocation::Mountpoint("/mnt/staging".into()) },
        MountedFilesystem::new_externally_mounted("/mnt/staging".into()),
    );
    assert_eq!(staging.staging_dir(), "/mnt/staging/stokepile".to_string());
    assert_eq!(staging.path_for_name("clip.mp4"), "/mnt/staging/stokepile/clip.mp4".to_string());
    let mut d = descriptor_for(
        RemotePathDescriptor::SpecifiedPath { group: "g".into(), name: "n".into(), extension: "mov".into() },
        "cam",
        1,
    );
    d.uuid = 1;
    assert_eq!(staging.file_path(&d), "/mnt/staging/stokepile/00000000000000000000000000000001.mov".to_string());
    assert_eq!(
        staging.manifest_path(&d),
        "/mnt/staging/stokepile/00000000000000000000000000000001.mov.manifest".to_string()
    );
    let found = MountedStaging::staged_paths(&vec![
        "/mnt/staging/stokepile/a.mp4".to_string(),
        "/mnt/staging/stokepile/a.mp4.manifest".to_string(),
        "/mnt/staging/stokepile/b.manifes".to_string(),
    ]);
    assert_eq!(
        found,
        vec![StagedPaths {
            content_path: "/mnt/staging/stokepile/a.mp4".into(),
            manifest_path: "/mnt/staging/stokepile/a.mp4.manifest".into(),
        }]
    );
    let s = Stager::destructive(staging.staging_dir());
    assert!(s.removes_sources());
    let p = Stager::preserving(7u8);
    assert!(!p.removes_sources());
    assert_eq!(*p.staging_location(), 7);
    assert_eq!(p.into_inner(), 7);
    assert_eq!(
        StagingDevice::new(MountableDeviceLocation::Label("STAGING".into())).location,
        MountableDeviceLocation::Label("STAGING".into())
    );
}

#[test]
fn staged_descriptors_record_the_copy() {
    let mut d = descriptor_for(
        RemotePathDescriptor::DateTime {
            capture_time: LocalDateTime { year: 2018, month: 8, day: 24, hour: 9, minute: 55, second: 30 },
            extension: "csv".into(),
        },
        "data",
        33,
    );
    assert_eq!(d.size, 33);
    assert_eq!(d.content_hash, [0; 32]);
    record_staged(&mut d, 33, [4; 32]);
    assert_eq!(d.content_hash, [4; 32]);
    assert_eq!(d.remote_path(), "/2018/08/24/data/09-55-30.csv".to_string());
}

fn sha256(data: &[u8]) -> [u8; 32] {
    <sha2::Sha256 as Digest>::digest(data).into()
}

#[test]
fn content_hash_of_blocks() {
    let empty = DropboxContentHasher::new();
    assert_eq!(empty.size(), 0);
    assert_eq!(empty.finish(), sha256(&[]));

    let mut small = DropboxContentHasher::new();
    small.update(b"yes hello");
    assert_eq!(small.size(), 9);
    assert_eq!(small.finish(), sha256(&sha256(b"yes hello")));

    let data: Vec<u8> = (0..(BLOCK_SIZE + 1000)).map(|i| (i % 251) as u8).collect();
    let mut big = DropboxContentHasher::new();
    big.update(&data[..BLOCK_SIZE]);
    big.update(&data[BLOCK_SIZE..]);
    let mut digests = sha256(&data[..BLOCK_SIZE]).to_vec();
    digests.extend_from_slice(&sha256(&data[BLOCK_SIZE..]));
    assert_eq!(big.size(), (BLOCK_SIZE + 1000) as u64);
    assert_eq!(big.finish(), sha256(&digests));
}

#[test]
fn staged_names_follow_the_uuid() {
    assert_eq!(uuid_text(0), "00000000000000000000000000000000".to_string());
    assert_eq!(uuid_text(u128::MAX), "ffffffffffffffffffffffffffffffff".to_string());
    assert_eq!(uuid_text(0x0123456789abcdef0011223344556677), "0123456789abcdef0011223344556677".to_string());
    let mut d = descriptor_for(
        RemotePathDescriptor::DateTime {
            capture_time: LocalDateTime { year: 2018, month: 8, day: 24, hour: 9, minute: 55, second: 30 },
            extension: "csv".into(),
        },
        "data",
        1,
    );
    d.uuid = 0xabc;
    assert_eq!(staging_name(&d), "00000000000000000000000000000abc.csv".to_string());
    assert_eq!(manifest_name(&d), "00000000000000000000000000000abc.csv.manifest".to_string());
    assert_eq!(
        stokepile::staging::content_path_from_manifest(&format!("/s/{}", manifest_name(&d))),
        format!("/s/{}", staging_name(&d))
    );
}

#[test]
fn gopro_listing_keeps_order() {
    let files = stokepile::ptp_device::gopro_files(vec![
        (3, ObjectInfo { CaptureDate: "20150101T000649".into(), ObjectCompressedSize: 10, ObjectFormat: 0x300d }),
        (1, ObjectInfo { CaptureDate: "20150102T000649".into(), ObjectCompressedSize: 20, ObjectFormat: 0x300d }),
    ]);
    assert_eq!(files.len(), 2);
    assert_eq!(files[0].handle, 3);
    assert_eq!(files[1].size, 20);
    assert_eq!(files[1].offset, 0);
}

#[test]
fn archiver_client_requests() {
    assert!(matches!(ArchiverClient::new("malformed", false), Err(ClientSetupError::InvalidUrl(_))));
    assert!(matches!(ArchiverClient::new("http://localhost:8000", true), Err(ClientSetupError::InsecureUrl)));
    let mut client = ArchiverClient::new("http://localhost:8000", false).unwrap();
    assert_eq!(client.base, "http://localhost:8000/".to_string());
    assert_eq!(client.endpoint("/config"), Some("http://localhost:8000/config".to_string()));
    assert_eq!(client.send_notification("hi").unwrap_err(), ClientError::MissingToken);
    let (url, payload) = client.login("test1@email.com", "p@55w0rd");
    assert_eq!(url, Some("http://localhost:8000/json/signin".to_string()));
    assert_eq!(payload.email, "test1@email.com".to_string());
    client.load_token(AccessToken::from_contents("tok".into()));
    let (url, auth, message) = client.send_notification("thisis a test message").unwrap();
    assert_eq!(url, Some("http://localhost:8000/notification/send".to_string()));
    assert_eq!(auth, "Bearer: tok".to_string());
    assert_eq!(message.message, "thisis a test message".to_string());
    let (url, auth) = client.fetch_config().unwrap();
    assert_eq!(url, Some("http://localhost:8000/config".to_string()));
    assert_eq!(auth, "Bearer: tok".to_string());
    assert_eq!(client.json_content_type(), "application/json");
    let secure = ArchiverClient::new("https://archiver-web.onrender.com/", true).unwrap();
    assert_eq!(secure.base, "https://archiver-web.onrender.com/".to_string());
}

#[test]
fn test_path_calculation() {
    let staging = MountedStaging::from_mounted_parts(
        StagingConfig { location: MountableDeviceLocation::Mountpoint("/mnt/staging".into()) },
        MountedFilesystem::new_externally_mounted("/mnt/staging".into()),
    );
    let capture_time = LocalDateTime { year: 2019, month: 3, day: 2, hour: 11, minute: 4, second: 9 };
    let mut staged = descriptor_for(
        RemotePathDescriptor::DateTime { capture_time, extension: "dummy".into() },
        "dummy",
        22,
    );
    staged.uuid = 32;
    let content_path = staging.file_path(&staged);
    let detail = MediaTransform::trim(1, 2);
    let new_path = path_with_transform(&content_path, detail);
    assert_eq!(new_path, "/mnt/staging/stokepile/00000000000000000000000000000020-trim-1:2.dummy".to_string());

    let descriptor = UploadDescriptor {
        path: staged.path.with_modification(&detail),
        device_name: "".into(),
        content_hash: [0; 32],
        size: 0,
        uuid: 7,
        transforms: vec![],
    };
    assert_eq!(descriptor.path, RemotePathDescriptor::DateTime { capture_time, extension: "dummy".into() });
    let named = RemotePathDescriptor::SpecifiedPath { group: "g".into(), name: "n".into(), extension: "mp4".into() };
    assert_eq!(
        named.with_modification(&TrimDetail { start: 1, end: 2 }),
        RemotePathDescriptor::SpecifiedPath { group: "g".into(), name: "n-trim-1:2".into(), extension: "mp4".into() }
    );
}
