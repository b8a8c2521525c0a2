use stokepile::staging::{
    content_path_from_manifest, grouped_by_device, parse_trim, parse_u64, grouped_by_device_by_group, is_manifest, manifest_path_for,
    path_with_transform, remaining_after_trim, LocalDateTime, MediaTransform, NaiveDate, RemotePathDescriptor,
    TrimDetail, UploadDescriptor,
};

fn descriptor(path: RemotePathDescriptor, device: &str) -> UploadDescriptor {
    UploadDescriptor {
        path,
        device_name: device.to_string(),
        content_hash: [0; 32],
        size: 0,
        uuid: 0,
        transforms: vec![],
    }
}

fn at(year: i32, month: u32, day: u32, hour: u32, minute: u32, second: u32) -> LocalDateTime {
    LocalDateTime { year, month, day, hour, minute, second }
}

#[test]
fn test_formats_correctly() {
    let upload = descriptor(
        RemotePathDescriptor::DateTime { capture_time: at(2017, 11, 22, 15, 36, 10), extension: "mp4".to_string() },
        "test",
    );
    assert_eq!(upload.remote_path(), "/2017/11/22/test/15-36-10.mp4".to_string());
}

#[test]
fn test_pads_correctly() {
    let upload = descriptor(
        RemotePathDescriptor::DateTime { capture_time: at(2001, 1, 2, 3, 4, 5), extension: "mp4".to_string() },
        "test",
    );
    assert_eq!(upload.remote_path(), "/2001/01/02/test/03-04-05.mp4".to_string());
}

#[test]
fn test_absolute_manifest_conversion() {
    assert_eq!(content_path_from_manifest("/tmp/foo/bar/butts.manifest"), "/tmp/foo/bar/butts".to_string());
}

#[test]
fn test_relative_manifest_conversion() {
    assert_eq!(content_path_from_manifest("bar/butts.manifest"), "bar/butts".to_string());
}

#[test]
fn test_bare_manifest_conversion() {
    assert_eq!(content_path_from_manifest("butts.manifest"), "butts".to_string());
}

#[test]
fn test_absolute_manifest_detection() {
    assert_eq!(true, is_manifest("/tmp/foo/bar/butts.manifest"));
    assert_eq!(false, is_manifest("/tmp/foo/bar/buttsmanifest"));
    assert_eq!(false, is_manifest("/tmp/foo/bar/butts.manifes"));
}

#[test]
fn test_relative_manifest_detection() {
    assert_eq!(true, is_manifest("bar/butts.manifest"));
    assert_eq!(false, is_manifest("bar/buttsmanifest"));
    assert_eq!(false, is_manifest("bar/butts.manifes"));
}

#[test]
fn test_bare_manifest_detection() {
    assert_eq!(true, is_manifest("butts.manifest"));
    assert_eq!(false, is_manifest("buttsmanifest"));
    assert_eq!(false, is_manifest("butts.manifes"));
}

#[test]
fn manifest_path_sits_beside_content() {
    assert_eq!(manifest_path_for("/tmp/foo/bar/butts"), "/tmp/foo/bar/butts.manifest".to_string());
    assert_eq!(manifest_path_for("butts"), "butts.manifest".to_string());
    let m = manifest_path_for("/staging/stokepile/clip.mp4");
    assert_eq!(content_path_from_manifest(&m), "/staging/stokepile/clip.mp4".to_string());
}

#[test]
fn test_can_calc_name() {
    let trimmed = path_with_transform("/path/to/file.ext", MediaTransform::trim(3, 6));
    assert_eq!(trimmed, "/path/to/file-trim-3:6.ext".to_string());
}

#[test]
fn tweak_name_renders_the_trim() {
    assert_eq!(MediaTransform::trim(0, 120).tweak_name(), "-trim-0:120".to_string());
    assert_eq!(
        MediaTransform::trim(18446744073709551615, 1).tweak_name(),
        "-trim-18446744073709551615:1".to_string()
    );
}

#[test]
fn group_and_name_of_each_kind() {
    let date_time =
        RemotePathDescriptor::DateTime { capture_time: at(987, 3, 4, 5, 6, 7), extension: "MP4".to_string() };
    assert_eq!(date_time.group(), "0987/03/04".to_string());
    assert_eq!(date_time.name(), "05-06-07.MP4".to_string());
    let date_name = RemotePathDescriptor::DateName {
        capture_date: NaiveDate { year: 2019, month: 5, day: 6 },
        name: "jump".to_string(),
        extension: "ogv".to_string(),
    };
    assert_eq!(date_name.group(), "2019/05/06".to_string());
    assert_eq!(date_name.name(), "jump.ogv".to_string());
    let specified = RemotePathDescriptor::SpecifiedPath {
        group: "event".to_string(),
        name: "video".to_string(),
        extension: "mov".to_string(),
    };
    assert_eq!(specified.group(), "video.mov".to_string());
    assert_eq!(descriptor(specified, "cam").remote_path(), "/video.mov/cam/video.mov".to_string());
}

#[test]
fn with_transform_renames_named_files_only() {
    let trim = MediaTransform::trim(1, 2);
    let date_name = RemotePathDescriptor::DateName {
        capture_date: NaiveDate { year: 2019, month: 5, day: 6 },
        name: "jump".to_string(),
        extension: "ogv".to_string(),
    };
    assert_eq!(
        date_name.with_transform(trim),
        RemotePathDescriptor::DateName {
            capture_date: NaiveDate { year: 2019, month: 5, day: 6 },
            name: "jump-trim-1:2".to_string(),
            extension: "ogv".to_string(),
        }
    );
    let date_time =
        RemotePathDescriptor::DateTime { capture_time: at(2019, 5, 6, 7, 8, 9), extension: "mp4".to_string() };
    assert_eq!(
        date_time.with_modification(&TrimDetail { start: 1, end: 2 }),
        RemotePathDescriptor::DateTime { capture_time: at(2019, 5, 6, 7, 8, 9), extension: "mp4".to_string() }
    );
}

#[test]
fn trims_are_dropped_after_trimming() {
    let ts = vec![MediaTransform::trim(1, 2), MediaTransform::trim(3, 4)];
    assert!(remaining_after_trim(&ts).is_empty());
}

#[test]
fn builder_descriptors_are_fresh() {
    let a = UploadDescriptor::build("cam".to_string()).date_time(at(2020, 1, 2, 3, 4, 5), "mp4".to_string());
    let b = UploadDescriptor::build("cam".to_string()).date_time(at(2020, 1, 2, 3, 4, 5), "mp4".to_string());
    assert_eq!(a.device_name, "cam".to_string());
    assert_eq!(a.size, 0);
    assert_eq!(a.content_hash, [0u8; 32]);
    assert_eq!((a.uuid >> 76) & 0xf, 4);
    assert_eq!((a.uuid >> 62) & 0x3, 2);
    assert_ne!(a.uuid, b.uuid);
    let m = UploadDescriptor::build("ev".to_string()).manual_file(
        "group".to_string(),
        "name".to_string(),
        "ext".to_string(),
    );
    assert_eq!(m.remote_path(), "/name.ext/ev/name.ext".to_string());
}

#[test]
fn grouping_by_device_and_group() {
    let descs = vec![
        descriptor(
            RemotePathDescriptor::DateTime { capture_time: at(2018, 8, 24, 9, 0, 0), extension: "mp4".to_string() },
            "front",
        ),
        descriptor(
            RemotePathDescriptor::DateTime { capture_time: at(2018, 8, 25, 9, 0, 0), extension: "mp4".to_string() },
            "back",
        ),
        descriptor(
            RemotePathDescriptor::DateTime { capture_time: at(2018, 8, 24, 10, 0, 0), extension: "mp4".to_string() },
            "front",
        ),
    ];
    let by_device = grouped_by_device(&descs);
    assert_eq!(by_device.len(), 2);
    let front = by_device.iter().find(|(d, _)| d == "front").expect("front group");
    assert_eq!(front.1, vec![0, 2]);
    let back = by_device.iter().find(|(d, _)| d == "back").expect("back group");
    assert_eq!(back.1, vec![1]);
    let nested = grouped_by_device_by_group(&descs);
    let front = nested.iter().find(|(d, _)| d == "front").expect("front device");
    assert_eq!(front.1.len(), 1);
    assert_eq!(front.1[0].0, "2018/08/24".to_string());
    assert_eq!(front.1[0].1, vec![0, 2]);
}

#[test]
fn trim_annotations() {
    assert_eq!(parse_trim("3:6"), Some(TrimDetail { start: 3, end: 6 }));
    assert_eq!(parse_trim("+3:06"), Some(TrimDetail { start: 3, end: 6 }));
    assert_eq!(parse_trim("18446744073709551615:0"), Some(TrimDetail { start: u64::MAX, end: 0 }));
    assert_eq!(parse_trim("18446744073709551616:0"), None);
    assert_eq!(parse_trim("3"), None);
    assert_eq!(parse_trim("3:4:5"), None);
    assert_eq!(parse_trim(":4"), None);
    assert_eq!(parse_trim("a:4"), None);
    assert_eq!(parse_trim("4:-1"), None);
    assert_eq!(parse_trim("+:1"), None);
}

#[test]
fn numbers_read_as_std_reads_them() {
    let samples = [
        "", "+", "-", "0", "+0", "-0", "007", "42", "+42", "4 2", " 42", "42 ", "1e3", "18446744073709551615",
        "18446744073709551616", "99999999999999999999", "+18446744073709551615", "0018446744073709551615",
        "1844674407370955161", "18446744073709551620", "٣",
    ];
    for s in samples {
        let chars: Vec<char> = s.chars().collect();
        assert_eq!(parse_u64(&chars), s.parse::<u64>().ok(), "{:?}", s);
    }
}

#[test]
fn dated_files_are_grouped_by_their_day() {
    let d = RemotePathDescriptor::DateName {
        capture_date: NaiveDate { year: 2019, month: 3, day: 7 },
        name: "jump".into(),
        extension: "mp4".into(),
    };
    assert_eq!(d.group(), "2019/03/07".to_string());
    assert_eq!(d.name(), "jump.mp4".to_string());
}
