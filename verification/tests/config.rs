use stokepile::config::{
    AccessToken, BackendPlan, Config, ConfigBuilder, ConfigError, FlysightConfig, GoproConfig, LocalBackupConfig,
    MassStorageConfig, MountableDeviceLocation, NotifierPlan, PushoverConfig, SendgridConfig, StagingConfig,
    StagingKind, WebNotificationsConfig,
};

fn staging_at(path: &str) -> StagingConfig {
    StagingConfig { location: MountableDeviceLocation::Mountpoint(path.to_string()) }
}

fn base() -> ConfigBuilder {
    Config::build().staging(staging_at("/test"))
}

fn front() -> MassStorageConfig {
    MassStorageConfig {
        name: "front".into(),
        location: MountableDeviceLocation::Mountpoint("/mnt/archiver/front".into()),
        extensions: vec!["mp4".into()],
        cleanup_extensions: None,
    }
}

fn back() -> MassStorageConfig {
    MassStorageConfig {
        name: "back".into(),
        location: MountableDeviceLocation::Label("back_mass_storage".into()),
        extensions: vec!["mov".into()],
        cleanup_extensions: None,
    }
}

fn training() -> FlysightConfig {
    FlysightConfig {
        name: "training".into(),
        location: MountableDeviceLocation::Mountpoint("/mnt/archiver/training".into()),
    }
}

fn comp() -> FlysightConfig {
    FlysightConfig { name: "comp".into(), location: MountableDeviceLocation::Label("COMP_FLYSIGHT".into()) }
}

#[test]
fn test_relative_staging() {
    let err = Config::build().staging(staging_at("test/dir")).dropbox("TOKEN".into()).finish().unwrap_err();
    assert_eq!(err, ConfigError::RelativeStaging);
}

#[test]
fn test_staging_mountpoint() {
    let cfg = Config::build().staging(staging_at("/mnt/staging")).dropbox("TOKEN".into()).finish().unwrap();
    assert_eq!(cfg.staging, StagingConfig { location: MountableDeviceLocation::Mountpoint("/mnt/staging".into()) });
}

#[test]
fn test_staging_label() {
    let cfg = Config::build()
        .staging(StagingConfig { location: MountableDeviceLocation::Label("STAGING".into()) })
        .dropbox("TOKEN".into())
        .finish()
        .unwrap();
    assert_eq!(cfg.staging, StagingConfig { location: MountableDeviceLocation::Label("STAGING".into()) });
}

#[test]
fn test_invalid_api_base() {
    let mut b = base().dropbox("TOKEN".into());
    b.archiver.api_base = Some("malformed".into());
    let err = b.finish().unwrap_err();
    assert_eq!(ConfigError::InvalidApiBase(url::ParseError::RelativeUrlWithoutBase), err);
}

#[test]
fn valid_api_base_is_kept() {
    let mut b = base().dropbox("TOKEN".into());
    b.archiver.api_base = Some("https://test-api.base".into());
    let cfg = b.finish().unwrap();
    assert_eq!(cfg.api_base(), "https://test-api.base");
}

#[test]
fn default_api_base() {
    let cfg = base().dropbox("TOKEN".into()).finish().unwrap();
    assert_eq!(cfg.api_base(), "https://archiver-web.onrender.com/");
}

#[test]
fn test_single_backend() {
    let cfg = base().dropbox("TOKEN".into()).finish().unwrap();
    assert_eq!(cfg.backends().len(), 1);
}

#[test]
fn test_multiple_backends() {
    let cfg = base().dropbox("TOKEN".into()).vimeo("TOKEN".into()).finish().unwrap();
    assert_eq!(cfg.backends().len(), 2);
}

#[test]
fn backends_come_in_order() {
    let cfg = base()
        .vimeo("V".into())
        .dropbox("D".into())
        .local_backup(LocalBackupConfig { location: MountableDeviceLocation::Label("BACKUP".into()) })
        .finish()
        .unwrap();
    assert_eq!(
        cfg.backends(),
        vec![
            BackendPlan::LocalBackup(LocalBackupConfig { location: MountableDeviceLocation::Label("BACKUP".into()) }),
            BackendPlan::Dropbox("D".into()),
            BackendPlan::Vimeo("V".into()),
        ]
    );
}

#[test]
fn test_pushover() {
    let cfg = base()
        .dropbox("TOKEN".into())
        .pushover(PushoverConfig { token: "PUSHOVER_TOKEN".into(), recipient: "RECIPIENT_TOKEN".into() })
        .finish()
        .unwrap();
    match cfg.notifier(false) {
        NotifierPlan::Pushover(p) => {
            assert_eq!(p.token, "PUSHOVER_TOKEN".to_string());
            assert_eq!(p.recipient, "RECIPIENT_TOKEN".to_string());
        },
        other => panic!("Couldn't construct notifier: {:?}", other),
    }
}

#[test]
fn web_notifications_win_when_available() {
    let cfg = base()
        .dropbox("TOKEN".into())
        .pushover(PushoverConfig { token: "P".into(), recipient: "R".into() })
        .web_notifications()
        .finish()
        .unwrap();
    assert_eq!(cfg.web_notifications, Some(WebNotificationsConfig { enabled: true }));
    assert_eq!(cfg.notifier(true), NotifierPlan::Web);
    assert!(matches!(cfg.notifier(false), NotifierPlan::Pushover(_)));
    let plain = base().dropbox("TOKEN".into()).finish().unwrap();
    assert_eq!(plain.notifier(true), NotifierPlan::Nothing);
}

#[test]
fn test_no_backends() {
    let error = base().finish().unwrap_err();
    assert_eq!(error, ConfigError::MissingBackend);
}

#[test]
fn missing_staging_is_refused() {
    let error = Config::build().dropbox("TOKEN".into()).finish().unwrap_err();
    assert_eq!(error, ConfigError::MissingStaging);
}

#[test]
fn test_no_peripherals() {
    let config = base().dropbox("DROPBOX_TOKEN_GOES_HERE".into()).finish().unwrap();
    assert_eq!(config.mass_storage, None);
    assert!(config.mass_storages().is_empty());
    assert_eq!(config.flysight, None);
    assert!(config.flysights().is_empty());
}

#[test]
fn test_mass_storages() {
    let config = base()
        .dropbox("DROPBOX_TOKEN_GOES_HERE".into())
        .mass_storage(front())
        .mass_storage(back())
        .finish()
        .unwrap();
    assert_eq!(config.mass_storages(), &vec![front(), back()][..]);
    assert!(config.flysights().is_empty());
}

#[test]
fn test_gopros() {
    let config = base()
        .dropbox("DROPBOX_TOKEN_GOES_HERE".into())
        .gopros(vec![
            GoproConfig { name: "gopro4".into(), serial: "C3131127500000".into() },
            GoproConfig { name: "gopro5".into(), serial: "C3131127500001".into() },
        ])
        .finish()
        .unwrap();
    assert_eq!(
        config.gopros(),
        &vec![
            GoproConfig { name: "gopro4".into(), serial: "C3131127500000".into() },
            GoproConfig { name: "gopro5".into(), serial: "C3131127500001".into() },
        ][..]
    );
    assert!(config.mass_storages().is_empty());
    assert!(config.flysights().is_empty());
}

#[test]
fn test_flysights() {
    let config =
        base().dropbox("DROPBOX_TOKEN_GOES_HERE".into()).flysights(vec![training(), comp()]).finish().unwrap();
    assert_eq!(config.flysights(), &vec![training(), comp()][..]);
    assert!(config.mass_storages().is_empty());
}

#[test]
fn test_mass_storages_and_flysights() {
    let config = base()
        .dropbox("DROPBOX_TOKEN_GOES_HERE".into())
        .mass_storages(vec![front(), back()])
        .flysight(training())
        .flysight(comp())
        .finish()
        .unwrap();
    assert_eq!(config.mass_storages(), &vec![front(), back()][..]);
    assert_eq!(config.flysights(), &vec![training(), comp()][..]);
}

#[test]
fn mailer_follows_sendgrid() {
    let cfg = base()
        .dropbox("T".into())
        .sendgrid(SendgridConfig {
            token: "TOKEN_GOES_HERE".into(),
            from: "richo@example.net".into(),
            to: "richo@example.org".into(),
            subject: "archiver upload report".into(),
        })
        .finish()
        .unwrap();
    let m = cfg.mailer().expect("mailer");
    assert_eq!(m.to, "richo@example.org".to_string());
    assert_eq!(m.from, "richo@example.net".to_string());
    assert_eq!(m.subject, "archiver upload report".to_string());
    assert!(base().dropbox("T".into()).finish().unwrap().mailer().is_none());
}

#[test]
fn staging_for_the_web_service() {
    let label = StagingConfig { location: MountableDeviceLocation::Label("STAGING".into()) };
    assert_eq!(label.data_for_db(), "STAGING".to_string());
    assert_eq!(label.kind_for_db(), StagingKind::Label);
    let mount = staging_at("/mnt/staging");
    assert_eq!(mount.data_for_db(), "/mnt/staging".to_string());
    assert_eq!(mount.kind_for_db(), StagingKind::Mountpoint);
}

#[test]
fn access_token_header_and_file() {
    let token = AccessToken::from_contents("test-token".into());
    assert_eq!(token.as_authorization_header(), "Bearer: test-token".to_string());
    assert_eq!(AccessToken::token_path("/home/user"), "/home/user/.archiver-token".to_string());
    let (path, contents) = AccessToken::save("/home/user", "test-token");
    assert_eq!(path, "/home/user/.archiver-token".to_string());
    assert_eq!(contents, "test-token".to_string());
    let loaded = AccessToken::load("/home/user", Some("test-token".into())).unwrap();
    assert_eq!(loaded.token(), "test-token");
}

#[test]
fn test_nice_error_for_nonexistant_token() {
    match AccessToken::load("/nonexistant", None) {
        Err(ConfigError::NoTokenFile) => {},
        _ => panic!("Didn't get the correct error"),
    }
}

#[test]
fn flysight_name() {
    assert_eq!(training().name(), "training");
}
