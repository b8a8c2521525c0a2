//! The configuration: what it holds, how a builder assembles one, the checks a
//! configuration must pass, and the choices (backends, notifier, mailer) made
//! from it.

use vstd::prelude::*;

use crate::mailer::SendgridMailer;
use crate::paths::{is_absolute, is_relative, join, join_path};
use crate::pushover_notifier::PushoverNotifier;
use crate::text::{copy_string, push_str};

verus! {

/// The web service used when the configuration names none.
pub const DEFAULT_API_BASE: &'static str = "https://archiver-web.onrender.com/";

/// The file in the home directory that holds the access token.
pub const TOKEN_FILE_NAME: &'static str = ".archiver-token";

/// What `url::Url::parse` makes of `s`: the url's serialization and its
/// scheme, or the error it reports when the text is not an absolute url.
pub uninterp spec fn url_parsed(s: Seq<char>) -> Result<(Seq<char>, Seq<char>), url::ParseError>;

/// Whether the url library accepts `s` as an absolute url.
pub open spec fn url_accepts(s: Seq<char>) -> bool {
    url_parsed(s) is Ok
}

#[verifier::external_type_specification]
#[verifier::external_body]
pub struct ExUrlParseError(url::ParseError);

/// Calls `url::Url::parse` on `s`, keeping the url's serialization and its
/// scheme, or the error it reports. Trusted to depend on the text alone
/// (named by `url_parsed`).
#[verifier::external_body]
pub(crate) fn url_parse(s: &str) -> (r: Result<(String, String), url::ParseError>)
    ensures
        match r {
            Ok(u) => url_parsed(s@) == Ok::<(Seq<char>, Seq<char>), url::ParseError>((u.0@, u.1@)),
            Err(e) => url_parsed(s@) == Err::<(Seq<char>, Seq<char>), url::ParseError>(e),
        },
{
    url::Url::parse(s).map(|u| (u.to_string(), u.scheme().to_string()))
}

/// The token used to authenticate with the web service.
#[derive(Debug)]
pub struct AccessToken {
    token: String,
}

impl View for AccessToken {
    type V = Seq<char>;

    closed spec fn view(&self) -> Seq<char> {
        self.token@
    }
}

impl AccessToken {
    /// A token holding the given text (as read from the token file).
    pub fn from_contents(token: String) -> (t: AccessToken)
        ensures
            t@ == token@,
    {
        AccessToken { token }
    }

    /// The value of the `Authorization` header carrying this token.
    pub fn as_authorization_header(&self) -> (h: String)
        ensures
            h@ == "Bearer: "@ + self@,
    {
        let mut h = String::new();
        push_str(&mut h, "Bearer: ");
        push_str(&mut h, self.token.as_str());
        h
    }

    /// The token text.
    pub fn token(&self) -> (t: &str)
        ensures
            t@ == self@,
    {
        self.token.as_str()
    }

    /// Reads the token kept under the home directory `home`, given what
    /// opening and reading the token file gave: its text, or nothing when it
    /// could not be opened (then the token file is reported missing).
    pub fn load(home: &str, contents: Option<String>) -> (r: Result<AccessToken, ConfigError>)
        ensures
            match contents {
                Some(text) => r is Ok && r->Ok_0@ == text@,
                None => r matches Err(ConfigError::NoTokenFile),
            },
    {
        match contents {
            Some(text) => Ok(AccessToken::from_contents(text)),
            None => Err(ConfigError::NoTokenFile),
        }
    }

    /// What saving `token` under the home directory `home` writes: the token
    /// file's path, and the token as its whole content.
    pub fn save(home: &str, token: &str) -> (w: (String, String))
        ensures
            w.0@ == join(home@, TOKEN_FILE_NAME@),
            w.1@ == token@,
    {
        (AccessToken::token_path(home), token.to_owned())
    }

    /// Where the token is kept, given the home directory.
    pub fn token_path(home: &str) -> (p: String)
        ensures
            p@ == join(home@, TOKEN_FILE_NAME@),
    {
        join_path(home, TOKEN_FILE_NAME)
    }
}

/// Where a device is found: a directory it is mounted at, or the label of the
/// filesystem on it.
#[derive(Debug, PartialEq, Eq, Hash)]
pub enum MountableDeviceLocation {
    Mountpoint(String),
    Label(String),
}

/// A device location as text.
pub enum LocationView {
    Mountpoint(Seq<char>),
    Label(Seq<char>),
}

impl View for MountableDeviceLocation {
    type V = LocationView;

    open spec fn view(&self) -> LocationView {
        match self {
            MountableDeviceLocation::Mountpoint(p) => LocationView::Mountpoint(p@),
            MountableDeviceLocation::Label(l) => LocationView::Label(l@),
        }
    }
}

impl MountableDeviceLocation {
    /// The location of a device mounted at `pb`.
    pub fn from_mountpoint(pb: String) -> (l: MountableDeviceLocation)
        ensures
            l == MountableDeviceLocation::Mountpoint(pb),
    {
        MountableDeviceLocation::Mountpoint(pb)
    }

    /// The location of a device whose filesystem is labelled `lbl`.
    pub fn from_label(lbl: String) -> (l: MountableDeviceLocation)
        ensures
            l == MountableDeviceLocation::Label(lbl),
    {
        MountableDeviceLocation::Label(lbl)
    }

    /// A copy of this location.
    pub fn duplicate(&self) -> (l: MountableDeviceLocation)
        ensures
            l@ == self@,
    {
        match self {
            MountableDeviceLocation::Mountpoint(p) => MountableDeviceLocation::Mountpoint(copy_string(p)),
            MountableDeviceLocation::Label(l) => MountableDeviceLocation::Label(copy_string(l)),
        }
    }
}

/// How a staging location is recorded by the web service.
#[derive(Debug, PartialEq, Eq)]
pub enum StagingKind {
    Label,
    Mountpoint,
}

/// The configuration entry associated with a staging location.
#[derive(Debug, PartialEq, Eq)]
pub struct StagingConfig {
    pub location: MountableDeviceLocation,
}

impl View for StagingConfig {
    type V = LocationView;

    open spec fn view(&self) -> LocationView {
        self.location@
    }
}

impl StagingConfig {
    /// The text the web service stores for this location.
    pub fn data_for_db(&self) -> (d: String)
        ensures
            d@ == match self.location@ {
                LocationView::Label(l) => l,
                LocationView::Mountpoint(p) => p,
            },
    {
        match &self.location {
            MountableDeviceLocation::Label(l) => copy_string(l),
            MountableDeviceLocation::Mountpoint(p) => copy_string(p),
        }
    }

    /// The kind of location the web service stores.
    pub fn kind_for_db(&self) -> (k: StagingKind)
        ensures
            k == match self.location@ {
                LocationView::Label(_) => StagingKind::Label,
                LocationView::Mountpoint(_) => StagingKind::Mountpoint,
            },
    {
        match &self.location {
            MountableDeviceLocation::Label(_) => StagingKind::Label,
            MountableDeviceLocation::Mountpoint(_) => StagingKind::Mountpoint,
        }
    }

    /// A copy of this staging configuration.
    pub fn duplicate(&self) -> (c: StagingConfig)
        ensures
            c@ == self@,
    {
        StagingConfig { location: self.location.duplicate() }
    }
}

/// Settings for the web service.
#[derive(Debug, PartialEq, Eq)]
pub struct ArchiverConfig {
    pub api_base: Option<String>,
    pub api_token: Option<String>,
}

impl ArchiverConfig {
    /// Neither an api base nor a token.
    pub fn empty() -> (c: ArchiverConfig)
        ensures
            c.api_base is None,
            c.api_token is None,
    {
        ArchiverConfig { api_base: None, api_token: None }
    }
}

/// The dropbox backend.
#[derive(Debug, PartialEq, Eq)]
pub struct DropboxConfig {
    pub token: String,
}

/// The vimeo backend.
#[derive(Debug, PartialEq, Eq)]
pub struct VimeoConfig {
    pub token: String,
}

/// A flysight GPS logger.
#[derive(Debug, PartialEq, Eq, Hash)]
pub struct FlysightConfig {
    pub name: String,
    pub location: MountableDeviceLocation,
}

impl View for FlysightConfig {
    type V = (Seq<char>, LocationView);

    open spec fn view(&self) -> (Seq<char>, LocationView) {
        (self.name@, self.location@)
    }
}

impl FlysightConfig {
    /// The name this flysight's files are filed under.
    pub fn name(&self) -> (n: &str)
        ensures
            n@ == self.name@,
    {
        self.name.as_str()
    }

    /// A copy of this entry.
    pub fn duplicate(&self) -> (c: FlysightConfig)
        ensures
            c@ == self@,
    {
        FlysightConfig { name: copy_string(&self.name), location: self.location.duplicate() }
    }
}

/// A local directory or disk that uploads are also copied to.
#[derive(Debug, PartialEq, Eq)]
pub struct LocalBackupConfig {
    pub location: MountableDeviceLocation,
}

impl View for LocalBackupConfig {
    type V = LocationView;

    open spec fn view(&self) -> LocationView {
        self.location@
    }
}

impl LocalBackupConfig {
    /// A copy of this entry.
    pub fn duplicate(&self) -> (c: LocalBackupConfig)
        ensures
            c@ == self@,
    {
        LocalBackupConfig { location: self.location.duplicate() }
    }
}

/// The text of each string in a sequence.
pub open spec fn strings_view(v: Seq<String>) -> Seq<Seq<char>> {
    v.map_values(|s: String| s@)
}

/// A copy of a list of strings.
pub fn copy_strings(v: &Vec<String>) -> (out: Vec<String>)
    ensures
        strings_view(out@) == strings_view(v@),
{
    let mut out: Vec<String> = Vec::new();
    let mut i: usize = 0;
    while i < v.len()
        invariant
            i <= v.len(),
            out@.len() == i,
            forall|j: int| 0 <= j < i ==> out@[j]@ == v@[j]@,
        decreases v.len() - i,
    {
        out.push(copy_string(&v[i]));
        i = i + 1;
    }
    assert(strings_view(out@) =~= strings_view(v@));
    out
}

/// A mass storage device (an SD card, a camera mounted as a disk).
#[derive(Debug, PartialEq, Eq, Hash)]
pub struct MassStorageConfig {
    pub name: String,
    pub location: MountableDeviceLocation,
    /// Extensions of the files to stage.
    pub extensions: Vec<String>,
    /// Extensions of the files to remove once staging is done.
    pub cleanup_extensions: Option<Vec<String>>,
}

/// The text of an optional list of strings.
pub open spec fn opt_strings_view(v: Option<Vec<String>>) -> Option<Seq<Seq<char>>> {
    match v {
        Some(x) => Some(strings_view(x@)),
        None => None,
    }
}

impl View for MassStorageConfig {
    type V = (Seq<char>, LocationView, Seq<Seq<char>>, Option<Seq<Seq<char>>>);

    open spec fn view(&self) -> (Seq<char>, LocationView, Seq<Seq<char>>, Option<Seq<Seq<char>>>) {
        (self.name@, self.location@, strings_view(self.extensions@), opt_strings_view(self.cleanup_extensions))
    }
}

impl MassStorageConfig {
    /// A copy of this entry.
    pub fn duplicate(&self) -> (c: MassStorageConfig)
        ensures
            c@ == self@,
    {
        let cleanup = match &self.cleanup_extensions {
            Some(v) => Some(copy_strings(v)),
            None => None,
        };
        MassStorageConfig {
            name: copy_string(&self.name),
            location: self.location.duplicate(),
            extensions: copy_strings(&self.extensions),
            cleanup_extensions: cleanup,
        }
    }
}

/// Notifications through the web service.
#[derive(Debug, PartialEq, Eq)]
pub struct WebNotificationsConfig {
    pub enabled: bool,
}

/// Push notifications.
#[derive(Debug, PartialEq, Eq)]
pub struct PushoverConfig {
    pub token: String,
    pub recipient: String,
}

/// Mailed upload reports.
#[derive(Debug, PartialEq, Eq)]
pub struct SendgridConfig {
    pub token: String,
    pub from: String,
    pub to: String,
    pub subject: String,
}

/// A gopro, recognised by its serial number.
#[derive(Debug, PartialEq, Eq)]
pub struct GoproConfig {
    pub name: String,
    pub serial: String,
}

/// A configured device of any kind.
#[derive(Debug, PartialEq, Eq)]
pub enum DeviceConfig {
    Gopro(GoproConfig),
    MassStorage(MassStorageConfig),
    Flysight(FlysightConfig),
    UnknownDevice(String),
}

/// Why a configuration was refused.
#[derive(Debug, PartialEq)]
pub enum ConfigError {
    /// Must have at least one of dropbox and vimeo configured.
    MissingBackend,
    /// Must have a staging location set.
    MissingStaging,
    /// A staging mountpoint must be an absolute path.
    RelativeStaging,
    /// The configuration text could not be parsed.
    ParseError(String),
    /// The configuration could not be written out.
    GenerateError(String),
    /// The api base is not a valid url.
    InvalidApiBase(url::ParseError),
    /// The token file does not exist.
    NoTokenFile,
}

/// A complete configuration.
#[derive(Debug, PartialEq, Eq)]
pub struct Config {
    pub archiver: ArchiverConfig,
    pub staging: StagingConfig,
    pub dropbox: Option<DropboxConfig>,
    pub vimeo: Option<VimeoConfig>,
    pub flysight: Option<Vec<FlysightConfig>>,
    pub gopro: Option<Vec<GoproConfig>>,
    pub mass_storage: Option<Vec<MassStorageConfig>>,
    pub local_backup: Option<Vec<LocalBackupConfig>>,
    pub sendgrid: Option<SendgridConfig>,
    pub pushover: Option<PushoverConfig>,
    pub web_notifications: Option<WebNotificationsConfig>,
}

/// A configuration under construction.
#[derive(Debug)]
pub struct ConfigBuilder {
    pub archiver: ArchiverConfig,
    pub staging: Option<StagingConfig>,
    pub dropbox: Option<DropboxConfig>,
    pub vimeo: Option<VimeoConfig>,
    pub flysight: Option<Vec<FlysightConfig>>,
    pub gopro: Option<Vec<GoproConfig>>,
    pub mass_storage: Option<Vec<MassStorageConfig>>,
    pub local_backup: Option<Vec<LocalBackupConfig>>,
    pub sendgrid: Option<SendgridConfig>,
    pub pushover: Option<PushoverConfig>,
    pub web_notifications: Option<WebNotificationsConfig>,
}

/// The entries of an optional list, none when there is no list.
pub open spec fn entries<T>(v: Option<Vec<T>>) -> Seq<T> {
    match v {
        Some(x) => x@,
        None => Seq::empty(),
    }
}

/// Whether a staging location is acceptable: a mountpoint must be absolute.
pub open spec fn staging_ok(staging: StagingConfig) -> bool {
    match staging.location@ {
        LocationView::Mountpoint(p) => is_absolute(p),
        LocationView::Label(_) => true,
    }
}

/// The outcome of checking `config`: the first failing check, in the order
/// backends, staging, api base.
pub open spec fn check_outcome(config: Config) -> Option<ConfigError> {
    if config.dropbox is None && config.vimeo is None {
        Some(ConfigError::MissingBackend)
    } else if !staging_ok(config.staging) {
        Some(ConfigError::RelativeStaging)
    } else {
        None
    }
}

/// What the check of a configuration decides, by its fields: with neither
/// Dropbox nor Vimeo configured it is refused for a missing backend; with
/// either one of them, a staging area given by label or by an absolute
/// mountpoint (one starting with `/`) passes, and a mountpoint that is not
/// absolute is refused as relative. A configuration without an api base has
/// no api base to refuse.
pub proof fn law_check_outcome(config: Config)
    ensures
        config.dropbox is None && config.vimeo is None ==> check_outcome(config) == Some(ConfigError::MissingBackend),
        (config.dropbox is Some || config.vimeo is Some) && (match config.staging.location {
            MountableDeviceLocation::Label(_) => true,
            MountableDeviceLocation::Mountpoint(p) => p@.len() > 0 && p@[0] == '/',
        }) ==> check_outcome(config) is None,
        (config.dropbox is Some || config.vimeo is Some) && (match config.staging.location {
            MountableDeviceLocation::Label(_) => false,
            MountableDeviceLocation::Mountpoint(p) => !(p@.len() > 0 && p@[0] == '/'),
        }) ==> check_outcome(config) == Some(ConfigError::RelativeStaging),
        config.archiver.api_base is None ==> api_base_ok(config),
{
}

/// Whether `config`'s api base, if it has one, is a url the url library accepts.
pub open spec fn api_base_ok(config: Config) -> bool {
    match config.archiver.api_base {
        Some(b) => url_accepts(b@),
        None => true,
    }
}

/// The refusal of the url library for an api base it does not accept.
pub open spec fn api_base_error(base: Seq<char>) -> ConfigError {
    ConfigError::InvalidApiBase(url_parsed(base)->Err_0)
}

/// `b` with the list in `field` extended by `item`.
pub open spec fn appended<T>(v: Option<Vec<T>>, item: T) -> Seq<T> {
    entries(v).push(item)
}

impl ConfigBuilder {
    /// Whether everything but the field named by `which` agrees between two builders.
    pub open spec fn same_except(self, other: ConfigBuilder, which: int) -> bool {
        &&& self.archiver == other.archiver
        &&& (which != 0 ==> self.staging == other.staging)
        &&& (which != 1 ==> self.dropbox == other.dropbox)
        &&& (which != 2 ==> self.vimeo == other.vimeo)
        &&& (which != 3 ==> self.flysight == other.flysight)
        &&& (which != 4 ==> self.gopro == other.gopro)
        &&& (which != 5 ==> self.mass_storage == other.mass_storage)
        &&& (which != 6 ==> self.local_backup == other.local_backup)
        &&& (which != 7 ==> self.sendgrid == other.sendgrid)
        &&& (which != 8 ==> self.pushover == other.pushover)
        &&& (which != 9 ==> self.web_notifications == other.web_notifications)
    }

    /// An empty builder: nothing configured.
    pub fn new() -> (b: ConfigBuilder)
        ensures
            b.archiver.api_base is None,
            b.archiver.api_token is None,
            b.staging is None,
            b.dropbox is None,
            b.vimeo is None,
            b.flysight is None,
            b.gopro is None,
            b.mass_storage is None,
            b.local_backup is None,
            b.sendgrid is None,
            b.pushover is None,
            b.web_notifications is None,
    {
        ConfigBuilder {
            archiver: ArchiverConfig::empty(),
            staging: None,
            dropbox: None,
            vimeo: None,
            flysight: None,
            gopro: None,
            mass_storage: None,
            local_backup: None,
            sendgrid: None,
            pushover: None,
            web_notifications: None,
        }
    }

    /// Set the staging location.
    pub fn staging(self, staging: StagingConfig) -> (b: ConfigBuilder)
        ensures
            b.staging == Some(staging),
            b.same_except(self, 0),
    {
        let mut b = self;
        b.staging = Some(staging);
        b
    }

    /// Set the dropbox API key. This enables dropbox support.
    pub fn dropbox(self, token: String) -> (b: ConfigBuilder)
        ensures
            b.dropbox == Some(DropboxConfig { token }),
            b.same_except(self, 1),
    {
        let mut b = self;
        b.dropbox = Some(DropboxConfig { token });
        b
    }

    /// Set the vimeo API key. This enables vimeo support.
    pub fn vimeo(self, token: String) -> (b: ConfigBuilder)
        ensures
            b.vimeo == Some(VimeoConfig { token }),
            b.same_except(self, 2),
    {
        let mut b = self;
        b.vimeo = Some(VimeoConfig { token });
        b
    }

    /// Add a flysight.
    pub fn flysight(self, flysight: FlysightConfig) -> (b: ConfigBuilder)
        ensures
            b.flysight is Some,
            entries(b.flysight) == appended(self.flysight, flysight),
            b.same_except(self, 3),
    {
        let mut b = self;
        let mut list = match b.flysight {
            Some(v) => v,
            None => Vec::new(),
        };
        list.push(flysight);
        b.flysight = Some(list);
        b
    }

    /// Add several flysights, in order.
    pub fn flysights(self, flysights: Vec<FlysightConfig>) -> (b: ConfigBuilder)
        ensures
            flysights.len() > 0 ==> b.flysight is Some,
            flysights.len() == 0 ==> b.flysight == self.flysight,
            entries(b.flysight) == entries(self.flysight) + flysights@,
            b.same_except(self, 3),
    {
        let mut b = self;
        let ghost start = entries(self.flysight);
        let mut items = flysights;
        let n = items.len();
        let mut i: usize = 0;
        while i < n
            invariant
                n == flysights@.len(),
                i <= n,
                items@ == flysights@.subrange(i as int, n as int),
                entries(b.flysight) == start + flysights@.subrange(0, i as int),
                i > 0 ==> b.flysight is Some,
                i == 0 ==> b.flysight == self.flysight,
                b.same_except(self, 3),
            decreases n - i,
        {
            let item = items.remove(0);
            b = b.flysight(item);
            i = i + 1;
            proof {
                assert(items@ =~= flysights@.subrange(i as int, n as int));
                assert(flysights@.subrange(0, i as int) =~= flysights@.subrange(0, i - 1).push(flysights@[i - 1]));
            }
        }
        assert(flysights@.subrange(0, n as int) =~= flysights@);
        b
    }

    /// Add a mass storage device.
    pub fn mass_storage(self, mass_storage: MassStorageConfig) -> (b: ConfigBuilder)
        ensures
            b.mass_storage is Some,
            entries(b.mass_storage) == appended(self.mass_storage, mass_storage),
            b.same_except(self, 5),
    {
        let mut b = self;
        let mut list = match b.mass_storage {
            Some(v) => v,
            None => Vec::new(),
        };
        list.push(mass_storage);
        b.mass_storage = Some(list);
        b
    }

    /// Add several mass storage devices, in order.
    pub fn mass_storages(self, mass_storages: Vec<MassStorageConfig>) -> (b: ConfigBuilder)
        ensures
            mass_storages.len() > 0 ==> b.mass_storage is Some,
            mass_storages.len() == 0 ==> b.mass_storage == self.mass_storage,
            entries(b.mass_storage) == entries(self.mass_storage) + mass_storages@,
            b.same_except(self, 5),
    {
        let mut b = self;
        let ghost start = entries(self.mass_storage);
        let mut items = mass_storages;
        let n = items.len();
        let mut i: usize = 0;
        while i < n
            invariant
                n == mass_storages@.len(),
                i <= n,
                items@ == mass_storages@.subrange(i as int, n as int),
                entries(b.mass_storage) == start + mass_storages@.subrange(0, i as int),
                i > 0 ==> b.mass_storage is Some,
                i == 0 ==> b.mass_storage == self.mass_storage,
                b.same_except(self, 5),
            decreases n - i,
        {
            let item = items.remove(0);
            b = b.mass_storage(item);
            i = i + 1;
            proof {
                assert(items@ =~= mass_storages@.subrange(i as int, n as int));
                assert(mass_storages@.subrange(0, i as int) =~= mass_storages@.subrange(0, i - 1).push(mass_storages@[i - 1]));
            }
        }
        assert(mass_storages@.subrange(0, n as int) =~= mass_storages@);
        b
    }

    /// Add a gopro.
    pub fn gopro(self, gopro: GoproConfig) -> (b: ConfigBuilder)
        ensures
            b.gopro is Some,
            entries(b.gopro) == appended(self.gopro, gopro),
            b.same_except(self, 4),
    {
        let mut b = self;
        let mut list = match b.gopro {
            Some(v) => v,
            None => Vec::new(),
        };
        list.push(gopro);
        b.gopro = Some(list);
        b
    }

    /// Add several gopros, in order.
    pub fn gopros(self, gopros: Vec<GoproConfig>) -> (b: ConfigBuilder)
        ensures
            gopros.len() > 0 ==> b.gopro is Some,
            gopros.len() == 0 ==> b.gopro == self.gopro,
            entries(b.gopro) == entries(self.gopro) + gopros@,
            b.same_except(self, 4),
    {
        let mut b = self;
        let ghost start = entries(self.gopro);
        let mut items = gopros;
        let n = items.len();
        let mut i: usize = 0;
        while i < n
            invariant
                n == gopros@.len(),
                i <= n,
                items@ == gopros@.subrange(i as int, n as int),
                entries(b.gopro) == start + gopros@.subrange(0, i as int),
                i > 0 ==> b.gopro is Some,
                i == 0 ==> b.gopro == self.gopro,
                b.same_except(self, 4),
            decreases n - i,
        {
            let item = items.remove(0);
            b = b.gopro(item);
            i = i + 1;
            proof {
                assert(items@ =~= gopros@.subrange(i as int, n as int));
                assert(gopros@.subrange(0, i as int) =~= gopros@.subrange(0, i - 1).push(gopros@[i - 1]));
            }
        }
        assert(gopros@.subrange(0, n as int) =~= gopros@);
        b
    }

    /// Add a local backup.
    pub fn local_backup(self, local_backup: LocalBackupConfig) -> (b: ConfigBuilder)
        ensures
            b.local_backup is Some,
            entries(b.local_backup) == appended(self.local_backup, local_backup),
            b.same_except(self, 6),
    {
        let mut b = self;
        let mut list = match b.local_backup {
            Some(v) => v,
            None => Vec::new(),
        };
        list.push(local_backup);
        b.local_backup = Some(list);
        b
    }

    /// Add several local backups, in order.
    pub fn local_backups(self, local_backups: Vec<LocalBackupConfig>) -> (b: ConfigBuilder)
        ensures
            local_backups.len() > 0 ==> b.local_backup is Some,
            local_backups.len() == 0 ==> b.local_backup == self.local_backup,
            entries(b.local_backup) == entries(self.local_backup) + local_backups@,
            b.same_except(self, 6),
    {
        let mut b = self;
        let ghost start = entries(self.local_backup);
        let mut items = local_backups;
        let n = items.len();
        let mut i: usize = 0;
        while i < n
            invariant
                n == local_backups@.len(),
                i <= n,
                items@ == local_backups@.subrange(i as int, n as int),
                entries(b.local_backup) == start + local_backups@.subrange(0, i as int),
                i > 0 ==> b.local_backup is Some,
                i == 0 ==> b.local_backup == self.local_backup,
                b.same_except(self, 6),
            decreases n - i,
        {
            let item = items.remove(0);
            b = b.local_backup(item);
            i = i + 1;
            proof {
                assert(items@ =~= local_backups@.subrange(i as int, n as int));
                assert(local_backups@.subrange(0, i as int) =~= local_backups@.subrange(0, i - 1).push(local_backups@[i - 1]));
            }
        }
        assert(local_backups@.subrange(0, n as int) =~= local_backups@);
        b
    }

    /// Configure and enable push notifications.
    pub fn pushover(self, pushover: PushoverConfig) -> (b: ConfigBuilder)
        ensures
            b.pushover == Some(pushover),
            b.same_except(self, 8),
    {
        let mut b = self;
        b.pushover = Some(pushover);
        b
    }

    /// Enable notifications through the web service.
    pub fn web_notifications(self) -> (b: ConfigBuilder)
        ensures
            b.web_notifications == Some(WebNotificationsConfig { enabled: true }),
            b.same_except(self, 9),
    {
        let mut b = self;
        b.web_notifications = Some(WebNotificationsConfig { enabled: true });
        b
    }

    /// Configure and enable mailed reports.
    pub fn sendgrid(self, sendgrid: SendgridConfig) -> (b: ConfigBuilder)
        ensures
            b.sendgrid == Some(sendgrid),
            b.same_except(self, 7),
    {
        let mut b = self;
        b.sendgrid = Some(sendgrid);
        b
    }

    /// The configuration this builder describes, once it has a staging
    /// location and passes the checks.
    pub fn finish(self) -> (r: Result<Config, ConfigError>)
        ensures
            self.staging is None ==> r == Err::<Config, ConfigError>(ConfigError::MissingStaging),
            self.staging is Some ==> match r {
                Ok(c) => check_outcome(c) is None && api_base_ok(c) && c == (Config {
                    archiver: self.archiver,
                    staging: self.staging->0,
                    dropbox: self.dropbox,
                    vimeo: self.vimeo,
                    flysight: self.flysight,
                    gopro: self.gopro,
                    mass_storage: self.mass_storage,
                    local_backup: self.local_backup,
                    sendgrid: self.sendgrid,
                    pushover: self.pushover,
                    web_notifications: self.web_notifications,
                }),
                Err(e) => {
                    let c = Config {
                        archiver: self.archiver,
                        staging: self.staging->0,
                        dropbox: self.dropbox,
                        vimeo: self.vimeo,
                        flysight: self.flysight,
                        gopro: self.gopro,
                        mass_storage: self.mass_storage,
                        local_backup: self.local_backup,
                        sendgrid: self.sendgrid,
                        pushover: self.pushover,
                        web_notifications: self.web_notifications,
                    };
                    match check_outcome(c) {
                        Some(expected) => e == expected,
                        None => !api_base_ok(c) && e == api_base_error(c.archiver.api_base->Some_0@),
                    }
                },
            },
    {
        let staging = match self.staging {
            Some(staging) => staging,
            None => return Err(ConfigError::MissingStaging),
        };
        Config::check_config(Config {
            archiver: self.archiver,
            staging: staging,
            dropbox: self.dropbox,
            vimeo: self.vimeo,
            flysight: self.flysight,
            gopro: self.gopro,
            local_backup: self.local_backup,
            mass_storage: self.mass_storage,
            sendgrid: self.sendgrid,
            pushover: self.pushover,
            web_notifications: self.web_notifications,
        })
    }
}

/// The backend a configuration asks to upload to.
#[derive(Debug, PartialEq, Eq)]
pub enum BackendPlan {
    /// A local backup, to be mounted before use.
    LocalBackup(LocalBackupConfig),
    /// Dropbox, with its token.
    Dropbox(String),
    /// Vimeo, with its token.
    Vimeo(String),
}

/// The backend plans as text, in order.
pub open spec fn backend_view(b: BackendPlan) -> (int, LocationView, Seq<char>) {
    match b {
        BackendPlan::LocalBackup(l) => (0, l@, Seq::empty()),
        BackendPlan::Dropbox(t) => (1, LocationView::Label(Seq::empty()), t@),
        BackendPlan::Vimeo(t) => (2, LocationView::Label(Seq::empty()), t@),
    }
}

/// The backends of a configuration: each local backup in order, then dropbox,
/// then vimeo, each when configured.
pub open spec fn backends_of(c: Config) -> Seq<(int, LocationView, Seq<char>)> {
    entries(c.local_backup).map_values(|l: LocalBackupConfig| (0int, l@, Seq::<char>::empty()))
        + match c.dropbox {
            Some(d) => seq![(1int, LocationView::Label(Seq::empty()), d.token@)],
            None => Seq::empty(),
        }
        + match c.vimeo {
            Some(v) => seq![(2int, LocationView::Label(Seq::empty()), v.token@)],
            None => Seq::empty(),
        }
}

/// The notifier a configuration asks for.
#[derive(Debug, PartialEq, Eq)]
pub enum NotifierPlan {
    /// Notify through the web service.
    Web,
    /// Push notifications.
    Pushover(PushoverNotifier),
    /// No notifications.
    Nothing,
}

impl Config {
    /// A builder to construct a configuration with.
    pub fn build() -> (b: ConfigBuilder)
        ensures
            b.staging is None,
            b.dropbox is None,
            b.vimeo is None,
            b.flysight is None,
            b.gopro is None,
            b.mass_storage is None,
            b.local_backup is None,
            b.sendgrid is None,
            b.pushover is None,
            b.web_notifications is None,
            b.archiver.api_base is None,
            b.archiver.api_token is None,
    {
        ConfigBuilder::new()
    }

    /// Checks that a staging location is acceptable.
    pub fn check_staging(staging: &StagingConfig) -> (r: Result<(), ConfigError>)
        ensures
            r is Ok <==> staging_ok(*staging),
            r is Err ==> r == Err::<(), ConfigError>(ConfigError::RelativeStaging),
    {
        match &staging.location {
            MountableDeviceLocation::Mountpoint(pb) => {
                if is_relative(pb.as_str()) {
                    return Err(ConfigError::RelativeStaging);
                }
            },
            MountableDeviceLocation::Label(_) => {},
        }
        Ok(())
    }

    /// Checks a parsed configuration: a backend must be configured, a staging
    /// mountpoint must be absolute, and an api base must be a url.
    pub fn check_config(config: Config) -> (r: Result<Config, ConfigError>)
        ensures
            match r {
                Ok(c) => c == config && check_outcome(config) is None && api_base_ok(config),
                Err(e) => match check_outcome(config) {
                    Some(expected) => e == expected,
                    None => !api_base_ok(config) && e == api_base_error(config.archiver.api_base->Some_0@),
                },
            },
    {
        if config.dropbox.is_none() && config.vimeo.is_none() {
            return Err(ConfigError::MissingBackend);
        }
        match Config::check_staging(&config.staging) {
            Ok(()) => {},
            Err(e) => return Err(e),
        }
        match &config.archiver.api_base {
            Some(base) => {
                match url_parse(base.as_str()) {
                    Ok(_) => {},
                    Err(err) => return Err(ConfigError::InvalidApiBase(err)),
                }
            },
            None => {},
        }
        Ok(config)
    }

    /// The api base of this configuration, or the default one.
    pub fn api_base(&self) -> (b: &str)
        ensures
            b@ == match self.archiver.api_base {
                Some(x) => x@,
                None => DEFAULT_API_BASE@,
            },
    {
        match &self.archiver.api_base {
            Some(base) => base.as_str(),
            None => DEFAULT_API_BASE,
        }
    }

    /// The configured mass storage devices (none when there are none).
    pub fn mass_storages(&self) -> (v: &[MassStorageConfig])
        ensures
            v@ == entries(self.mass_storage),
    {
        match &self.mass_storage {
            Some(v) => v.as_slice(),
            None => &[],
        }
    }

    /// The configured flysights (none when there are none).
    pub fn flysights(&self) -> (v: &[FlysightConfig])
        ensures
            v@ == entries(self.flysight),
    {
        match &self.flysight {
            Some(v) => v.as_slice(),
            None => &[],
        }
    }

    /// The configured gopros (none when there are none).
    pub fn gopros(&self) -> (v: &[GoproConfig])
        ensures
            v@ == entries(self.gopro),
    {
        match &self.gopro {
            Some(v) => v.as_slice(),
            None => &[],
        }
    }

    /// A copy of the configured staging location.
    pub fn staging(&self) -> (s: StagingConfig)
        ensures
            s@ == self.staging@,
    {
        self.staging.duplicate()
    }

    /// The notifier to use: the web service when it is enabled and a client
    /// for it could be made (`web_available`), else push notifications when
    /// configured, else none.
    pub fn notifier(&self, web_available: bool) -> (n: NotifierPlan)
        ensures
            match n {
                NotifierPlan::Web => self.web_notifications is Some
                    && self.web_notifications->0.enabled && web_available,
                NotifierPlan::Pushover(p) => !(self.web_notifications is Some
                    && self.web_notifications->0.enabled && web_available)
                    && self.pushover is Some && p.token@ == self.pushover->0.token@
                    && p.recipient@ == self.pushover->0.recipient@,
                NotifierPlan::Nothing => !(self.web_notifications is Some
                    && self.web_notifications->0.enabled && web_available)
                    && self.pushover is None,
            },
    {
        match &self.web_notifications {
            Some(web) => {
                if web.enabled && web_available {
                    return NotifierPlan::Web;
                }
            },
            None => {},
        }
        match &self.pushover {
            Some(p) => NotifierPlan::Pushover(
                PushoverNotifier::new(copy_string(&p.token), copy_string(&p.recipient)),
            ),
            None => NotifierPlan::Nothing,
        }
    }

    /// The mailer for upload reports, when one is configured.
    pub fn mailer(&self) -> (m: Option<SendgridMailer>)
        ensures
            m is Some <==> self.sendgrid is Some,
            m is Some ==> {
                let s = self.sendgrid->0;
                let x = m->0;
                x.token@ == s.token@ && x.from@ == s.from@ && x.to@ == s.to@ && x.subject@ == s.subject@
            },
    {
        match &self.sendgrid {
            Some(s) => Some(
                SendgridMailer::new(
                    copy_string(&s.token),
                    copy_string(&s.from),
                    copy_string(&s.to),
                    copy_string(&s.subject),
                ),
            ),
            None => None,
        }
    }

    /// All configured backends: each local backup, then dropbox, then vimeo.
    pub fn backends(&self) -> (out: Vec<BackendPlan>)
        ensures
            out@.map_values(|b: BackendPlan| backend_view(b)) == backends_of(*self),
    {
        let mut out: Vec<BackendPlan> = Vec::new();
        let ghost locals = entries(self.local_backup);
        match &self.local_backup {
            Some(v) => {
                let mut i: usize = 0;
                while i < v.len()
                    invariant
                        i <= v.len(),
                        out@.len() == i,
                        v@ == locals,
                        out@.map_values(|b: BackendPlan| backend_view(b)) == locals.subrange(
                            0,
                            i as int,
                        ).map_values(|l: LocalBackupConfig| (0int, l@, Seq::<char>::empty())),
                    decreases v.len() - i,
                {
                    let d = v[i].duplicate();
                    let ghost prev = out@;
                    out.push(BackendPlan::LocalBackup(d));
                    proof {
                        let lhs = out@.map_values(|b: BackendPlan| backend_view(b));
                        let rhs = locals.subrange(0, i + 1).map_values(
                            |l: LocalBackupConfig| (0int, l@, Seq::<char>::empty()),
                        );
                        assert forall|j: int| 0 <= j < i + 1 implies lhs[j] == rhs[j] by {
                            if j < i {
                                assert(out@[j] == prev[j]);
                                assert(prev.map_values(|b: BackendPlan| backend_view(b))[j] == lhs[j]);
                            }
                        }
                        assert(lhs =~= rhs);
                    }
                    i = i + 1;
                }
                assert(locals.subrange(0, v.len() as int) =~= locals);
            },
            None => {},
        }
        let ghost after_locals = out@.map_values(|b: BackendPlan| backend_view(b));
        match &self.dropbox {
            Some(d) => {
                out.push(BackendPlan::Dropbox(copy_string(&d.token)));
            },
            None => {},
        }
        let ghost after_dropbox = out@.map_values(|b: BackendPlan| backend_view(b));
        match &self.vimeo {
            Some(v) => {
                out.push(BackendPlan::Vimeo(copy_string(&v.token)));
            },
            None => {},
        }
        assert(out@.map_values(|b: BackendPlan| backend_view(b)) =~= backends_of(*self));
        out
    }
}

} // verus!
