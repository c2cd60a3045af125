//! Configurable knobs and their related errors.
use vstd::prelude::*;

verus! {

/// Where temporary files of an install are placed.
pub const SCRATCH_DIR: &'static str = "/nix/temp-install-dir";

/// The default name of the build users' group.
pub const DEFAULT_NIX_BUILD_USER_GROUP_NAME: &'static str = "nixbld";

/// The init system that runs the daemon.
#[derive(Clone, Copy, Debug, PartialEq, Eq, Structural)]
pub enum InitSystem {
    NoInit,
    Systemd,
    Launchd,
}

impl InitSystem {
    /// The name of the init system, as written on the command line.
    pub fn as_str(&self) -> (r: &'static str)
        ensures
            *self == InitSystem::NoInit ==> r@ == "none"@,
            *self == InitSystem::Systemd ==> r@ == "systemd"@,
            *self == InitSystem::Launchd ==> r@ == "launchd"@,
    {
        proof {
            reveal_strlit("none");
            reveal_strlit("systemd");
            reveal_strlit("launchd");
        }
        match self {
            InitSystem::NoInit => "none",
            InitSystem::Systemd => "systemd",
            InitSystem::Launchd => "launchd",
        }
    }
}

/// The processor architecture of the host, as far as the defaults care.
#[derive(Clone, Copy, Debug, PartialEq, Eq, Structural)]
pub enum HostArchitecture {
    X86_64,
    X86_32,
    Aarch64,
    Other,
}

/// The operating system of the host, as far as the defaults care.
#[derive(Clone, Copy, Debug, PartialEq, Eq, Structural)]
pub enum HostOs {
    Linux,
    /// macOS, also when reported as Darwin.
    MacOs,
    Other,
}

/// Whether the defaults know the pair of architecture and operating system.
pub open spec fn supported(arch: HostArchitecture, os: HostOs) -> bool {
    ||| os == HostOs::Linux && arch != HostArchitecture::Other
    ||| os == HostOs::MacOs && (arch == HostArchitecture::X86_64 || arch == HostArchitecture::Aarch64)
}

/// An error originating from the settings.
#[derive(Clone, Debug)]
pub enum InstallSettingsError {
    /// The host's target triple is not supported.
    UnsupportedArchitecture(String),
    /// A URL could not be parsed: the cause.
    Parse(String),
    /// Serializing or deserializing failed: the cause.
    SerdeJson(String),
    /// No supported init system was found.
    InitNotSupported,
}

/// An extra configuration entry: a URL, an existing path, or plain text.
#[derive(Clone, Debug, PartialEq, Eq, PartialOrd, Ord)]
pub enum UrlOrPathOrString {
    Url(String),
    Path(String),
    String(String),
}

/// What reading a text as an absolute URL gave.
#[derive(Clone, Debug)]
pub enum UrlReading {
    /// It is a URL; its normalized text.
    Url(String),
    /// It has no scheme, so it reads as a relative reference.
    RelativeWithoutBase,
    /// It is malformed: the cause.
    Invalid(String),
}

/// What reading a text as an absolute URL gives, as plain values.
pub enum UrlReadingView {
    Url(Seq<char>),
    RelativeWithoutBase,
    Invalid(Seq<char>),
}

impl View for UrlReading {
    type V = UrlReadingView;

    open spec fn view(&self) -> UrlReadingView {
        match self {
            UrlReading::Url(t) => UrlReadingView::Url(t@),
            UrlReading::RelativeWithoutBase => UrlReadingView::RelativeWithoutBase,
            UrlReading::Invalid(c) => UrlReadingView::Invalid(c@),
        }
    }
}

/// How the text `s` reads as an absolute URL: its normalized text, a relative
/// reference without a base, or the description of what is malformed.
pub uninterp spec fn url_reading_of(s: Seq<char>) -> UrlReadingView;

/// Relies on `url::Url::parse`: the outcome, the normalized text of a URL and
/// the description of a parse error depend on the input alone;
/// `RelativeUrlWithoutBase` is the error for a text without a scheme.
#[verifier::external_body]
fn read_url(s: &str) -> (r: UrlReading)
    ensures
        r@ == url_reading_of(s@),
{
    match url::Url::parse(s) {
        Ok(u) => UrlReading::Url(u.to_string()),
        Err(url::ParseError::RelativeUrlWithoutBase) => UrlReading::RelativeWithoutBase,
        Err(e) => UrlReading::Invalid(e.to_string()),
    }
}

impl UrlOrPathOrString {
    /// Classify the text `s`, given how it read as a URL and whether a path
    /// named `s` exists: a URL, else an existing path, else plain text. A
    /// malformed URL is an error.
    pub fn classify(s: &str, reading: UrlReading, path_exists: bool) -> (r: Result<Self, InstallSettingsError>)
        ensures
            reading is Url ==> r == Ok::<Self, InstallSettingsError>(UrlOrPathOrString::Url(reading->Url_0)),
            reading is RelativeWithoutBase && path_exists ==> r is Ok && r->Ok_0 is Path && r->Ok_0->Path_0@ == s@,
            reading is RelativeWithoutBase && !path_exists ==> r is Ok && r->Ok_0 is String && r->Ok_0->String_0@ == s@,
            reading is Invalid ==> r == Err::<Self, InstallSettingsError>(InstallSettingsError::Parse(reading->Invalid_0)),
    {
        match reading {
            UrlReading::Url(text) => Ok(UrlOrPathOrString::Url(text)),
            UrlReading::RelativeWithoutBase => {
                if path_exists {
                    Ok(UrlOrPathOrString::Path(s.to_string()))
                } else {
                    Ok(UrlOrPathOrString::String(s.to_string()))
                }
            },
            UrlReading::Invalid(cause) => Err(InstallSettingsError::Parse(cause)),
        }
    }

    /// Read the text `s`, where `path_exists` says whether a path named `s`
    /// exists: a URL, else an existing path, else plain text.
    pub fn from_str(s: &str, path_exists: bool) -> (r: Result<Self, InstallSettingsError>)
        ensures
            match url_reading_of(s@) {
                UrlReadingView::Url(text) => r is Ok && r->Ok_0 is Url && r->Ok_0->Url_0@ == text,
                UrlReadingView::RelativeWithoutBase => r is Ok && if path_exists {
                    r->Ok_0 is Path && r->Ok_0->Path_0@ == s@
                } else {
                    r->Ok_0 is String && r->Ok_0->String_0@ == s@
                },
                UrlReadingView::Invalid(cause) => r is Err && r->Err_0 is Parse && r->Err_0->Parse_0@ == cause,
            },
    {
        let reading = read_url(s);
        Self::classify(s, reading, path_exists)
    }
}

/// The default base UID of the build users on `os`.
pub fn default_nix_build_user_id_base(os: HostOs) -> (r: u32)
    ensures
        r == (if os == HostOs::MacOs { 350u32 } else { 30_000u32 }),
{
    match os {
        HostOs::MacOs => 350,
        _ => 30_000,
    }
}

/// The default GID of the build users' group on `os`.
pub fn default_nix_build_group_id(os: HostOs) -> (r: u32)
    ensures
        r == (if os == HostOs::MacOs { 350u32 } else { 30_000u32 }),
{
    match os {
        HostOs::MacOs => 350,
        _ => 30_000,
    }
}

/// Settings shared by every planner.
#[derive(Clone, Debug)]
pub struct CommonSettings {
    /// Modify the user profile to automatically load the runtime.
    pub modify_profile: bool,
    /// The build users' group name.
    pub nix_build_group_name: String,
    /// The build users' group GID.
    pub nix_build_group_id: u32,
    /// The build user name prefix; user numbers are appended.
    pub nix_build_user_prefix: String,
    /// How many build users to create.
    pub nix_build_user_count: u32,
    /// The first build user UID.
    pub nix_build_user_id_base: u32,
    /// A certificate file to use.
    pub ssl_cert_file: Option<String>,
    /// Extra configuration entries.
    pub extra_conf: Vec<UrlOrPathOrString>,
    /// Recreate files that already exist.
    pub force: bool,
    /// Skip writing the configuration file.
    pub skip_nix_conf: bool,
    /// Set up the system channel.
    pub add_channel: bool,
}

impl CommonSettings {
    /// The default settings for a host with `arch` and `os`, whose target
    /// triple reads `triple`.
    pub fn default(arch: HostArchitecture, os: HostOs, triple: String) -> (r: Result<Self, InstallSettingsError>)
        ensures
            r is Ok <==> supported(arch, os),
            r is Err ==> r->Err_0 == InstallSettingsError::UnsupportedArchitecture(triple),
            r is Ok ==> {
                let s = r->Ok_0;
                &&& s.nix_build_user_prefix@ == (if os == HostOs::MacOs { "_nixbld"@ } else { "nixbld"@ })
                &&& s.nix_build_group_name@ == DEFAULT_NIX_BUILD_USER_GROUP_NAME@
                &&& s.nix_build_group_id == (if os == HostOs::MacOs { 350u32 } else { 30_000u32 })
                &&& s.nix_build_user_id_base == (if os == HostOs::MacOs { 350u32 } else { 30_000u32 })
                &&& s.nix_build_user_count == 32
                &&& s.modify_profile
                &&& s.ssl_cert_file is None
                &&& s.extra_conf@.len() == 0
                &&& !s.force && !s.skip_nix_conf && !s.add_channel
            },
    {
        proof {
            reveal_strlit("_nixbld");
            reveal_strlit("nixbld");
        }
        let prefix: &'static str = match (arch, os) {
            (HostArchitecture::X86_64, HostOs::Linux) => "nixbld",
            (HostArchitecture::X86_32, HostOs::Linux) => "nixbld",
            (HostArchitecture::Aarch64, HostOs::Linux) => "nixbld",
            (HostArchitecture::X86_64, HostOs::MacOs) => "_nixbld",
            (HostArchitecture::Aarch64, HostOs::MacOs) => "_nixbld",
            _ => return Err(InstallSettingsError::UnsupportedArchitecture(triple)),
        };
        Ok(CommonSettings {
            modify_profile: true,
            nix_build_group_name: DEFAULT_NIX_BUILD_USER_GROUP_NAME.to_string(),
            nix_build_group_id: default_nix_build_group_id(os),
            nix_build_user_id_base: default_nix_build_user_id_base(os),
            nix_build_user_count: 32,
            nix_build_user_prefix: prefix.to_string(),
            ssl_cert_file: None,
            extra_conf: Vec::new(),
            force: false,
            skip_nix_conf: false,
            add_channel: false,
        })
    }
}

/// Settings of the init system that runs the daemon.
#[derive(Clone, Copy, Debug)]
pub struct InitSettings {
    /// Which init system to configure.
    pub init: InitSystem,
    /// Start the daemon, if an init system is configured.
    pub start_daemon: bool,
}

impl InitSettings {
    /// The default settings for a host with `arch` and `os`, whose target
    /// triple reads `triple`; `systemd_started` says whether systemd is
    /// running there, which only matters on Linux.
    pub fn default(arch: HostArchitecture, os: HostOs, triple: String, systemd_started: bool) -> (r: Result<Self, InstallSettingsError>)
        ensures
            r is Ok <==> supported(arch, os),
            r is Err ==> r->Err_0 == InstallSettingsError::UnsupportedArchitecture(triple),
            r is Ok && os == HostOs::Linux ==> r->Ok_0.init == InitSystem::Systemd && r->Ok_0.start_daemon == systemd_started,
            r is Ok && os == HostOs::MacOs ==> r->Ok_0.init == InitSystem::Launchd && r->Ok_0.start_daemon,
    {
        match (arch, os) {
            (HostArchitecture::X86_64, HostOs::Linux) => Ok(InitSettings { init: InitSystem::Systemd, start_daemon: systemd_started }),
            (HostArchitecture::X86_32, HostOs::Linux) => Ok(InitSettings { init: InitSystem::Systemd, start_daemon: systemd_started }),
            (HostArchitecture::Aarch64, HostOs::Linux) => Ok(InitSettings { init: InitSystem::Systemd, start_daemon: systemd_started }),
            (HostArchitecture::X86_64, HostOs::MacOs) => Ok(InitSettings { init: InitSystem::Launchd, start_daemon: true }),
            (HostArchitecture::Aarch64, HostOs::MacOs) => Ok(InitSettings { init: InitSystem::Launchd, start_daemon: true }),
            _ => Err(InstallSettingsError::UnsupportedArchitecture(triple)),
        }
    }

    /// Which init system to configure.
    pub fn init(&mut self, init: InitSystem) -> (r: &mut Self)
        ensures
            r.init == init,
            r.start_daemon == old(self).start_daemon,
            *final(self) == *final(r),
    {
        self.init = init;
        self
    }

    /// Start the daemon (if one is configured).
    pub fn start_daemon(&mut self, toggle: bool) -> (r: &mut Self)
        ensures
            r.start_daemon == toggle,
            r.init == old(self).init,
            *final(self) == *final(r),
    {
        self.start_daemon = toggle;
        self
    }
}

} // verus!
