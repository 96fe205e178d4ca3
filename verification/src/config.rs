//! The configuration model, its documented defaults, and the checks made on
//! a loaded configuration.  Reading and writing `config.toml` is the
//! application's part.

use vstd::prelude::*;

verus! {

/// The whole configuration.
#[derive(Debug)]
pub struct Config {
    pub server: ServerConfig,
    pub client: ClientConfig,
    pub tls: TlsConfig,
    pub history: HistoryConfig,
    pub clipboard: ClipboardConfig,
    pub protocol: ProtocolConfig,
    pub logging: LoggingConfig,
}

/// `[server]`: where the server listens, and whether it advertises itself.
#[derive(Debug)]
pub struct ServerConfig {
    pub bind: String,
    pub mdns: bool,
}

/// `[client]`: the server to connect to; `auto` means mDNS discovery.
#[derive(Debug)]
pub struct ClientConfig {
    pub server: String,
}

/// `[tls]`: transport security settings.
#[derive(Debug)]
pub struct TlsConfig {
    pub enabled: bool,
    pub cert: String,
    pub key: String,
    pub ca: String,
}

/// `[history]`: how many entries to keep, and whether to keep them on disk.
#[derive(Debug)]
pub struct HistoryConfig {
    pub max_entries: usize,
    pub persist: bool,
}

/// `[clipboard]`: the largest content shared, and how often to poll.
#[derive(Debug)]
pub struct ClipboardConfig {
    pub max_size_mb: usize,
    pub poll_interval_ms: u64,
}

/// `[protocol]`: the largest frame on the wire.
#[derive(Debug)]
pub struct ProtocolConfig {
    pub max_frame_size_mb: usize,
}

/// `[logging]`: the log file (none for stdout only) and the log level.
#[derive(Debug)]
pub struct LoggingConfig {
    pub file: Option<String>,
    pub level: String,
}

fn default_bind() -> (s: String)
    ensures
        s@ == "0.0.0.0:9090"@,
{
    String::from_str("0.0.0.0:9090")
}

fn default_server() -> (s: String)
    ensures
        s@ == "auto"@,
{
    String::from_str("auto")
}

fn default_true() -> (b: bool)
    ensures
        b,
{
    true
}

fn default_max_entries() -> (n: usize)
    ensures
        n == 100,
{
    100
}

fn default_max_size_mb() -> (n: usize)
    ensures
        n == 10,
{
    10
}

fn default_poll_interval_ms() -> (n: u64)
    ensures
        n == 500,
{
    500
}

fn default_max_frame_size_mb() -> (n: usize)
    ensures
        n == 16,
{
    16
}

fn default_log_file() -> (f: Option<String>)
    ensures
        f matches Some(p) && p@ == "/var/log/clipchamp/clipchamp.log"@,
{
    Some(String::from_str("/var/log/clipchamp/clipchamp.log"))
}

fn default_log_level() -> (s: String)
    ensures
        s@ == "info"@,
{
    String::from_str("info")
}

impl ServerConfig {
    pub open spec fn is_default(&self) -> bool {
        self.bind@ == "0.0.0.0:9090"@ && self.mdns
    }
}

impl ClientConfig {
    pub open spec fn is_default(&self) -> bool {
        self.server@ == "auto"@
    }
}

impl TlsConfig {
    pub open spec fn is_default(&self) -> bool {
        !self.enabled && self.cert@ == Seq::<char>::empty() && self.key@ == Seq::<char>::empty()
            && self.ca@ == Seq::<char>::empty()
    }
}

impl HistoryConfig {
    pub open spec fn is_default(&self) -> bool {
        self.max_entries == 100 && self.persist
    }
}

impl ClipboardConfig {
    pub open spec fn is_default(&self) -> bool {
        self.max_size_mb == 10 && self.poll_interval_ms == 500
    }
}

impl ProtocolConfig {
    pub open spec fn is_default(&self) -> bool {
        self.max_frame_size_mb == 16
    }
}

impl LoggingConfig {
    pub open spec fn is_default(&self) -> bool {
        (self.file matches Some(p) && p@ == "/var/log/clipchamp/clipchamp.log"@) && self.level@
            == "info"@
    }
}

impl Config {
    pub open spec fn is_default(&self) -> bool {
        &&& self.server.is_default()
        &&& self.client.is_default()
        &&& self.tls.is_default()
        &&& self.history.is_default()
        &&& self.clipboard.is_default()
        &&& self.protocol.is_default()
        &&& self.logging.is_default()
    }
}

impl Default for ServerConfig {
    fn default() -> (c: Self)
        ensures
            c.is_default(),
    {
        Self { bind: default_bind(), mdns: true }
    }
}

impl Default for ClientConfig {
    fn default() -> (c: Self)
        ensures
            c.is_default(),
    {
        Self { server: default_server() }
    }
}

impl Default for TlsConfig {
    fn default() -> (c: Self)
        ensures
            c.is_default(),
    {
        Self { enabled: false, cert: String::new(), key: String::new(), ca: String::new() }
    }
}

impl Default for HistoryConfig {
    fn default() -> (c: Self)
        ensures
            c.is_default(),
    {
        Self { max_entries: default_max_entries(), persist: default_true() }
    }
}

impl Default for ClipboardConfig {
    fn default() -> (c: Self)
        ensures
            c.is_default(),
    {
        Self { max_size_mb: default_max_size_mb(), poll_interval_ms: default_poll_interval_ms() }
    }
}

impl Default for ProtocolConfig {
    fn default() -> (c: Self)
        ensures
            c.is_default(),
    {
        Self { max_frame_size_mb: default_max_frame_size_mb() }
    }
}

impl Default for LoggingConfig {
    fn default() -> (c: Self)
        ensures
            c.is_default(),
    {
        Self { file: default_log_file(), level: default_log_level() }
    }
}

impl Default for Config {
    fn default() -> (c: Self)
        ensures
            c.is_default(),
    {
        Self {
            server: ServerConfig::default(),
            client: ClientConfig::default(),
            tls: TlsConfig::default(),
            history: HistoryConfig::default(),
            clipboard: ClipboardConfig::default(),
            protocol: ProtocolConfig::default(),
            logging: LoggingConfig::default(),
        }
    }
}

/// A problem found in a loaded configuration; it is reported, and the
/// program carries on.
#[derive(Debug)]
pub enum ConfigWarning {
    /// Clipboard content may be larger than a frame can carry, so large
    /// entries are rejected at the protocol layer.
    ClipboardExceedsFrame { max_size_mb: usize, max_frame_size_mb: usize },
    /// The log level is not one of the five known ones; `info` is used.
    InvalidLogLevel { level: String },
}

/// What `str::to_lowercase` makes of a text.
pub uninterp spec fn lowercase_of(s: Seq<char>) -> Seq<char>;

/// `str::to_lowercase`: the text in lowercase, by Unicode's rules.
/// Claimed: the result is a function of the text.
#[verifier::external_body]
fn to_lowercase(s: &str) -> (r: String)
    ensures
        r@ == lowercase_of(s@),
{
    s.to_lowercase()
}

/// Whether a (lowercase) name is one of the five log levels.
pub open spec fn is_log_level_name(name: Seq<char>) -> bool {
    name == "trace"@ || name == "debug"@ || name == "info"@ || name == "warn"@ || name == "error"@
}

/// Whether `name` is one of `trace`, `debug`, `info`, `warn`, `error`.
pub fn is_log_level(name: &str) -> (r: bool)
    ensures
        r == is_log_level_name(name@),
{
    let n = String::from_str(name);
    n == String::from_str("trace") || n == String::from_str("debug") || n == String::from_str(
        "info",
    ) || n == String::from_str("warn") || n == String::from_str("error")
}

/// `mb` mebibytes in bytes.
pub fn mib_to_bytes(mb: usize) -> (n: usize)
    requires
        mb * 1048576 <= usize::MAX,
    ensures
        n == mb * 1048576,
{
    mb * 1024 * 1024
}

impl Config {
    /// Whether shared clipboard content may exceed the frame limit.
    pub open spec fn clipboard_exceeds_frame(&self) -> bool {
        self.clipboard.max_size_mb > self.protocol.max_frame_size_mb
    }

    /// Whether the log level, read without regard to case, is unknown.
    pub open spec fn log_level_invalid(&self) -> bool {
        !is_log_level_name(lowercase_of(self.logging.level@))
    }

    /// The problems of this configuration, in this order: clipboard content
    /// allowed to be larger than a frame, and an unknown log level.
    pub fn validate(&self) -> (w: Vec<ConfigWarning>)
        ensures
            w@.len() == (if self.clipboard_exceeds_frame() { 1int } else { 0int }) + (if self.log_level_invalid() {
                1int
            } else {
                0int
            }),
            (w@.len() > 0 && w@[0] is ClipboardExceedsFrame) <==> self.clipboard.max_size_mb
                > self.protocol.max_frame_size_mb,
            self.clipboard_exceeds_frame() ==> w@[0] == (ConfigWarning::ClipboardExceedsFrame {
                max_size_mb: self.clipboard.max_size_mb,
                max_frame_size_mb: self.protocol.max_frame_size_mb,
            }),
            self.log_level_invalid() ==> (w@.last() matches ConfigWarning::InvalidLogLevel { level }
                && level@ == self.logging.level@),
    {
        let mut w: Vec<ConfigWarning> = Vec::new();
        if self.clipboard.max_size_mb > self.protocol.max_frame_size_mb {
            w.push(
                ConfigWarning::ClipboardExceedsFrame {
                    max_size_mb: self.clipboard.max_size_mb,
                    max_frame_size_mb: self.protocol.max_frame_size_mb,
                },
            );
        }
        let lower = to_lowercase(self.logging.level.as_str());
        if !is_log_level(lower.as_str()) {
            w.push(ConfigWarning::InvalidLogLevel { level: self.logging.level.clone() });
        }
        w
    }
}

/// When `validate` warns: about the clipboard limit exactly when it is
/// larger than the configured frame limit, and about the log level exactly
/// when its lowercase form is none of the five level names.
pub proof fn lemma_validate_warns_exactly(c: Config)
    ensures
        c.clipboard_exceeds_frame() <==> c.clipboard.max_size_mb > c.protocol.max_frame_size_mb,
        c.log_level_invalid() <==> !(lowercase_of(c.logging.level@) == "trace"@ || lowercase_of(
            c.logging.level@,
        ) == "debug"@ || lowercase_of(c.logging.level@) == "info"@ || lowercase_of(c.logging.level@)
            == "warn"@ || lowercase_of(c.logging.level@) == "error"@),
{
}

} // verus!
