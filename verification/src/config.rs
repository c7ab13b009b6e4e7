//! The settings: read from `~/.config/gamescope-idle/config.toml` if that file is
//! there, otherwise sensible defaults.

use crate::opacity::Opacity;
use crate::paths::{has_suffix, join, spec_join};
use crate::time::Duration;
use vstd::prelude::*;
use vstd::utf8::encode_utf8;

verus! {

/// How to treat HDMI-CEC.
#[derive(Debug, Clone, Copy, PartialEq, Eq, Structural)]
pub enum CecMode {
    /// Use CEC standby and wake only if a `/dev/cec*` device is present.
    Auto,
    /// Never touch CEC; overlay only.
    Off,
    /// Always attempt CEC (log an error if no device is found).
    On,
}

impl Default for CecMode {
    fn default() -> (r: CecMode)
        ensures
            r == CecMode::Auto,
    {
        CecMode::Auto
    }
}

/// The settings of the daemon.
#[derive(Debug, Clone)]
pub struct Config {
    /// Seconds of no keyboard or controller input before blanking begins.
    pub idle_timeout: u64,
    /// Seconds spent dimmed as a warning before going fully black. Zero goes
    /// straight to black.
    pub dim_warning: u64,
    /// Opacity of the dim warning.
    pub dim_alpha: Opacity,
    /// CEC behaviour.
    pub cec: CecMode,
    /// CEC device path.
    pub cec_device: String,
    /// Input device event-node names to ignore, such as `event0`.
    pub ignore_devices: Vec<String>,
    /// Whether to watch controllers over hidraw, for the Steam launcher.
    pub watch_hidraw: bool,
}

impl Default for Config {
    /// Five minutes, a half-dark warning of thirty seconds, CEC where there is
    /// an adapter, and no device left out.
    fn default() -> (c: Config)
        ensures
            c.is_default(),
    {
        Config {
            idle_timeout: 300,
            dim_warning: 30,
            dim_alpha: Opacity { level: 128, visible: true },
            cec: CecMode::Auto,
            cec_device: "/dev/cec0".to_owned(),
            ignore_devices: Vec::new(),
            watch_hidraw: true,
        }
    }
}

/// What became of the attempt to read the settings.
pub enum Source {
    /// No path was given, and the system has no place for one.
    NoPath,
    /// There is no file at the path.
    Missing,
    /// The file at `path` could not be read.
    Unreadable { path: String, error: String },
    /// The file was read, but it does not hold settings.
    Invalid { error: String },
    /// The file holds these settings.
    Parsed(Config),
}

/// Why there are no settings.
pub enum LoadError {
    /// The file could not be read.
    Unreadable { path: String, error: String },
    /// The file does not hold settings.
    Invalid { error: String },
}

impl LoadError {
    /// The message for the user.
    pub open spec fn text(self) -> Seq<char> {
        match self {
            LoadError::Unreadable { path, error } => "reading "@ + path@ + ": "@ + error@,
            LoadError::Invalid { error } => error@,
        }
    }

    /// The message for the user.
    pub fn message(&self) -> (r: String)
        ensures
            r@ == self.text(),
    {
        match self {
            LoadError::Unreadable { path, error } => {
                "reading ".to_owned().concat(path.as_str()).concat(": ").concat(error.as_str())
            },
            LoadError::Invalid { error } => error.clone(),
        }
    }
}

/// A name of lower-case ASCII letters, digits and hyphens, at least one of them.
pub open spec fn is_plain_name(s: Seq<char>) -> bool {
    &&& s.len() > 0
    &&& forall|i: int|
        0 <= i < s.len() ==> {
            let n = (#[trigger] s[i]) as int;
            0x61 <= n <= 0x7a || 0x30 <= n <= 0x39 || n == 0x2d
        }
}

/// `directories::ProjectDirs::from` and `ProjectDirs::config_dir`, on Linux: the
/// application's directory in the user's configuration directory. Which directory
/// that is comes from `XDG_CONFIG_HOME`, `HOME` and the user database, and there
/// is none where the user has no home directory. Whatever they say, the result is
/// a non-empty path to which the application's name was added as a last
/// component, in lower case and without white space. The qualifier and the
/// organization play no part on Linux.
#[verifier::external_body]
fn project_config_dir(qualifier: &str, organization: &str, application: &str) -> (dir: Option<
    Vec<u8>,
>)
    requires
        is_plain_name(application@),
    ensures
        dir matches Some(d) ==> has_suffix(d@, encode_utf8(seq!['/'] + application@)),
{
    match directories::ProjectDirs::from(qualifier, organization, application) {
        Some(dirs) => Some(dirs.config_dir().as_os_str().as_encoded_bytes().to_vec()),
        None => None,
    }
}

/// The settings file in a configuration directory.
pub fn config_file(dir: Option<Vec<u8>>) -> (path: Option<Vec<u8>>)
    ensures
        match (dir, path) {
            (Some(d), Some(p)) => p@ == spec_join(d@, encode_utf8("config.toml"@)),
            (None, None) => true,
            _ => false,
        },
{
    match dir {
        Some(d) => Some(join(d, "config.toml")),
        None => None,
    }
}

/// `path` is a settings file in a directory of this program's name.
pub open spec fn is_default_path(path: Seq<u8>) -> bool {
    exists|dir: Seq<u8>|
        has_suffix(dir, encode_utf8("/gamescope-idle"@)) && path == #[trigger] spec_join(
            dir,
            encode_utf8("config.toml"@),
        )
}

impl Config {
    /// These are the default settings.
    pub open spec fn is_default(self) -> bool {
        &&& self.idle_timeout == 300
        &&& self.dim_warning == 30
        &&& self.dim_alpha == (Opacity { level: 128, visible: true })
        &&& self.cec == CecMode::Auto
        &&& self.cec_device@ == "/dev/cec0"@
        &&& self.ignore_devices@ == Seq::<String>::empty()
        &&& self.watch_hidraw
    }

    /// The idle timeout as a span of time.
    pub fn idle_timeout(&self) -> (d: Duration)
        ensures
            d == (Duration { secs: self.idle_timeout, nanos: 0 }),
    {
        Duration::from_secs(self.idle_timeout)
    }

    /// The dim warning as a span of time.
    pub fn dim_warning(&self) -> (d: Duration)
        ensures
            d == (Duration { secs: self.dim_warning, nanos: 0 }),
    {
        Duration::from_secs(self.dim_warning)
    }

    /// Where the settings are by default:
    /// `$XDG_CONFIG_HOME/gamescope-idle/config.toml`.
    pub fn default_path() -> (path: Option<Vec<u8>>)
        ensures
            path matches Some(p) ==> is_default_path(p@),
    {
        proof {
            reveal_strlit("gamescope-idle");
            reveal_strlit("/gamescope-idle");
            assert(seq!['/'] + "gamescope-idle"@ =~= "/gamescope-idle"@);
        }
        config_file(project_config_dir("io.github", "gehhilfe", "gamescope-idle"))
    }

    /// The path to read: the one that was asked for, otherwise the default one.
    pub fn path(asked: Option<Vec<u8>>) -> (path: Option<Vec<u8>>)
        ensures
            asked is Some ==> path == asked,
            asked is None ==> (path matches Some(p) ==> is_default_path(p@)),
    {
        match asked {
            Some(p) => Some(p),
            None => Config::default_path(),
        }
    }

    /// The settings to run with. Where there is no file, the defaults.
    pub fn load(source: Source) -> (r: Result<Config, LoadError>)
        ensures
            match source {
                Source::NoPath | Source::Missing => r matches Ok(c) && c.is_default(),
                Source::Parsed(c) => r == Ok::<Config, LoadError>(c),
                Source::Unreadable { path, error } => r == Err::<Config, LoadError>(
                    LoadError::Unreadable { path, error },
                ),
                Source::Invalid { error } => r == Err::<Config, LoadError>(
                    LoadError::Invalid { error },
                ),
            },
    {
        match source {
            Source::NoPath => Ok(Config::default()),
            Source::Missing => Ok(Config::default()),
            Source::Parsed(c) => Ok(c),
            Source::Unreadable { path, error } => Err(LoadError::Unreadable { path, error }),
            Source::Invalid { error } => Err(LoadError::Invalid { error }),
        }
    }
}

/// The message names the file and tells the error, each in full; a file that does not
/// hold settings is told of by the error alone.
pub proof fn law_message_tells_all(path: String, error: String)
    ensures
        ({
            let text = (LoadError::Unreadable { path, error }).text();
            let n = path@.len() as int;
            &&& text.take(8) == "reading "@
            &&& text.subrange(8, 8 + n) == path@
            &&& text.subrange(8 + n, 10 + n) == ": "@
            &&& text.skip(10 + n) == error@
        }),
        (LoadError::Invalid { error }).text() == error@,
{
    reveal_strlit("reading ");
    reveal_strlit(": ");
    let text = (LoadError::Unreadable { path, error }).text();
    let n = path@.len() as int;
    assert(text.take(8) =~= "reading "@);
    assert(text.subrange(8, 8 + n) =~= path@);
    assert(text.subrange(8 + n, 10 + n) =~= ": "@);
    assert(text.skip(10 + n) =~= error@);
}

/// The default path ends with this program's directory and the name of the file, with
/// a slash before each.
pub proof fn law_default_path_is_in_the_program_directory(path: Seq<u8>)
    requires
        is_default_path(path),
    ensures
        has_suffix(
            path,
            encode_utf8("/gamescope-idle"@) + seq![0x2fu8] + encode_utf8("config.toml"@),
        ),
{
    let name = encode_utf8("/gamescope-idle"@);
    let file = encode_utf8("config.toml"@);
    reveal_strlit("/gamescope-idle");
    assert(vstd::utf8::is_ascii_chars("/gamescope-idle"@));
    vstd::utf8::is_ascii_chars_encode_utf8("/gamescope-idle"@);
    assert(name[14] == 'e' as u8);
    assert(name.last() != 0x2f);
    let dir = choose|dir: Seq<u8>| has_suffix(dir, name) && path == #[trigger] spec_join(dir, file);
    assert(dir.last() == dir.skip(dir.len() - name.len()).last());
    assert(dir.last() != 0x2f);
    let start = dir.take(dir.len() - name.len());
    let tail = name + seq![0x2fu8] + file;
    assert(dir =~= start + dir.skip(dir.len() - name.len()));
    assert(path =~= start + tail);
    assert(path.skip(path.len() - tail.len()) =~= tail);
}

} // verus!
