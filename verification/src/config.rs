//! The configuration: project paths, database locations, server port, log
//! level and media limits, with the checks that a configuration must pass.
//!
//! Reading and writing the configuration file and asking the file system
//! about paths is left to callers: what the file system says of each path
//! is handed in as a `ConfigProbe`.
use vstd::prelude::*;
use vstd::string::StringExecFns;
use crate::assoc::{first_index, key_position, string_keys};
use crate::errors::ConfigError;
use crate::numbers::{decimal, format_decimal, parse_u16, port_of};
use crate::search::{is_blank, trimmed};
use crate::text::{contains_seq, lemma_replaced_absent, push_all, replace_all, replaced, str_eq};

verus! {

/// The default gRPC port.
pub const DEFAULT_GRPC_PORT: u16 = 50051;

/// The default maximum cover art size in MB.
pub const DEFAULT_MAX_COVER_ART_SIZE_MB: u32 = 10;

/// The default maximum audio file size in MB.
pub const DEFAULT_MAX_AUDIO_FILE_SIZE_MB: u32 = 50;

/// The longest path accepted, in bytes (the Windows limit).
pub const MAX_PATH_LENGTH: usize = 260;

/// How many directories up from the executable a configuration file is looked for.
pub const MAX_DIRECTORY_TRAVERSAL_DEPTH: usize = 5;

/// The default log level.
pub open spec fn default_log_level_text() -> Seq<char> {
    "info"@
}

/// No cover art limit of its own: the media module's default applies.
pub fn default_max_cover_art_size() -> (res: Option<u32>)
    ensures
        res is None,
{
    None
}

/// No audio file limit of its own: the media module's default applies.
pub fn default_max_audio_file_size() -> (res: Option<u32>)
    ensures
        res is None,
{
    None
}

/// The default gRPC port, 50051.
pub fn default_grpc_port() -> (res: u16)
    ensures
        res == DEFAULT_GRPC_PORT,
        res == 50051,
{
    DEFAULT_GRPC_PORT
}

/// No database path: one in the user's data directory is chosen on loading.
pub fn default_database_path() -> (res: Option<String>)
    ensures
        res is None,
{
    None
}

/// The default log level, `info`.
pub fn default_log_level() -> (res: String)
    ensures
        res@ == default_log_level_text(),
{
    proof {
        reveal_strlit("info");
    }
    String::from_str("info")
}

/// The configuration of the application.
#[derive(Debug)]
pub struct Config {
    /// The directories scanned for projects.
    pub paths: Vec<String>,
    /// The database file (chosen on loading when missing).
    pub database_path: Option<String>,
    /// The directory of Live's own plugin databases.
    pub live_database_dir: String,
    pub grpc_port: u16,
    pub log_level: String,
    /// The directory where media files are stored.
    pub media_storage_dir: String,
    /// Cover art limit in MB (0: none; `None`: the media module's default).
    pub max_cover_art_size_mb: Option<u32>,
    /// Audio file limit in MB (0: none; `None`: the media module's default).
    pub max_audio_file_size_mb: Option<u32>,
}

pub open spec fn paths_view(p: Seq<String>) -> Seq<Seq<char>> {
    p.map_values(|s: String| s@)
}

/// A configuration error with its texts as characters.
pub enum ConfigErrorView {
    IoError(Seq<char>),
    ParseError(Seq<char>),
    HomeDirError,
    InvalidPath(Seq<char>),
    InvalidValue(Seq<char>),
    PortOutOfRange(u16),
    InvalidDirectory(Seq<char>),
    PermissionDenied(Seq<char>),
    SerializeError(Seq<char>),
}

impl View for ConfigError {
    type V = ConfigErrorView;

    open spec fn view(&self) -> ConfigErrorView {
        match self {
            ConfigError::IoError(s) => ConfigErrorView::IoError(s@),
            ConfigError::ParseError(s) => ConfigErrorView::ParseError(s@),
            ConfigError::HomeDirError => ConfigErrorView::HomeDirError,
            ConfigError::InvalidPath(s) => ConfigErrorView::InvalidPath(s@),
            ConfigError::InvalidValue(s) => ConfigErrorView::InvalidValue(s@),
            ConfigError::PortOutOfRange(p) => ConfigErrorView::PortOutOfRange(*p),
            ConfigError::InvalidDirectory(s) => ConfigErrorView::InvalidDirectory(s@),
            ConfigError::PermissionDenied(s) => ConfigErrorView::PermissionDenied(s@),
            ConfigError::SerializeError(s) => ConfigErrorView::SerializeError(s@),
        }
    }
}

/// A result with its texts as characters.
pub open spec fn unit_result_view(r: Result<(), ConfigError>) -> Result<(), ConfigErrorView> {
    match r {
        Ok(()) => Ok(()),
        Err(e) => Err(e@),
    }
}

pub open spec fn warnings_result_view(r: Result<Vec<String>, ConfigError>) -> Result<Seq<Seq<char>>, ConfigErrorView> {
    match r {
        Ok(w) => Ok(paths_view(w@)),
        Err(e) => Err(e@),
    }
}

/// The length check of a path: at most `MAX_PATH_LENGTH` bytes.
pub open spec fn path_length_check(path: Seq<char>) -> Result<(), ConfigErrorView> {
    if str_len(path) > MAX_PATH_LENGTH {
        Err(ConfigErrorView::InvalidPath("Path exceeds limit of 260 characters: "@ + path))
    } else {
        Ok(())
    }
}

/// The length in bytes of a text, as `str::len` gives it.
pub open spec fn str_len(path: Seq<char>) -> int {
    (vstd::utf8::encode_utf8(path).len() as usize) as int
}

/// The format check of a path: Unix-style absolute paths are refused.
pub open spec fn windows_path_check(path: Seq<char>) -> Result<(), ConfigErrorView> {
    if path.len() > 0 && path[0] == '/' {
        Err(ConfigErrorView::InvalidPath("Unix-style absolute path not supported on Windows: "@ + path))
    } else {
        Ok(())
    }
}

/// Both checks, the error naming the path's role.
pub open spec fn single_path_check(path: Seq<char>, name: Seq<char>) -> Result<(), ConfigErrorView> {
    match path_length_check(path) {
        Err(ConfigErrorView::InvalidPath(m)) => Err(ConfigErrorView::InvalidPath(name + ": Invalid path in config: "@ + m)),
        _ => match windows_path_check(path) {
            Err(ConfigErrorView::InvalidPath(m)) => Err(ConfigErrorView::InvalidPath(name + ": Invalid path in config: "@ + m)),
            _ => Ok(()),
        },
    }
}

impl Config {
    /// Refuses a path longer than `MAX_PATH_LENGTH` bytes.
    pub fn validate_path_length(path: &str) -> (res: Result<(), ConfigError>)
        ensures
            unit_result_view(res) == path_length_check(path@),
    {
        proof {
            reveal_strlit("Path exceeds limit of 260 characters: ");
        }
        if path.len() > MAX_PATH_LENGTH {
            let mut m = String::new();
            push_all(&mut m, "Path exceeds limit of 260 characters: ");
            push_all(&mut m, path);
            return Err(ConfigError::InvalidPath(m));
        }
        Ok(())
    }

    /// Refuses a Unix-style absolute path (one that starts with `/`).
    pub fn validate_windows_path(path: &str) -> (res: Result<(), ConfigError>)
        ensures
            unit_result_view(res) == windows_path_check(path@),
    {
        proof {
            reveal_strlit("Unix-style absolute path not supported on Windows: ");
            reveal_strlit("/");
        }
        if crate::text::starts_with(path, "/") {
            assert(path@.subrange(0, 1)[0] == path@[0]);
            let mut m = String::new();
            push_all(&mut m, "Unix-style absolute path not supported on Windows: ");
            push_all(&mut m, path);
            return Err(ConfigError::InvalidPath(m));
        }
        Ok(())
    }

    /// Checks the length and the format of a path; the error names its role.
    pub fn validate_single_path(path: &str, path_name: &str) -> (res: Result<(), ConfigError>)
        ensures
            unit_result_view(res) == single_path_check(path@, path_name@),
    {
        proof {
            reveal_strlit(": Invalid path in config: ");
        }
        match Self::validate_path_length(path) {
            Err(e) => return Err(in_role(path_name, e)),
            Ok(()) => {},
        }
        match Self::validate_windows_path(path) {
            Err(e) => return Err(in_role(path_name, e)),
            Ok(()) => {},
        }
        Ok(())
    }
}

/// The error of a path check, prefixed with the role of the path.
fn in_role(path_name: &str, e: ConfigError) -> (res: ConfigError)
    requires
        e@ is InvalidPath,
    ensures
        res@ == ConfigErrorView::InvalidPath(path_name@ + ": Invalid path in config: "@ + e@->InvalidPath_0),
{
    proof {
        reveal_strlit(": Invalid path in config: ");
    }
    match e {
        ConfigError::InvalidPath(m) => {
            let mut s = String::new();
            push_all(&mut s, path_name);
            push_all(&mut s, ": Invalid path in config: ");
            push_all(&mut s, m.as_str());
            ConfigError::InvalidPath(s)
        },
        other => other,
    }
}

/// Refuses a path longer than `MAX_PATH_LENGTH` bytes.
pub fn validate_path_length(path: &str) -> (res: Result<(), ConfigError>)
    ensures
        unit_result_view(res) == path_length_check(path@),
{
    Config::validate_path_length(path)
}

/// Refuses a Unix-style absolute path.
pub fn validate_windows_path(path: &str) -> (res: Result<(), ConfigError>)
    ensures
        unit_result_view(res) == windows_path_check(path@),
{
    Config::validate_windows_path(path)
}

/// Checks the length and the format of a path; the error names its role.
pub fn validate_single_path(path: &str, path_name: &str) -> (res: Result<(), ConfigError>)
    ensures
        unit_result_view(res) == single_path_check(path@, path_name@),
{
    Config::validate_single_path(path, path_name)
}

/// What the file system says of a path that exists.
#[derive(Debug)]
pub enum PathStatus {
    /// The path is not a directory.
    NotADirectory,
    /// A directory that could not be listed for lack of permission.
    PermissionDenied,
    /// A directory that could not be listed for another reason (the reason).
    Unreadable(String),
    /// A directory that could be listed, and whether a file could be created in it.
    Directory { writable: bool },
}

/// What the file system says of the paths of a configuration: the status of
/// each path that exists. A path that it does not list does not exist.
#[derive(Debug)]
pub struct ConfigProbe {
    pub existing: Vec<(String, PathStatus)>,
}

/// The status of `path` in the probe (its first entry), `None` when it does not exist.
pub open spec fn status_of(existing: Seq<(String, PathStatus)>, path: Seq<char>) -> Option<PathStatus> {
    match first_index(string_keys(existing), path) {
        Some(i) => Some(existing[i].1),
        None => None,
    }
}

/// The checks of the project paths, in order: each path must pass the path
/// checks; a missing path or a directory that cannot be written gives a
/// warning; a path that is not a directory or cannot be listed is an error.
pub open spec fn project_paths_check(paths: Seq<Seq<char>>, existing: Seq<(String, PathStatus)>) -> Result<Seq<Seq<char>>, ConfigErrorView>
    decreases paths.len(),
{
    if paths.len() == 0 {
        Ok(Seq::empty())
    } else {
        let p = paths[0];
        let rest = project_paths_check(paths.drop_first(), existing);
        match single_path_check(p, "Project path"@) {
            Err(e) => Err(e),
            Ok(()) => match status_of(existing, p) {
                None => match rest {
                    Ok(w) => Ok(seq!["Path does not exist: "@ + p] + w),
                    Err(e) => Err(e),
                },
                Some(PathStatus::NotADirectory) => Err(ConfigErrorView::InvalidDirectory(p)),
                Some(PathStatus::PermissionDenied) => Err(ConfigErrorView::PermissionDenied(p)),
                Some(PathStatus::Unreadable(reason)) => Err(ConfigErrorView::IoError(reason@)),
                Some(PathStatus::Directory { writable }) => if writable {
                    rest
                } else {
                    match rest {
                        Ok(w) => Ok(seq!["Directory is not writable: "@ + p] + w),
                        Err(e) => Err(e),
                    }
                },
            },
        }
    }
}

/// The log levels accepted.
pub open spec fn valid_log_level(level: Seq<char>) -> bool {
    level == "error"@ || level == "warn"@ || level == "info"@ || level == "debug"@ || level == "trace"@
}

/// What `validate_paths` gives: the checks of the project paths, then of
/// the Live database directory (a warning when it does not exist), the
/// database path and the media storage directory; the warnings, or the
/// first error met.
pub open spec fn paths_validation(c: Config, existing: Seq<(String, PathStatus)>) -> Result<Seq<Seq<char>>, ConfigErrorView> {
    match project_paths_check(paths_view(c.paths@), existing) {
        Err(e) => Err(e),
        Ok(pw) => match single_path_check(c.live_database_dir@, "Live database directory"@) {
            Err(e) => Err(e),
            Ok(()) => {
                let lw = if status_of(existing, c.live_database_dir@) is None {
                    seq!["Live database directory does not exist: "@ + c.live_database_dir@]
                } else {
                    Seq::empty()
                };
                match (match c.database_path {
                    Some(d) => single_path_check(d@, "Database path"@),
                    None => Ok(()),
                }) {
                    Err(e) => Err(e),
                    Ok(()) => match single_path_check(c.media_storage_dir@, "Media storage directory"@) {
                        Err(e) => Err(e),
                        Ok(()) => Ok(pw + lw),
                    },
                }
            },
        },
    }
}

/// What `validate` gives: the warnings, or the first error met. The checks
/// come in this order: port (0 is refused), log level, then the paths (see
/// `paths_validation`). No project path at all gives a first warning.
pub open spec fn validation(c: Config, existing: Seq<(String, PathStatus)>) -> Result<Seq<Seq<char>>, ConfigErrorView> {
    let setup = if c.paths@.len() == 0 {
        seq!["No project paths configured - application will run in setup mode"@]
    } else {
        Seq::empty()
    };
    if c.grpc_port == 0 {
        Err(ConfigErrorView::PortOutOfRange(0))
    } else if !valid_log_level(c.log_level@) {
        Err(ConfigErrorView::InvalidValue(
            "Invalid log level '"@ + c.log_level@ + "'. Must be one of: [\"error\", \"warn\", \"info\", \"debug\", \"trace\"]"@,
        ))
    } else {
        match paths_validation(c, existing) {
            Err(e) => Err(e),
            Ok(w) => Ok(setup + w),
        }
    }
}

impl ConfigProbe {
    /// The status of `path` (its first entry), `None` when it does not exist.
    pub fn status(&self, path: &str) -> (res: Option<&PathStatus>)
        ensures
            match (res, status_of(self.existing@, path@)) {
                (Some(a), Some(b)) => *a == b,
                (None, None) => true,
                _ => false,
            },
    {
        match key_position(&self.existing, path) {
            Some(i) => Some(&self.existing[i].1),
            None => None,
        }
    }
}

/// A text made of two parts.
fn concat(a: &str, b: &str) -> (res: String)
    ensures
        res@ == a@ + b@,
{
    let mut s = String::new();
    push_all(&mut s, a);
    push_all(&mut s, b);
    s
}

/// The checks of the project paths (see `project_paths_check`).
fn validate_project_paths(paths: &Vec<String>, probe: &ConfigProbe) -> (res: Result<Vec<String>, ConfigError>)
    ensures
        warnings_result_view(res) == project_paths_check(paths_view(paths@), probe.existing@),
{
    proof {
        reveal_strlit("Project path");
        reveal_strlit("Path does not exist: ");
        reveal_strlit("Directory is not writable: ");
    }
    let ghost pv = paths_view(paths@);
    let mut warnings: Vec<String> = Vec::new();
    let mut i: usize = 0;
    assert(pv.skip(0) == pv);
    assert(paths_view(warnings@) =~= Seq::<Seq<char>>::empty());
    while i < paths.len()
        invariant
            i <= paths.len(),
            pv == paths_view(paths@),
            project_paths_check(pv, probe.existing@) == match project_paths_check(pv.skip(i as int), probe.existing@) {
                Ok(w) => Ok(paths_view(warnings@) + w),
                Err(e) => Err(e),
            },
        decreases paths.len() - i,
    {
        let p = paths[i].as_str();
        let ghost rest = pv.skip(i as int);
        assert(rest[0] == p@);
        assert(rest.drop_first() == pv.skip(i + 1));
        let ghost before = paths_view(warnings@);
        match Config::validate_single_path(p, "Project path") {
            Err(e) => return Err(e),
            Ok(()) => {},
        }
        match probe.status(p) {
            None => {
                warnings.push(concat("Path does not exist: ", p));
                assert(paths_view(warnings@) == before.push("Path does not exist: "@ + p@));
                assert forall|w: Seq<Seq<char>>| before + (seq!["Path does not exist: "@ + p@] + w) == paths_view(warnings@) + w by {
                    assert(before + (seq!["Path does not exist: "@ + p@] + w) =~= before.push("Path does not exist: "@ + p@) + w);
                }
            },
            Some(PathStatus::NotADirectory) => return Err(ConfigError::InvalidDirectory(paths[i].clone())),
            Some(PathStatus::PermissionDenied) => return Err(ConfigError::PermissionDenied(paths[i].clone())),
            Some(PathStatus::Unreadable(reason)) => return Err(ConfigError::IoError(reason.clone())),
            Some(PathStatus::Directory { writable }) => {
                if !*writable {
                    warnings.push(concat("Directory is not writable: ", p));
                    assert(paths_view(warnings@) == before.push("Directory is not writable: "@ + p@));
                    assert forall|w: Seq<Seq<char>>| before + (seq!["Directory is not writable: "@ + p@] + w) == paths_view(warnings@) + w by {
                        assert(before + (seq!["Directory is not writable: "@ + p@] + w) =~= before.push("Directory is not writable: "@ + p@) + w);
                    }
                }
            },
        }
        i = i + 1;
    }
    assert(pv.skip(i as int) =~= Seq::<Seq<char>>::empty());
    assert(paths_view(warnings@) + Seq::<Seq<char>>::empty() == paths_view(warnings@));
    Ok(warnings)
}

/// Whether `level` is an accepted log level.
fn is_valid_log_level(level: &str) -> (res: bool)
    ensures
        res == valid_log_level(level@),
{
    str_eq(level, "error") || str_eq(level, "warn") || str_eq(level, "info") || str_eq(level, "debug") || str_eq(level, "trace")
}

impl Config {
    /// Checks the paths of the configuration (see `paths_validation`); on
    /// success the warnings.
    pub fn validate_paths(&self, probe: &ConfigProbe) -> (res: Result<Vec<String>, ConfigError>)
        ensures
            warnings_result_view(res) == paths_validation(*self, probe.existing@),
    {
        proof {
            reveal_strlit("Live database directory");
            reveal_strlit("Live database directory does not exist: ");
            reveal_strlit("Database path");
            reveal_strlit("Media storage directory");
        }
        let mut warnings = match validate_project_paths(&self.paths, probe) {
            Err(e) => return Err(e),
            Ok(w) => w,
        };
        match Self::validate_single_path(self.live_database_dir.as_str(), "Live database directory") {
            Err(e) => return Err(e),
            Ok(()) => {},
        }
        let ghost pw = paths_view(warnings@);
        let live_missing = probe.status(self.live_database_dir.as_str()).is_none();
        match &self.database_path {
            Some(d) => match Self::validate_single_path(d.as_str(), "Database path") {
                Err(e) => return Err(e),
                Ok(()) => {},
            },
            None => {},
        }
        match Self::validate_single_path(self.media_storage_dir.as_str(), "Media storage directory") {
            Err(e) => return Err(e),
            Ok(()) => {},
        }
        assert(project_paths_check(paths_view(self.paths@), probe.existing@) == Ok::<Seq<Seq<char>>, ConfigErrorView>(pw));
        assert(live_missing == (status_of(probe.existing@, self.live_database_dir@) is None));
        if live_missing {
            warnings.push(concat("Live database directory does not exist: ", self.live_database_dir.as_str()));
            assert(paths_view(warnings@) =~= pw + seq!["Live database directory does not exist: "@ + self.live_database_dir@]);
        } else {
            assert(paths_view(warnings@) =~= pw + Seq::<Seq<char>>::empty());
        }
        assert(single_path_check(self.live_database_dir@, "Live database directory"@) == Ok::<(), ConfigErrorView>(()));
        assert(single_path_check(self.media_storage_dir@, "Media storage directory"@) == Ok::<(), ConfigErrorView>(()));
        assert((match self.database_path {
            Some(d) => single_path_check(d@, "Database path"@),
            None => Ok::<(), ConfigErrorView>(()),
        }) == Ok::<(), ConfigErrorView>(()));
        assert(paths_validation(*self, probe.existing@) == Ok::<Seq<Seq<char>>, ConfigErrorView>(paths_view(warnings@)));
        Ok(warnings)
    }

    /// Checks the configuration (see `validation`); on success the warnings.
    /// A media storage directory that does not exist is left to the caller
    /// to create once the checks have passed.
    pub fn validate(&self, probe: &ConfigProbe) -> (res: Result<Vec<String>, ConfigError>)
        ensures
            warnings_result_view(res) == validation(*self, probe.existing@),
    {
        proof {
            reveal_strlit("No project paths configured - application will run in setup mode");
            reveal_strlit("Invalid log level '");
            reveal_strlit("'. Must be one of: [\"error\", \"warn\", \"info\", \"debug\", \"trace\"]");
        }
        let mut warnings: Vec<String> = Vec::new();
        if self.paths.len() == 0 {
            warnings.push(String::from_str("No project paths configured - application will run in setup mode"));
        }
        let ghost setup = paths_view(warnings@);
        assert(setup == if self.paths@.len() == 0 {
            seq!["No project paths configured - application will run in setup mode"@]
        } else {
            Seq::<Seq<char>>::empty()
        });
        if self.grpc_port == 0 {
            return Err(ConfigError::PortOutOfRange(0));
        }
        if !is_valid_log_level(self.log_level.as_str()) {
            let mut m = String::new();
            push_all(&mut m, "Invalid log level '");
            push_all(&mut m, self.log_level.as_str());
            push_all(&mut m, "'. Must be one of: [\"error\", \"warn\", \"info\", \"debug\", \"trace\"]");
            return Err(ConfigError::InvalidValue(m));
        }
        let path_warnings = match self.validate_paths(probe) {
            Err(e) => return Err(e),
            Ok(w) => w,
        };
        let ghost pw = paths_view(path_warnings@);
        let mut k: usize = 0;
        while k < path_warnings.len()
            invariant
                k <= path_warnings.len(),
                pw == paths_view(path_warnings@),
                paths_view(warnings@) == setup + pw.take(k as int),
            decreases path_warnings.len() - k,
        {
            let ghost before = paths_view(warnings@);
            warnings.push(path_warnings[k].clone());
            assert(paths_view(warnings@) =~= before.push(pw[k as int]));
            assert(pw.take(k + 1) =~= pw.take(k as int).push(pw[k as int]));
            k = k + 1;
        }
        assert(pw.take(k as int) == pw);
        Ok(warnings)
    }
}

/// The status message of a configuration with `n` project paths.
pub open spec fn status_message(n: nat) -> Seq<char> {
    if n == 0 {
        "Configuration incomplete: No project paths specified. Please add paths to begin scanning projects."@
    } else {
        "Configuration ready: "@ + decimal(n) + " project path(s) configured"@
    }
}

/// The paths after adding `p`: appended unless already there.
pub open spec fn added_paths(paths: Seq<Seq<char>>, p: Seq<char>) -> Seq<Seq<char>> {
    if paths.contains(p) {
        paths
    } else {
        paths.push(p)
    }
}

/// The paths after removing `p`: every occurrence goes, the others keep their order.
pub open spec fn removed_paths(paths: Seq<Seq<char>>, p: Seq<char>) -> Seq<Seq<char>> {
    paths.filter(other_than(p))
}

/// Whether a path is not `p`.
pub open spec fn other_than(p: Seq<char>) -> spec_fn(Seq<char>) -> bool {
    |x: Seq<char>| x != p
}

/// Everything but the project paths is the same in both configurations.
pub open spec fn same_settings(a: Config, b: Config) -> bool {
    &&& a.database_path == b.database_path
    &&& a.live_database_dir == b.live_database_dir
    &&& a.grpc_port == b.grpc_port
    &&& a.log_level == b.log_level
    &&& a.media_storage_dir == b.media_storage_dir
    &&& a.max_cover_art_size_mb == b.max_cover_art_size_mb
    &&& a.max_audio_file_size_mb == b.max_audio_file_size_mb
}

/// A result without its warnings.
pub open spec fn unit_of(r: Result<Seq<Seq<char>>, ConfigErrorView>) -> Result<(), ConfigErrorView> {
    match r {
        Ok(_) => Ok(()),
        Err(e) => Err(e),
    }
}

impl Config {
    /// Whether no project path is configured yet.
    pub fn needs_setup(&self) -> (res: bool)
        ensures
            res == (self.paths@.len() == 0),
    {
        self.paths.len() == 0
    }

    /// Whether some project path is configured.
    pub fn is_ready_for_operation(&self) -> (res: bool)
        ensures
            res == (self.paths@.len() > 0),
    {
        self.paths.len() != 0
    }

    /// A message saying whether setup is needed, or how many project paths are configured.
    pub fn get_status_message(&self) -> (res: String)
        ensures
            res@ == status_message(self.paths@.len()),
    {
        proof {
            reveal_strlit("Configuration incomplete: No project paths specified. Please add paths to begin scanning projects.");
            reveal_strlit("Configuration ready: ");
            reveal_strlit(" project path(s) configured");
        }
        if self.needs_setup() {
            String::from_str("Configuration incomplete: No project paths specified. Please add paths to begin scanning projects.")
        } else {
            let mut m = String::new();
            push_all(&mut m, "Configuration ready: ");
            push_all(&mut m, format_decimal(self.paths.len() as u64).as_str());
            push_all(&mut m, " project path(s) configured");
            m
        }
    }

    /// Replaces the project paths, then checks the configuration (see
    /// `validation`). Saving it is left to the caller.
    pub fn update_paths(&mut self, new_paths: Vec<String>, probe: &ConfigProbe) -> (res: Result<Vec<String>, ConfigError>)
        ensures
            final(self).paths@ == new_paths@,
            same_settings(*final(self), *old(self)),
            warnings_result_view(res) == validation(*final(self), probe.existing@),
    {
        self.paths = new_paths;
        self.validate(probe)
    }

    /// Adds a project path unless it is already there, then checks the
    /// configuration; an existing path gives a single warning and no check.
    /// Saving it is left to the caller.
    pub fn add_path(&mut self, path: String, probe: &ConfigProbe) -> (res: Result<Vec<String>, ConfigError>)
        ensures
            paths_view(final(self).paths@) == added_paths(paths_view(old(self).paths@), path@),
            same_settings(*final(self), *old(self)),
            paths_view(old(self).paths@).contains(path@) ==> warnings_result_view(res) == Ok::<Seq<Seq<char>>, ConfigErrorView>(
                seq!["Path already exists in configuration"@],
            ),
            !paths_view(old(self).paths@).contains(path@) ==> warnings_result_view(res) == validation(*final(self), probe.existing@),
    {
        proof {
            reveal_strlit("Path already exists in configuration");
        }
        let ghost pv = paths_view(self.paths@);
        let mut i: usize = 0;
        while i < self.paths.len()
            invariant
                i <= self.paths.len(),
                pv == paths_view(self.paths@),
                forall|j: int| 0 <= j < i ==> pv[j] != path@,
            decreases self.paths.len() - i,
        {
            if str_eq(self.paths[i].as_str(), path.as_str()) {
                assert(pv[i as int] == path@);
                let mut w: Vec<String> = Vec::new();
                w.push(String::from_str("Path already exists in configuration"));
                assert(paths_view(w@) =~= seq!["Path already exists in configuration"@]);
                return Ok(w);
            }
            i = i + 1;
        }
        assert(!pv.contains(path@));
        self.paths.push(path);
        assert(paths_view(self.paths@) =~= pv.push(path@));
        self.validate(probe)
    }

    /// Removes every occurrence of a project path, then checks the
    /// configuration. Saving it is left to the caller.
    pub fn remove_path(&mut self, path: &str, probe: &ConfigProbe) -> (res: Result<(), ConfigError>)
        ensures
            paths_view(final(self).paths@) == removed_paths(paths_view(old(self).paths@), path@),
            same_settings(*final(self), *old(self)),
            unit_result_view(res) == unit_of(validation(*final(self), probe.existing@)),
    {
        let ghost pv = paths_view(self.paths@);
        let ghost pred = other_than(path@);
        let mut kept: Vec<String> = Vec::new();
        let mut i: usize = 0;
        assert(pv.take(0).filter(pred) =~= Seq::<Seq<char>>::empty()) by {
            reveal(Seq::filter);
        }
        assert(paths_view(kept@) =~= Seq::<Seq<char>>::empty());
        while i < self.paths.len()
            invariant
                i <= self.paths.len(),
                pv == paths_view(self.paths@),
                pred == other_than(path@),
                paths_view(kept@) == pv.take(i as int).filter(pred),
            decreases self.paths.len() - i,
        {
            let ghost before = paths_view(kept@);
            assert(pv.take(i + 1).drop_last() =~= pv.take(i as int));
            assert(pv.take(i + 1).last() == pv[i as int]);
            assert(pv.take(i + 1).filter(pred) == if pred(pv[i as int]) {
                pv.take(i as int).filter(pred).push(pv[i as int])
            } else {
                pv.take(i as int).filter(pred)
            }) by {
                reveal(Seq::filter);
            }
            if !str_eq(self.paths[i].as_str(), path) {
                kept.push(self.paths[i].clone());
                assert(paths_view(kept@) =~= before.push(pv[i as int]));
            }
            i = i + 1;
        }
        assert(pv.take(i as int) == pv);
        self.paths = kept;
        match self.validate(probe) {
            Ok(_) => Ok(()),
            Err(e) => Err(e),
        }
    }

    /// Sets each setting given (`Some`), leaves the others, then checks the
    /// configuration. Saving it is left to the caller.
    pub fn update_settings(
        &mut self,
        database_path: Option<String>,
        live_database_dir: Option<String>,
        grpc_port: Option<u16>,
        log_level: Option<String>,
        media_storage_dir: Option<String>,
        max_cover_art_size_mb: Option<Option<u32>>,
        max_audio_file_size_mb: Option<Option<u32>>,
        probe: &ConfigProbe,
    ) -> (res: Result<Vec<String>, ConfigError>)
        ensures
            final(self).paths == old(self).paths,
            final(self).database_path == match database_path {
                Some(d) => Some(d),
                None => old(self).database_path,
            },
            final(self).live_database_dir == match live_database_dir {
                Some(d) => d,
                None => old(self).live_database_dir,
            },
            final(self).grpc_port == match grpc_port {
                Some(p) => p,
                None => old(self).grpc_port,
            },
            final(self).log_level == match log_level {
                Some(l) => l,
                None => old(self).log_level,
            },
            final(self).media_storage_dir == match media_storage_dir {
                Some(d) => d,
                None => old(self).media_storage_dir,
            },
            final(self).max_cover_art_size_mb == match max_cover_art_size_mb {
                Some(m) => m,
                None => old(self).max_cover_art_size_mb,
            },
            final(self).max_audio_file_size_mb == match max_audio_file_size_mb {
                Some(m) => m,
                None => old(self).max_audio_file_size_mb,
            },
            warnings_result_view(res) == validation(*final(self), probe.existing@),
    {
        if let Some(d) = database_path {
            self.database_path = Some(d);
        }
        if let Some(d) = live_database_dir {
            self.live_database_dir = d;
        }
        if let Some(p) = grpc_port {
            self.grpc_port = p;
        }
        if let Some(l) = log_level {
            self.log_level = l;
        }
        if let Some(d) = media_storage_dir {
            self.media_storage_dir = d;
        }
        if let Some(m) = max_cover_art_size_mb {
            self.max_cover_art_size_mb = m;
        }
        if let Some(m) = max_audio_file_size_mb {
            self.max_audio_file_size_mb = m;
        }
        self.validate(probe)
    }
}

/// Adding a path twice is the same as adding it once, and it is then configured.
pub proof fn law_add_path_idempotent(paths: Seq<Seq<char>>, p: Seq<char>)
    ensures
        added_paths(added_paths(paths, p), p) == added_paths(paths, p),
        added_paths(paths, p).contains(p),
{
    if !paths.contains(p) {
        assert(paths.push(p)[paths.len() as int] == p);
    }
}

/// After removing a path it is no longer configured, the other paths stay
/// configured, and removing it again changes nothing.
pub proof fn law_remove_path(paths: Seq<Seq<char>>, p: Seq<char>)
    ensures
        !removed_paths(paths, p).contains(p),
        removed_paths(removed_paths(paths, p), p) == removed_paths(paths, p),
        forall|x: Seq<char>| x != p ==> (paths.contains(x) <==> removed_paths(paths, p).contains(x)),
{
    let pred = other_than(p);
    let r = paths.filter(pred);
    assert forall|i: int| 0 <= i < r.len() implies pred(r[i]) by {
        paths.lemma_filter_pred(pred, i);
    }
    if r.contains(p) {
        let i = choose|i: int| 0 <= i < r.len() && r[i] == p;
        assert(pred(r[i]));
    }
    assert forall|x: Seq<char>| x != p implies (paths.contains(x) <==> r.contains(x)) by {
        if paths.contains(x) {
            let i = choose|i: int| 0 <= i < paths.len() && paths[i] == x;
            paths.lemma_filter_contains(pred, i);
        }
        if r.contains(x) {
            paths.lemma_filter_contains_rev(pred, x);
        }
    }
    lemma_filter_all_kept(r, pred);
}

/// Filtering a sequence whose items all pass leaves it unchanged.
proof fn lemma_filter_all_kept(s: Seq<Seq<char>>, pred: spec_fn(Seq<char>) -> bool)
    requires
        forall|i: int| 0 <= i < s.len() ==> pred(s[i]),
    ensures
        s.filter(pred) == s,
    decreases s.len(),
{
    reveal(Seq::filter);
    if s.len() > 0 {
        lemma_filter_all_kept(s.drop_last(), pred);
        assert(s.drop_last().push(s.last()) =~= s);
    }
}

/// Adding a path that was not configured and removing it again gives back
/// the paths as they were.
pub proof fn law_add_then_remove(paths: Seq<Seq<char>>, p: Seq<char>)
    requires
        !paths.contains(p),
    ensures
        removed_paths(added_paths(paths, p), p) == paths,
{
    let pred = other_than(p);
    assert(paths.push(p).drop_last() =~= paths);
    assert(paths.push(p).filter(pred) == paths.filter(pred)) by {
        reveal(Seq::filter);
        assert(!pred(paths.push(p).last()));
    }
    assert forall|i: int| 0 <= i < paths.len() implies pred(paths[i]) by {
        if paths[i] == p {
            assert(paths.contains(p));
        }
    }
    lemma_filter_all_kept(paths, pred);
}

pub open spec fn option_text(o: Option<String>) -> Option<Seq<char>> {
    match o {
        Some(s) => Some(s@),
        None => None,
    }
}

/// `s` with every `{USER_HOME}` replaced by the home directory.
pub open spec fn with_home(s: Seq<char>, home: Seq<char>) -> Seq<char> {
    replaced(s, "{USER_HOME}"@, home)
}

/// `s` with every `{USER_HOME}` replaced by the home directory.
fn replace_home(s: &str, home_dir: &str) -> (res: String)
    ensures
        res@ == with_home(s@, home_dir@),
{
    proof {
        reveal_strlit("{USER_HOME}");
    }
    replace_all(s, "{USER_HOME}", home_dir)
}

/// Replaces `{USER_HOME}` by the home directory in the project paths, the
/// database path, the Live database directory and the media storage directory.
pub fn process_user_home_placeholders(config: &mut Config, home_dir: &str)
    ensures
        paths_view(final(config).paths@) == paths_view(old(config).paths@).map_values(|p: Seq<char>| with_home(p, home_dir@)),
        option_text(final(config).database_path) == match old(config).database_path {
            Some(d) => Some(with_home(d@, home_dir@)),
            None => None,
        },
        final(config).live_database_dir@ == with_home(old(config).live_database_dir@, home_dir@),
        final(config).media_storage_dir@ == with_home(old(config).media_storage_dir@, home_dir@),
        final(config).grpc_port == old(config).grpc_port,
        final(config).log_level == old(config).log_level,
        final(config).max_cover_art_size_mb == old(config).max_cover_art_size_mb,
        final(config).max_audio_file_size_mb == old(config).max_audio_file_size_mb,
{
    let ghost pv = paths_view(config.paths@);
    let ghost target = pv.map_values(|p: Seq<char>| with_home(p, home_dir@));
    let mut paths: Vec<String> = Vec::new();
    let mut i: usize = 0;
    while i < config.paths.len()
        invariant
            i <= config.paths.len(),
            pv == paths_view(config.paths@),
            target == pv.map_values(|p: Seq<char>| with_home(p, home_dir@)),
            paths_view(paths@) == target.take(i as int),
        decreases config.paths.len() - i,
    {
        let ghost before = paths_view(paths@);
        paths.push(replace_home(config.paths[i].as_str(), home_dir));
        assert(paths_view(paths@) =~= before.push(target[i as int]));
        assert(target.take(i + 1) =~= target.take(i as int).push(target[i as int]));
        i = i + 1;
    }
    assert(target.take(i as int) =~= target);
    config.paths = paths;
    config.database_path = match &config.database_path {
        Some(d) => Some(replace_home(d.as_str(), home_dir)),
        None => None,
    };
    config.live_database_dir = replace_home(config.live_database_dir.as_str(), home_dir);
    config.media_storage_dir = replace_home(config.media_storage_dir.as_str(), home_dir);
}

impl Config {
    /// Whether the database path is missing or blank, so that a default one
    /// in the user's data directory is to be chosen.
    pub fn needs_default_database_path(&self) -> (res: bool)
        ensures
            res == match self.database_path {
                None => true,
                Some(d) => trimmed(d@).len() == 0,
            },
    {
        match &self.database_path {
            None => true,
            Some(d) => is_blank(d.as_str()),
        }
    }
}

/// A configuration needs setup exactly when it is not ready for operation.
pub proof fn law_setup_or_ready(c: Config)
    ensures
        (c.paths@.len() == 0) != (c.paths@.len() > 0),
{
}

/// A configuration without project paths is accepted in setup mode: it is
/// refused only for its port, its log level or one of its directories, and
/// its first warning says that setup is needed.
pub proof fn law_setup_mode_is_valid(c: Config, existing: Seq<(String, PathStatus)>)
    requires
        c.paths@.len() == 0,
    ensures
        validation(c, existing) matches Ok(w) ==> w.len() >= 1
            && w[0] == "No project paths configured - application will run in setup mode"@,
        validation(c, existing) is Err ==> {
            ||| c.grpc_port == 0
            ||| !valid_log_level(c.log_level@)
            ||| single_path_check(c.live_database_dir@, "Live database directory"@) is Err
            ||| (c.database_path matches Some(d) && single_path_check(d@, "Database path"@) is Err)
            ||| single_path_check(c.media_storage_dir@, "Media storage directory"@) is Err
        },
{
    assert(paths_view(c.paths@) =~= Seq::<Seq<char>>::empty());
    assert(project_paths_check(paths_view(c.paths@), existing) == Ok::<Seq<Seq<char>>, ConfigErrorView>(Seq::empty()));
    match validation(c, existing) {
        Ok(w) => {
            let setup = seq!["No project paths configured - application will run in setup mode"@];
            let w2 = paths_validation(c, existing)->Ok_0;
            assert(w == setup + w2);
            assert((setup + w2)[0] == setup[0]);
        },
        Err(_) => {},
    }
}

/// A path without the `{USER_HOME}` placeholder is left as it is.
pub proof fn law_home_placeholder_absent(s: Seq<char>, home: Seq<char>)
    requires
        !contains_seq(s, "{USER_HOME}"@),
    ensures
        with_home(s, home) == s,
{
    reveal_strlit("{USER_HOME}");
    lemma_replaced_absent(s, "{USER_HOME}"@, home);
}

/// The content of a new configuration file, given the directory of Live's
/// databases and the media storage directory: no project path, the default
/// port and log level, and the media limits left to their defaults.
pub open spec fn default_config_text(live_database_path: Seq<char>, media_storage_path: Seq<char>) -> Seq<char> {
    "# config.toml\n\n# if you change this file while the program is running, you need to restart the program for changes to take effect.\n\npaths = [\n    # put your project folder paths here\n]\n\n# use {USER_HOME} as a shortcut to your user folder\n\n# Database configuration\n# If database_path is not specified or empty, it will default to the user's data directory\n# database_path = ''\n\nlive_database_dir = '"@
        + live_database_path
        + "'\n\n# gRPC server configuration\ngrpc_port = "@
        + decimal(DEFAULT_GRPC_PORT as nat)
        + "\n\n# Logging configuration\n# Options: error, warn, info, debug, trace\nlog_level = \""@
        + default_log_level_text()
        + "\"\n\n# Media storage configuration\nmedia_storage_dir = '"@
        + media_storage_path
        + "'\n\n# Media file size limits (in MB) - Optional, 0 = no limit, omit to use defaults\n# max_cover_art_size_mb = 10\n# max_audio_file_size_mb = 50\n"@
}

/// The content of a new configuration file (see `default_config_text`).
/// Finding the two directories is left to the caller.
pub fn generate_default_config(live_database_path: &str, media_storage_path: &str) -> (res: String)
    ensures
        res@ == default_config_text(live_database_path@, media_storage_path@),
{
    proof {
        reveal_strlit("# config.toml\n\n# if you change this file while the program is running, you need to restart the program for changes to take effect.\n\npaths = [\n    # put your project folder paths here\n]\n\n# use {USER_HOME} as a shortcut to your user folder\n\n# Database configuration\n# If database_path is not specified or empty, it will default to the user's data directory\n# database_path = ''\n\nlive_database_dir = '");
        reveal_strlit("'\n\n# gRPC server configuration\ngrpc_port = ");
        reveal_strlit("\n\n# Logging configuration\n# Options: error, warn, info, debug, trace\nlog_level = \"");
        reveal_strlit("\"\n\n# Media storage configuration\nmedia_storage_dir = '");
        reveal_strlit("'\n\n# Media file size limits (in MB) - Optional, 0 = no limit, omit to use defaults\n# max_cover_art_size_mb = 10\n# max_audio_file_size_mb = 50\n");
    }
    let mut s = String::new();
    push_all(&mut s, "# config.toml\n\n# if you change this file while the program is running, you need to restart the program for changes to take effect.\n\npaths = [\n    # put your project folder paths here\n]\n\n# use {USER_HOME} as a shortcut to your user folder\n\n# Database configuration\n# If database_path is not specified or empty, it will default to the user's data directory\n# database_path = ''\n\nlive_database_dir = '");
    push_all(&mut s, live_database_path);
    push_all(&mut s, "'\n\n# gRPC server configuration\ngrpc_port = ");
    push_all(&mut s, format_decimal(DEFAULT_GRPC_PORT as u64).as_str());
    push_all(&mut s, "\n\n# Logging configuration\n# Options: error, warn, info, debug, trace\nlog_level = \"");
    push_all(&mut s, default_log_level().as_str());
    push_all(&mut s, "\"\n\n# Media storage configuration\nmedia_storage_dir = '");
    push_all(&mut s, media_storage_path);
    push_all(&mut s, "'\n\n# Media file size limits (in MB) - Optional, 0 = no limit, omit to use defaults\n# max_cover_art_size_mb = 10\n# max_audio_file_size_mb = 50\n");
    s
}

impl Config {
    /// The gRPC port: the override (an environment variable's value) when it
    /// reads as a port number, the configured one otherwise.
    pub fn grpc_port(&self, env_override: Option<&str>) -> (res: u16)
        ensures
            res == match env_override {
                Some(v) => match port_of(v@) {
                    Ok(p) => p as u16,
                    Err(_) => self.grpc_port,
                },
                None => self.grpc_port,
            },
    {
        match env_override {
            Some(v) => match parse_u16(v) {
                Ok(p) => p,
                Err(_) => self.grpc_port,
            },
            None => self.grpc_port,
        }
    }

    /// The log level: the override (an environment variable's value) when
    /// there is one, the configured one otherwise.
    pub fn log_level(&self, env_override: Option<String>) -> (res: String)
        ensures
            res@ == match env_override {
                Some(v) => v@,
                None => self.log_level@,
            },
    {
        match env_override {
            Some(v) => v,
            None => self.log_level.clone(),
        }
    }

    /// The database path: the override (an environment variable's value)
    /// when there is one, the configured one otherwise.
    pub fn database_path(&self, env_override: Option<String>) -> (res: Option<String>)
        ensures
            option_text(res) == match env_override {
                Some(v) => Some(v@),
                None => option_text(self.database_path),
            },
    {
        match env_override {
            Some(v) => Some(v),
            None => match &self.database_path {
                Some(d) => Some(d.clone()),
                None => None,
            },
        }
    }
}

} // verus!
