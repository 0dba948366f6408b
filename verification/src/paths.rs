//! Cross-platform path layout for Swictation.
//!
//! | Platform | Data directory | Socket directory |
//! |----------|----------------|------------------|
//! | Linux    | `~/.local/share/swictation` | `$XDG_RUNTIME_DIR` or data dir |
//! | macOS    | `~/Library/Application Support/swictation` | Same as data dir |
//! | Windows  | `%APPDATA%/swictation` | Data dir |
//!
//! The base directories of the platform are looked up by the caller and
//! handed in as [`PlatformDirs`]; creating directories and setting their
//! permissions is also the caller's part. Paths are joined the way
//! `Path::join` joins a relative component on Unix.
use vstd::prelude::*;

use crate::gpu::Platform;
use crate::text;

verus! {

/// Application identifier used in path construction.
pub const APP_NAME: &'static str = "swictation";

/// Socket file name for IPC communication.
pub const IPC_SOCKET_NAME: &'static str = "swictation.sock";

/// Socket file name for metrics communication.
pub const METRICS_SOCKET_NAME: &'static str = "swictation_metrics.sock";

/// Errors specific to path operations.
#[derive(Debug, Clone, PartialEq, Eq)]
pub enum PathError {
    /// Could not determine home directory
    NoHomeDirectory,
    /// Could not determine data directory
    NoDataDirectory,
    /// Could not create directory
    DirectoryCreation(String),
    /// Invalid socket path
    InvalidSocketPath(String),
}

impl PathError {
    /// The error's message.
    pub fn message(&self) -> (r: String)
        ensures
            self is NoHomeDirectory ==> r@ == "Could not determine home directory"@,
            self is NoDataDirectory ==> r@ == "Could not determine data directory"@,
            self matches PathError::DirectoryCreation(p) ==> r@ == "Could not create directory: "@
                + p@,
            self matches PathError::InvalidSocketPath(p) ==> r@ == "Invalid socket path: "@
                + p@,
    {
        match self {
            PathError::NoHomeDirectory => "Could not determine home directory".to_owned(),
            PathError::NoDataDirectory => "Could not determine data directory".to_owned(),
            PathError::DirectoryCreation(p) => {
                let mut v = text::chars_of("Could not create directory: ");
                let pc = text::chars_of(p.as_str());
                text::extend_chars(&mut v, pc.as_slice());
                text::string_of(v.as_slice())
            },
            PathError::InvalidSocketPath(p) => {
                let mut v = text::chars_of("Invalid socket path: ");
                let pc = text::chars_of(p.as_str());
                text::extend_chars(&mut v, pc.as_slice());
                text::string_of(v.as_slice())
            },
        }
    }
}

/// The base directories the platform reports.
#[derive(Debug, Clone)]
pub struct PlatformDirs {
    /// The platform the daemon runs on.
    pub platform: Platform,
    /// The user's home directory.
    pub home_dir: Option<String>,
    /// The user's data directory (`~/.local/share`, `~/Library/Application
    /// Support`, `%APPDATA%`).
    pub data_dir: Option<String>,
    /// The user's configuration directory (`~/.config` on Linux).
    pub config_dir: Option<String>,
    /// `$XDG_RUNTIME_DIR`, when it is set and exists.
    pub runtime_dir: Option<String>,
}

/// `base` joined with `name`, as `Path::join` does it on Unix: an absolute
/// `name` replaces `base`, otherwise a separator is added unless `base` is
/// empty or already ends with one.
pub open spec fn join_path(base: Seq<char>, name: Seq<char>) -> Seq<char> {
    if name.len() > 0 && name[0] == '/' {
        name
    } else if base.len() == 0 {
        name
    } else if base.last() == '/' {
        base + name
    } else {
        base + seq!['/'] + name
    }
}

/// `base` joined with `name`.
pub fn join(base: &str, name: &str) -> (r: String)
    ensures
        r@ == join_path(base@, name@),
{
    let b = text::chars_of(base);
    let n = text::chars_of(name);
    if n.len() > 0 && n[0] == '/' {
        return name.to_owned();
    }
    let mut out = text::copy_chars(b.as_slice());
    if b.len() > 0 && b[b.len() - 1] != '/' {
        out.push('/');
    }
    text::extend_chars(&mut out, n.as_slice());
    proof {
        if b@.len() > 0 {
            assert(b@.last() == b@[b@.len() - 1]);
        }
        assert(Seq::<char>::empty() + n@ =~= n@);
    }
    text::string_of(out.as_slice())
}

pub open spec fn opt_view(o: Option<String>) -> Option<Seq<char>> {
    match o {
        Some(s) => Some(s@),
        None => None,
    }
}

pub open spec fn app_name() -> Seq<char> {
    "swictation"@
}

/// The application data directory: `<data dir>/swictation`.
pub open spec fn data_dir_spec(dirs: PlatformDirs) -> Option<Seq<char>> {
    match opt_view(dirs.data_dir) {
        Some(b) => Some(join_path(b, app_name())),
        None => None,
    }
}

/// The socket directory: `$XDG_RUNTIME_DIR` on Linux when it exists, the
/// data directory otherwise.
pub open spec fn socket_dir_spec(dirs: PlatformDirs) -> Option<Seq<char>> {
    if dirs.platform == Platform::Linux && dirs.runtime_dir is Some {
        opt_view(dirs.runtime_dir)
    } else {
        data_dir_spec(dirs)
    }
}

/// The logs directory: `~/Library/Logs/swictation` on macOS,
/// `<data dir>/logs` elsewhere.
pub open spec fn logs_dir_spec(dirs: PlatformDirs) -> Result<Seq<char>, PathError> {
    if dirs.platform == Platform::MacOs {
        match opt_view(dirs.home_dir) {
            Some(h) => Ok(join_path(join_path(join_path(h, "Library"@), "Logs"@), app_name())),
            None => Err(PathError::NoHomeDirectory),
        }
    } else {
        match data_dir_spec(dirs) {
            Some(d) => Ok(join_path(d, "logs"@)),
            None => Err(PathError::NoDataDirectory),
        }
    }
}

/// The configuration directory: `~/.config/swictation` on Linux, the data
/// directory elsewhere.
pub open spec fn config_dir_spec(dirs: PlatformDirs) -> Option<Seq<char>> {
    if dirs.platform == Platform::Linux {
        match opt_view(dirs.config_dir) {
            Some(c) => Some(join_path(c, app_name())),
            None => None,
        }
    } else {
        data_dir_spec(dirs)
    }
}

/// A path below the data directory.
pub open spec fn in_data_dir(dirs: PlatformDirs, name: Seq<char>) -> Option<Seq<char>> {
    match data_dir_spec(dirs) {
        Some(d) => Some(join_path(d, name)),
        None => None,
    }
}

/// A path below the socket directory.
pub open spec fn in_socket_dir(dirs: PlatformDirs, name: Seq<char>) -> Option<Seq<char>> {
    match socket_dir_spec(dirs) {
        Some(d) => Some(join_path(d, name)),
        None => None,
    }
}

/// The result that a lookup gives: the path, or `NoDataDirectory`.
pub open spec fn found(p: Option<Seq<char>>, r: Result<String, PathError>) -> bool {
    match p {
        Some(path) => r matches Ok(s) && s@ == path,
        None => r == Err::<String, PathError>(PathError::NoDataDirectory),
    }
}

/// The application data directory.
pub fn get_data_dir(dirs: &PlatformDirs) -> (r: Result<String, PathError>)
    ensures
        found(data_dir_spec(*dirs), r),
{
    match &dirs.data_dir {
        Some(base) => Ok(join(base.as_str(), APP_NAME)),
        None => Err(PathError::NoDataDirectory),
    }
}

/// The socket directory for IPC sockets.
pub fn get_socket_dir(dirs: &PlatformDirs) -> (r: Result<String, PathError>)
    ensures
        found(socket_dir_spec(*dirs), r),
{
    if dirs.platform == Platform::Linux {
        match &dirs.runtime_dir {
            Some(runtime) => {
                return Ok(runtime.clone());
            },
            None => {},
        }
    }
    get_data_dir(dirs)
}

fn below(dir: Result<String, PathError>, name: &str) -> (r: Result<String, PathError>)
    ensures
        dir matches Ok(d) ==> r matches Ok(s) && s@ == join_path(d@, name@),
        dir matches Err(e) ==> r == Err::<String, PathError>(e),
{
    match dir {
        Ok(d) => Ok(join(d.as_str(), name)),
        Err(e) => Err(e),
    }
}

/// The path of the main IPC socket.
pub fn get_ipc_socket_path(dirs: &PlatformDirs) -> (r: Result<String, PathError>)
    ensures
        found(in_socket_dir(*dirs, "swictation.sock"@), r),
{
    below(get_socket_dir(dirs), IPC_SOCKET_NAME)
}

/// The path of the metrics socket.
pub fn get_metrics_socket_path(dirs: &PlatformDirs) -> (r: Result<String, PathError>)
    ensures
        found(in_socket_dir(*dirs, "swictation_metrics.sock"@), r),
{
    below(get_socket_dir(dirs), METRICS_SOCKET_NAME)
}

/// The models directory: `<data dir>/models`.
pub fn get_models_dir(dirs: &PlatformDirs) -> (r: Result<String, PathError>)
    ensures
        found(in_data_dir(*dirs, "models"@), r),
{
    below(get_data_dir(dirs), "models")
}

/// The logs directory.
pub fn get_logs_dir(dirs: &PlatformDirs) -> (r: Result<String, PathError>)
    ensures
        match logs_dir_spec(*dirs) {
            Ok(p) => r matches Ok(s) && s@ == p,
            Err(e) => r == Err::<String, PathError>(e),
        },
{
    if dirs.platform == Platform::MacOs {
        match &dirs.home_dir {
            Some(home) => {
                let lib = join(home.as_str(), "Library");
                let logs = join(lib.as_str(), "Logs");
                Ok(join(logs.as_str(), APP_NAME))
            },
            None => Err(PathError::NoHomeDirectory),
        }
    } else {
        below(get_data_dir(dirs), "logs")
    }
}

/// The configuration directory.
pub fn get_config_dir(dirs: &PlatformDirs) -> (r: Result<String, PathError>)
    ensures
        found(config_dir_spec(*dirs), r),
{
    if dirs.platform == Platform::Linux {
        match &dirs.config_dir {
            Some(base) => Ok(join(base.as_str(), APP_NAME)),
            None => Err(PathError::NoDataDirectory),
        }
    } else {
        get_data_dir(dirs)
    }
}

/// The database directory: `<data dir>/db`.
pub fn get_db_dir(dirs: &PlatformDirs) -> (r: Result<String, PathError>)
    ensures
        found(in_data_dir(*dirs, "db"@), r),
{
    below(get_data_dir(dirs), "db")
}

/// The GPU libraries directory: `<data dir>/gpu-libs`.
pub fn get_gpu_libs_dir(dirs: &PlatformDirs) -> (r: Result<String, PathError>)
    ensures
        found(in_data_dir(*dirs, "gpu-libs"@), r),
{
    below(get_data_dir(dirs), "gpu-libs")
}

/// The IPC socket path, for callers to which a missing directory is fatal.
pub fn ipc_socket_path(dirs: &PlatformDirs) -> (r: String)
    requires
        socket_dir_spec(*dirs) is Some,
    ensures
        Some(r@) == in_socket_dir(*dirs, "swictation.sock"@),
{
    match get_ipc_socket_path(dirs) {
        Ok(p) => p,
        Err(_) => {
            assert(false);
            String::new()
        },
    }
}

/// The metrics socket path, for callers to which a missing directory is
/// fatal.
pub fn metrics_socket_path(dirs: &PlatformDirs) -> (r: String)
    requires
        socket_dir_spec(*dirs) is Some,
    ensures
        Some(r@) == in_socket_dir(*dirs, "swictation_metrics.sock"@),
{
    match get_metrics_socket_path(dirs) {
        Ok(p) => p,
        Err(_) => {
            assert(false);
            String::new()
        },
    }
}

/// The socket directory, for callers to which a missing directory is fatal.
pub fn socket_dir(dirs: &PlatformDirs) -> (r: String)
    requires
        socket_dir_spec(*dirs) is Some,
    ensures
        Some(r@) == socket_dir_spec(*dirs),
{
    match get_socket_dir(dirs) {
        Ok(p) => p,
        Err(_) => {
            assert(false);
            String::new()
        },
    }
}

/// The data directory, for callers to which a missing directory is fatal.
pub fn data_dir(dirs: &PlatformDirs) -> (r: String)
    requires
        dirs.data_dir is Some,
    ensures
        Some(r@) == data_dir_spec(*dirs),
{
    match get_data_dir(dirs) {
        Ok(p) => p,
        Err(_) => {
            assert(false);
            String::new()
        },
    }
}

/// The models directory, for callers to which a missing directory is fatal.
pub fn models_dir(dirs: &PlatformDirs) -> (r: String)
    requires
        dirs.data_dir is Some,
    ensures
        Some(r@) == in_data_dir(*dirs, "models"@),
{
    match get_models_dir(dirs) {
        Ok(p) => p,
        Err(_) => {
            assert(false);
            String::new()
        },
    }
}

/// The logs directory, for callers to which a missing directory is fatal.
pub fn logs_dir(dirs: &PlatformDirs) -> (r: String)
    requires
        logs_dir_spec(*dirs) is Ok,
    ensures
        Ok::<Seq<char>, PathError>(r@) == logs_dir_spec(*dirs),
{
    match get_logs_dir(dirs) {
        Ok(p) => p,
        Err(_) => {
            assert(false);
            String::new()
        },
    }
}

/// The configuration directory, for callers to which a missing directory is
/// fatal.
pub fn config_dir(dirs: &PlatformDirs) -> (r: String)
    requires
        config_dir_spec(*dirs) is Some,
    ensures
        Some(r@) == config_dir_spec(*dirs),
{
    match get_config_dir(dirs) {
        Ok(p) => p,
        Err(_) => {
            assert(false);
            String::new()
        },
    }
}

/// The database directory, for callers to which a missing directory is
/// fatal.
pub fn db_dir(dirs: &PlatformDirs) -> (r: String)
    requires
        dirs.data_dir is Some,
    ensures
        Some(r@) == in_data_dir(*dirs, "db"@),
{
    match get_db_dir(dirs) {
        Ok(p) => p,
        Err(_) => {
            assert(false);
            String::new()
        },
    }
}

/// The GPU libraries directory, for callers to which a missing directory is
/// fatal.
pub fn gpu_libs_dir(dirs: &PlatformDirs) -> (r: String)
    requires
        dirs.data_dir is Some,
    ensures
        Some(r@) == in_data_dir(*dirs, "gpu-libs"@),
{
    match get_gpu_libs_dir(dirs) {
        Ok(p) => p,
        Err(_) => {
            assert(false);
            String::new()
        },
    }
}

/// The two sockets live side by side in the socket directory, under
/// different names, and both lookups fail exactly when the socket directory
/// cannot be determined.
pub proof fn lemma_sockets_share_directory(dirs: PlatformDirs)
    ensures
        in_socket_dir(dirs, "swictation.sock"@) is Some <==> socket_dir_spec(dirs) is Some,
        in_socket_dir(dirs, "swictation_metrics.sock"@) is Some <==> socket_dir_spec(dirs) is Some,
        socket_dir_spec(dirs) is Some ==> in_socket_dir(dirs, "swictation.sock"@)
            != in_socket_dir(dirs, "swictation_metrics.sock"@),
{
    reveal_strlit("swictation.sock");
    reveal_strlit("swictation_metrics.sock");
    if socket_dir_spec(dirs) is Some {
        let d = socket_dir_spec(dirs).unwrap();
        let a = join_path(d, "swictation.sock"@);
        let b = join_path(d, "swictation_metrics.sock"@);
        assert(a.len() != b.len());
    }
}

} // verus!
