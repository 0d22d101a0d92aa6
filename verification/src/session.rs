//! Decisions and names of the launcher and the reader shell: ports, the
//! session file, temporary import files, where the store lives and which
//! browser is started.
use vstd::prelude::*;
use vstd::string::*;
use crate::text::{decimal, push_decimal, chars_of, parse_unsigned, parse_unsigned_range};

verus! {

/// The port used when no free port can be found.
pub const FALLBACK_PORT: u16 = 8080;

/// The port to serve on: the one the system offered, or the fallback.
pub fn free_port_or_fallback(offered: Option<u16>) -> (r: u16)
    ensures
        r == match offered {
            Some(p) => p,
            None => FALLBACK_PORT,
        },
{
    match offered {
        Some(p) => p,
        None => FALLBACK_PORT,
    }
}

/// The port a `PORT` setting names, parsed as `str::parse::<u16>` does.
pub fn parse_port(text: &str) -> (r: Option<u16>)
    ensures
        parse_unsigned(text@, 65535) == match r {
            Some(p) => Some(p as nat),
            None => None::<nat>,
        },
{
    let v = chars_of(text);
    let s = v.as_slice();
    proof {
        assert(s@.subrange(0, s@.len() as int) =~= s@);
    }
    match parse_unsigned_range(s, 0, s.len(), 65535) {
        Some(n) => Some(n as u16),
        None => None,
    }
}

/// The port asked for: the command line's, or else the `PORT` setting's
/// when it parses.
pub fn requested_port(cli: Option<u16>, env: Option<&str>) -> (r: Option<u16>)
    ensures
        cli matches Some(p) ==> r == Some(p),
        cli is None && env is None ==> r is None,
        cli is None ==> (env matches Some(t) ==> parse_unsigned(t@, 65535) == match r {
            Some(p) => Some(p as nat),
            None => None::<nat>,
        }),
{
    match cli {
        Some(p) => Some(p),
        None => match env {
            Some(t) => parse_port(t),
            None => None,
        },
    }
}

/// The file through which a session tells its port:
/// `/tmp/walking-viewer.<uuid>.sneakerweb.port`.
pub fn port_file_path(uuid: &str) -> (r: String)
    ensures
        r@ == "/tmp/walking-viewer."@ + uuid@ + ".sneakerweb.port"@,
{
    let mut r = "/tmp/walking-viewer.".to_owned();
    r.append(uuid);
    r.append(".sneakerweb.port");
    r
}

/// The text written to the port file: the port in decimal.
pub fn port_text(port: u16) -> (r: String)
    ensures
        r@ == decimal(port as nat),
{
    crate::text::decimal_string(port as u64)
}

/// The session file's document:
/// `{"uuid":"<uuid>","sneakerwebPort":<n>,"apiPort":<n>}`.
pub open spec fn session_text(uuid: Seq<char>, store_port: u16, api_port: u16) -> Seq<char> {
    "{\"uuid\":\""@ + uuid + "\",\"sneakerwebPort\":"@ + decimal(store_port as nat)
        + ",\"apiPort\":"@ + decimal(api_port as nat) + "}"@
}

/// The session file's document.
pub fn session_json(uuid: &str, store_port: u16, api_port: u16) -> (r: String)
    ensures
        r@ == session_text(uuid@, store_port, api_port),
{
    let mut r = "{\"uuid\":\"".to_owned();
    r.append(uuid);
    r.append("\",\"sneakerwebPort\":");
    push_decimal(&mut r, store_port as u64);
    r.append(",\"apiPort\":");
    push_decimal(&mut r, api_port as u64);
    r.append("}");
    r
}

/// The name of the temporary copy of an imported file:
/// `sneakerweb-import-<uuid>.snk`.
pub fn import_temp_file_name(uuid: &str) -> (r: String)
    ensures
        r@ == "sneakerweb-import-"@ + uuid@ + ".snk"@,
{
    let mut r = "sneakerweb-import-".to_owned();
    r.append(uuid);
    r.append(".snk");
    r
}

/// How entries of an imported file are chosen.
#[derive(Clone, Copy, PartialEq, Eq, Debug)]
pub enum ImportModeChoice {
    /// Every entry (`all`).
    All,
    /// Entries of familiar spaces (`familiar`).
    Familiar,
    /// The importer's own default (no mode, or any other word).
    Default,
}

/// The import mode a `--mode` word asks for.
pub fn import_mode(mode: Option<&str>) -> (r: ImportModeChoice)
    ensures
        r == match mode {
            Some(m) => if m@ == "all"@ {
                ImportModeChoice::All
            } else if m@ == "familiar"@ {
                ImportModeChoice::Familiar
            } else {
                ImportModeChoice::Default
            },
            None => ImportModeChoice::Default,
        },
{
    match mode {
        Some(m) => {
            let v = chars_of(m);
            let s = v.as_slice();
            proof {
                assert(s@.subrange(0, s@.len() as int) =~= s@);
            }
            if crate::text::range_equals(s, 0, s.len(), "all") {
                ImportModeChoice::All
            } else if crate::text::range_equals(s, 0, s.len(), "familiar") {
                ImportModeChoice::Familiar
            } else {
                ImportModeChoice::Default
            }
        },
        None => ImportModeChoice::Default,
    }
}

/// The name of the store directory made in the working directory.
pub open spec fn store_dir_name() -> Seq<char> {
    ".sneakerweb_store"@
}

/// The name of the store directory made in the working directory.
pub fn store_dir_name_text() -> (r: &'static str)
    ensures
        r@ == store_dir_name(),
{
    ".sneakerweb_store"
}

/// Where the launcher points the store.
#[derive(Clone, Copy, PartialEq, Eq, Debug)]
pub enum LauncherStoreDir {
    /// The directory given on the command line.
    FromCommandLine,
    /// The directory already set in the environment, left as it is.
    KeepEnvironment,
    /// The store directory in the working directory.
    InWorkingDirectory,
}

/// Where the launcher points the store: the command line's directory, else
/// the one already set, else one in the working directory.
pub fn launcher_store_dir(cli_given: bool, env_set: bool) -> (r: LauncherStoreDir)
    ensures
        r == if cli_given {
            LauncherStoreDir::FromCommandLine
        } else if env_set {
            LauncherStoreDir::KeepEnvironment
        } else {
            LauncherStoreDir::InWorkingDirectory
        },
{
    if cli_given {
        LauncherStoreDir::FromCommandLine
    } else if env_set {
        LauncherStoreDir::KeepEnvironment
    } else {
        LauncherStoreDir::InWorkingDirectory
    }
}

/// Where the reader shell keeps its store.
#[derive(Clone, Copy, PartialEq, Eq, Debug)]
pub enum ShellStoreDir {
    /// The directory set in the environment.
    FromEnvironment,
    /// The store directory in the working directory.
    InWorkingDirectory,
    /// The store directory relative to wherever the process runs.
    Relative,
}

/// Where the reader shell keeps its store: the environment's directory,
/// else one in the working directory when that is known, else a relative
/// one.
pub fn shell_store_dir(env_set: bool, cwd_known: bool) -> (r: ShellStoreDir)
    ensures
        r == if env_set {
            ShellStoreDir::FromEnvironment
        } else if cwd_known {
            ShellStoreDir::InWorkingDirectory
        } else {
            ShellStoreDir::Relative
        },
{
    if env_set {
        ShellStoreDir::FromEnvironment
    } else if cwd_known {
        ShellStoreDir::InWorkingDirectory
    } else {
        ShellStoreDir::Relative
    }
}

/// The name of the reader browser's executable.
pub fn browser_name() -> (r: &'static str)
    ensures
        r@ == "sneaker-reader"@,
{
    "sneaker-reader"
}

/// Which reader browser the launcher starts.
#[derive(Clone, Copy, PartialEq, Eq, Debug)]
pub enum BrowserChoice {
    /// The one given on the command line.
    FromCommandLine,
    /// The one next to the launcher's executable.
    NextToExecutable,
    /// The one in the working directory.
    InWorkingDirectory,
    /// None was found.
    NotFound,
}

/// Which reader browser the launcher starts, given whether the command
/// line's exists (`None`: none given), whether the one next to the
/// executable exists (`None`: the executable's path is unknown, which ends
/// the search) and whether the one in the working directory exists.
pub fn browser_choice(cli_exists: Option<bool>, beside_exe: Option<bool>, in_cwd: bool) -> (r:
    BrowserChoice)
    ensures
        r == if cli_exists == Some(true) {
            BrowserChoice::FromCommandLine
        } else if beside_exe is None {
            BrowserChoice::NotFound
        } else if beside_exe == Some(true) {
            BrowserChoice::NextToExecutable
        } else if in_cwd {
            BrowserChoice::InWorkingDirectory
        } else {
            BrowserChoice::NotFound
        },
{
    if cli_exists == Some(true) {
        return BrowserChoice::FromCommandLine;
    }
    match beside_exe {
        None => BrowserChoice::NotFound,
        Some(true) => BrowserChoice::NextToExecutable,
        Some(false) => if in_cwd {
            BrowserChoice::InWorkingDirectory
        } else {
            BrowserChoice::NotFound
        },
    }
}

/// The error of an import whose file does not exist:
/// `File not found: <path>`.
pub fn file_not_found_message(path: &str) -> (r: String)
    ensures
        r@ == "File not found: "@ + path@,
{
    let mut r = "File not found: ".to_owned();
    r.append(path);
    r
}


/// The port written to the port file is the port read back from it.
pub proof fn lemma_port_text_reads_back(port: u16)
    ensures
        parse_unsigned(decimal(port as nat), 65535) == Some(port as nat),
{
    crate::text::lemma_parse_decimal(port as nat, 65535);
}

} // verus!
