//! Discovery of the running game client and parsing of its credential file.
//!
//! The client writes a single-line, colon-delimited "lockfile" under its
//! install directory on startup: `process:pid:port:password:protocol`, with
//! at least five fields (extras are ignored). Parsing those fields and
//! synthesizing the fixed username, loopback address and Basic-Auth token
//! yields the [`RiotLockFile`] credentials for the local service.

use vstd::prelude::*;

use crate::strutil::{
    all_digits, ascii_lower, ascii_lower_eq, dec_val, join_args, split_colon,
    split_colon_exec, views_of,
};
use crate::installdir::{extract_install_dir, extract_install_dir_exec};

use base64::Engine;
use base64::prelude::BASE64_STANDARD;

verus! {

/// Credentials for the local client service, as read from the lockfile and
/// completed with the fixed username, loopback address and Basic-Auth token.
#[derive(Debug, Clone, PartialEq)]
pub struct RiotLockFile {
    pub process: String,
    pub pid: u32,
    pub port: u32,
    pub password: String,
    pub protocol: String,
    pub username: String,
    pub address: String,
    pub b64_auth: String,
}

/// Failure modes of discovery and lockfile parsing. Every failure is a
/// value; none of these aborts the host process.
#[derive(Debug, Clone, PartialEq)]
pub enum LeagueConnectorError {
    /// No running client process with a known name, or its arguments carried
    /// no install directory.
    NoInstallationPath,
    /// The install path could not be represented as text.
    EmptyPath,
    /// The lockfile held fewer than five colon-separated fields.
    InvalidLockfileFormat,
    /// The lockfile could not be read.
    UnableToRead,
    /// The named numeric field (pid or port) did not parse.
    NumberParse { name: &'static str },
}

/// What the standard base64 encoding (with padding) of a character
/// sequence's UTF-8 bytes is.
pub uninterp spec fn base64_of(s: Seq<char>) -> Seq<char>;

/// Relies on base64's `BASE64_STANDARD` engine: `Engine::encode` renders the
/// input bytes in the standard alphabet with padding, a pure function of the
/// input alone; the empty input encodes to the empty string.
#[verifier::external_body]
fn base64_encode(s: &str) -> (r: String)
    ensures
        r@ == base64_of(s@),
        s@.len() == 0 ==> r@.len() == 0,
{
    BASE64_STANDARD.encode(s.as_bytes())
}

/// A numeric lockfile field as `str::parse::<u32>` accepts it: an optional
/// leading plus sign, then one or more decimal digits, with a value that
/// fits in 32 bits.
pub open spec fn u32_field_digits(s: Seq<char>) -> Seq<char> {
    if s.len() >= 1 && s[0] == '+' {
        s.drop_first()
    } else {
        s
    }
}

pub open spec fn u32_field_ok(s: Seq<char>) -> bool {
    all_digits(u32_field_digits(s)) && dec_val(u32_field_digits(s)) <= u32::MAX
}

pub open spec fn u32_field_val(s: Seq<char>) -> nat {
    dec_val(u32_field_digits(s))
}

/// Parses a numeric lockfile field, succeeding exactly on `u32_field_ok`
/// inputs.
pub fn parse_u32_field(s: &str) -> (r: Option<u32>)
    ensures
        r is Some <==> u32_field_ok(s@),
        r is Some ==> r->Some_0 == u32_field_val(s@),
{
    let n = s.unicode_len();
    if n >= 1 && s.get_char(0) == '+' {
        let digits = s.substring_char(1, n);
        proof {
            assert(digits@ =~= s@.drop_first());
        }
        crate::strutil::parse_u32_digits(digits)
    } else {
        crate::strutil::parse_u32_digits(s)
    }
}

/// One process from a scan of the host's process table: its name, id, and
/// full command line.
#[derive(Debug, Clone, PartialEq)]
pub struct ProcessRecord {
    pub name: String,
    pub pid: u32,
    pub cmd: Vec<String>,
}

/// Relies on sysinfo's `System`: `new_all` plus `refresh_processes` take one
/// snapshot of the host process table, and `processes` hands its entries
/// out; each is converted to its name, id and argument list as plain
/// strings. The snapshot depends on the machine's state, so nothing is
/// promised of the result.
#[verifier::external_body]
fn scan_processes() -> (r: Vec<ProcessRecord>)
{
    let mut system = sysinfo::System::new_all();
    system.refresh_processes(sysinfo::ProcessesToUpdate::All, true);
    system
        .processes()
        .values()
        .map(|p| ProcessRecord {
            name: p.name().to_string_lossy().into_owned(),
            pid: p.pid().as_u32(),
            cmd: p.cmd().iter().map(|a| a.to_string_lossy().into_owned()).collect(),
        })
        .collect()
}

/// Whether a process name is one of the known client UI executable names,
/// compared after ASCII case folding; the name carries the platform's
/// executable suffix or none.
pub open spec fn is_client_ui_name(name: Seq<char>) -> bool {
    ascii_lower(name) == "leagueclientux.exe"@ || ascii_lower(name) == "leagueclientux"@
}

pub fn client_ui_name(name: &str) -> (r: bool)
    ensures
        r == is_client_ui_name(name@),
{
    ascii_lower_eq(name, "leagueclientux.exe") || ascii_lower_eq(name, "leagueclientux")
}

/// Finds the first scanned process whose name is a known client UI name.
pub fn find_ui_process(records: &Vec<ProcessRecord>) -> (r: Option<usize>)
    ensures
        r matches Some(i) ==> i < records@.len() && is_client_ui_name(records@[i as int].name@)
            && forall|k: int| 0 <= k < i ==> !is_client_ui_name(#[trigger] records@[k].name@),
        r is None ==> forall|k: int|
            0 <= k < records@.len() ==> !is_client_ui_name(#[trigger] records@[k].name@),
{
    let mut i: usize = 0;
    while i < records.len()
        invariant
            0 <= i <= records@.len(),
            forall|k: int| 0 <= k < i ==> !is_client_ui_name(#[trigger] records@[k].name@),
        decreases records@.len() - i,
    {
        if client_ui_name(records[i].name.as_str()) {
            return Some(i);
        }
        i += 1;
    }
    None
}

/// Exactly how one lockfile parse must come out for the given contents: the
/// fields are the colon-split pieces, fewer than five fields is the format
/// failure, a bad numeric field names itself, and a success carries the five
/// fields with the fixed username, loopback address, and the Basic-Auth
/// token of `riot:<password>`.
pub open spec fn parse_outcome(s: Seq<char>, r: Result<RiotLockFile, LeagueConnectorError>) -> bool {
    let fs = split_colon(s);
    &&& (fs.len() < 5 <==> r == Err::<RiotLockFile, LeagueConnectorError>(
        LeagueConnectorError::InvalidLockfileFormat,
    ))
    &&& (fs.len() >= 5 && !u32_field_ok(fs[1]) ==> ({
        &&& r matches Err(e)
        &&& e matches LeagueConnectorError::NumberParse { name }
        &&& name@ == "pid"@
    }))
    &&& (fs.len() >= 5 && u32_field_ok(fs[1]) && !u32_field_ok(fs[2]) ==> ({
        &&& r matches Err(e)
        &&& e matches LeagueConnectorError::NumberParse { name }
        &&& name@ == "port"@
    }))
    &&& (fs.len() >= 5 && u32_field_ok(fs[1]) && u32_field_ok(fs[2]) ==> ({
        &&& r matches Ok(l)
        &&& l.process@ == fs[0]
        &&& l.pid == u32_field_val(fs[1])
        &&& l.port == u32_field_val(fs[2])
        &&& l.password@ == fs[3]
        &&& l.protocol@ == fs[4]
        &&& l.username@ == "riot"@
        &&& l.address@ == "127.0.0.1"@
        &&& l.b64_auth@ == base64_of("riot:"@ + fs[3])
    }))
}

/// Law: lockfile parsing is deterministic. Any two outcomes the parsing
/// contract admits for the same contents agree: they succeed or fail alike,
/// a success agrees on every credential field (the token being base64 of
/// `riot:<password>` exactly), and a failure is the same error naming the
/// same field.
pub proof fn lemma_parse_deterministic(
    s: Seq<char>,
    r1: Result<RiotLockFile, LeagueConnectorError>,
    r2: Result<RiotLockFile, LeagueConnectorError>,
)
    requires
        parse_outcome(s, r1),
        parse_outcome(s, r2),
    ensures
        r1 is Ok <==> r2 is Ok,
        r1 matches Ok(l1) ==> ({
            &&& r2 matches Ok(l2)
            &&& l1.process@ == l2.process@
            &&& l1.pid == l2.pid
            &&& l1.port == l2.port
            &&& l1.password@ == l2.password@
            &&& l1.protocol@ == l2.protocol@
            &&& l1.username@ == l2.username@
            &&& l1.address@ == l2.address@
            &&& l1.b64_auth@ == l2.b64_auth@
            &&& l1.b64_auth@ == base64_of("riot:"@ + l1.password@)
        }),
        r1 matches Err(e1) ==> ({
            &&& r2 matches Err(e2)
            &&& error_agrees(e1, e2)
        }),
{
}

/// Two discovery errors that are the same failure, with any named field
/// compared by its text.
pub open spec fn error_agrees(e1: LeagueConnectorError, e2: LeagueConnectorError) -> bool {
    match (e1, e2) {
        (LeagueConnectorError::NoInstallationPath, LeagueConnectorError::NoInstallationPath) => true,
        (LeagueConnectorError::EmptyPath, LeagueConnectorError::EmptyPath) => true,
        (
            LeagueConnectorError::InvalidLockfileFormat,
            LeagueConnectorError::InvalidLockfileFormat,
        ) => true,
        (LeagueConnectorError::UnableToRead, LeagueConnectorError::UnableToRead) => true,
        (
            LeagueConnectorError::NumberParse { name: n1 },
            LeagueConnectorError::NumberParse { name: n2 },
        ) => n1@ == n2@,
        _ => false,
    }
}

/// Entry points for locating the running client and turning its lockfile
/// contents into credentials.
pub struct LeagueClientConnector {}

impl LeagueClientConnector {
    /// Locates the client UI process and extracts its install directory from
    /// the process's command-line arguments.
    ///
    /// The scan of the process table depends on the machine's state, so the
    /// contract binds each outcome rather than promising one: a returned
    /// path is always one the argument grammar produces, and the only
    /// failure is `NoInstallationPath`.
    pub fn get_path() -> (r: Result<String, LeagueConnectorError>)
        ensures
            r matches Ok(p) ==> exists|args: Seq<char>| extract_install_dir(args) == Some(p@),
            r matches Err(e) ==> e == LeagueConnectorError::NoInstallationPath,
    {
        let records = scan_processes();
        match find_ui_process(&records) {
            None => Err(LeagueConnectorError::NoInstallationPath),
            Some(i) => {
                let joined = join_args(&records[i].cmd);
                match extract_install_dir_exec(joined.as_str()) {
                    Some(dir) => {
                        proof {
                            assert(extract_install_dir(joined@) == Some(dir@));
                        }
                        Ok(dir)
                    },
                    None => Err(LeagueConnectorError::NoInstallationPath),
                }
            },
        }
    }

    /// Parses one lockfile's contents into credentials.
    ///
    /// The contents split on colons into at least five fields —
    /// `process:pid:port:password:protocol`, extras ignored — with numeric
    /// pid and port; the result is completed with the fixed username,
    /// loopback address, and the Basic-Auth token derived from
    /// `riot:<password>`. The contract, `parse_outcome`, pins every field
    /// and each failure to the input alone.
    pub fn parse_lockfile_contents(contents: &str) -> (r: Result<
        RiotLockFile,
        LeagueConnectorError,
    >)
        ensures
            parse_outcome(contents@, r),
    {
        let pieces = split_colon_exec(contents);
        proof {
            assert(views_of(pieces@) == split_colon(contents@));
        }
        if pieces.len() < 5 {
            return Err(LeagueConnectorError::InvalidLockfileFormat);
        }
        let pid = match parse_u32_field(pieces[1].as_str()) {
            Some(v) => v,
            None => {
                return Err(LeagueConnectorError::NumberParse { name: "pid" });
            },
        };
        let port = match parse_u32_field(pieces[2].as_str()) {
            Some(v) => v,
            None => {
                return Err(LeagueConnectorError::NumberParse { name: "port" });
            },
        };
        let process = pieces[0].clone();
        let password = pieces[3].clone();
        let protocol = pieces[4].clone();
        let username = String::from_str("riot");
        let address = String::from_str("127.0.0.1");
        let mut auth_input = String::from_str("riot:");
        auth_input.append(password.as_str());
        let b64_auth = base64_encode(auth_input.as_str());
        Ok(RiotLockFile { process, pid, port, password, protocol, username, address, b64_auth })
    }
}

} // verus!
