//! The forms in which the `promin` client answers a `--json` command, and the files that it keeps
//! beside its store.

use crate::name_map::NameMap;
use crate::text::{trim, trimmed};
use vstd::prelude::*;
use vstd::string::*;

verus! {

/// The envelope in which a failure is reported: `{ok: false, error}`. Of the commands that
/// succeed only some carry an `ok`.
#[derive(Debug, Clone)]
pub struct ProminError {
    pub ok: bool,
    pub error: String,
}

/// `search`: `{query, results: [name...]}`.
#[derive(Debug, Clone)]
pub struct SearchResult {
    pub query: String,
    pub results: Vec<String>,
}

/// `recipes`: `{recipes: [name...]}`.
#[derive(Debug, Clone)]
pub struct RecipesResult {
    pub recipes: Vec<String>,
}

/// `accept-eula`: `{ok, channel, eula_accepted}`. `eula_accepted` is the path of the marker that
/// records the consent.
#[derive(Debug, Clone)]
pub struct AcceptEulaResult {
    pub ok: bool,
    pub channel: String,
    pub eula_accepted: String,
}

/// `list`: `{packages: {name: store_name}}`. A store name is the last component of a store path.
#[derive(Debug, Clone)]
pub struct ListResult {
    pub packages: NameMap<String>,
}

/// `status`: the release, the generations, and whether a lock is in force.
#[derive(Debug, Clone)]
pub struct StatusResult {
    pub release: String,
    pub current_generation: i64,
    pub generations: Vec<i64>,
    pub servers: Option<Vec<String>>,
    pub offline: bool,
    pub lock: bool,
    pub lock_packages: Option<u64>,
}

/// `generations`: `{current, generations: []}`.
#[derive(Debug, Clone)]
pub struct GenerationsResult {
    pub current: i64,
    pub generations: Vec<i64>,
}

/// `install`: `{ok: true, installed}` or `{ok: false, error}`.
#[derive(Debug, Clone)]
pub struct InstallResult {
    pub ok: bool,
    pub installed: Option<String>,
    pub error: Option<String>,
}

/// `remove`: `{ok: true, removed}` or `{ok: false, error}`.
#[derive(Debug, Clone)]
pub struct RemoveResult {
    pub ok: bool,
    pub removed: Option<String>,
    pub error: Option<String>,
}

/// `lock.json`: the pin of a release. It says what is available and what has a newer build.
#[derive(Debug, Clone)]
pub struct Lock {
    pub release: Option<String>,
    pub promin_ref: Option<String>,
    pub package_count: Option<u64>,
    pub packages: NameMap<LockEntry>,
}

/// The pin of one package.
#[derive(Debug, Clone)]
pub struct LockEntry {
    pub version: String,
    pub input_hash: String,
    pub runtime_deps: Vec<String>,
    /// Present in some locks only; where it is missing it is composed from the other fields.
    pub store_name: Option<String>,
}

/// `config.json`: the servers and the channel of the client.
#[derive(Debug, Clone)]
pub struct ProminConfig {
    pub servers: Vec<String>,
    pub offline: bool,
    pub timeout: u64,
    /// The channel, that is the version of a release; empty where none is chosen.
    pub release: String,
}

/// The contents of a [`LockEntry`].
#[verifier::ext_equal]
pub struct LockEntryView {
    pub version: Seq<char>,
    pub input_hash: Seq<char>,
    pub runtime_deps: Seq<Seq<char>>,
    pub store_name: Option<Seq<char>>,
}

/// The contents of a [`Lock`].
#[verifier::ext_equal]
pub struct LockView {
    pub release: Option<Seq<char>>,
    pub promin_ref: Option<Seq<char>>,
    pub package_count: Option<u64>,
    pub packages: Map<Seq<char>, LockEntryView>,
}

/// The contents of a [`ProminConfig`].
#[verifier::ext_equal]
pub struct ProminConfigView {
    pub servers: Seq<Seq<char>>,
    pub offline: bool,
    pub timeout: u64,
    pub release: Seq<char>,
}

impl View for LockEntry {
    type V = LockEntryView;

    open spec fn view(&self) -> LockEntryView {
        LockEntryView {
            version: self.version@,
            input_hash: self.input_hash@,
            runtime_deps: self.runtime_deps.deep_view(),
            store_name: self.store_name.deep_view(),
        }
    }
}

impl DeepView for LockEntry {
    type V = LockEntryView;

    open spec fn deep_view(&self) -> LockEntryView {
        self@
    }
}

impl View for Lock {
    type V = LockView;

    open spec fn view(&self) -> LockView {
        LockView {
            release: self.release.deep_view(),
            promin_ref: self.promin_ref.deep_view(),
            package_count: self.package_count,
            packages: self.packages.deep_view(),
        }
    }
}

impl DeepView for Lock {
    type V = LockView;

    open spec fn deep_view(&self) -> LockView {
        self@
    }
}

impl View for ProminConfig {
    type V = ProminConfigView;

    open spec fn view(&self) -> ProminConfigView {
        ProminConfigView {
            servers: self.servers.deep_view(),
            offline: self.offline,
            timeout: self.timeout,
            release: self.release@,
        }
    }
}

impl LockEntryView {
    /// The name under which the package stands in the store: as recorded, else
    /// `<hash>-<name>-<version>`.
    pub open spec fn store_name(self, name: Seq<char>) -> Seq<char> {
        match self.store_name {
            Some(recorded) => recorded,
            None => self.input_hash + "-"@ + name + "-"@ + self.version,
        }
    }
}

impl LockEntry {
    /// The name under which the package `name` stands in the store.
    pub fn store_name(&self, name: &str) -> (r: String)
        ensures
            r@ == self@.store_name(name@),
    {
        match &self.store_name {
            Some(recorded) => recorded.clone(),
            None => self.input_hash.clone().concat("-").concat(name).concat("-").concat(
                self.version.as_str(),
            ),
        }
    }
}

/// The servers of a client that has no configuration.
pub fn default_servers() -> (r: Vec<String>)
    ensures
        r.deep_view() == seq!["https://cache.svitlolinux.org"@],
{
    let mut servers: Vec<String> = Vec::new();
    servers.push("https://cache.svitlolinux.org".to_string());
    assert(servers.deep_view() =~= seq!["https://cache.svitlolinux.org"@]);
    servers
}

/// The timeout, in seconds, of a client that has no configuration.
pub fn default_timeout() -> (r: u64)
    ensures
        r == 30,
{
    30
}

/// The configuration of a client that has none on disk.
pub open spec fn default_config() -> ProminConfigView {
    ProminConfigView {
        servers: seq!["https://cache.svitlolinux.org"@],
        offline: false,
        timeout: 30,
        release: Seq::empty(),
    }
}

impl Default for ProminConfig {
    fn default() -> (r: Self)
        ensures
            r@ == default_config(),
    {
        ProminConfig {
            servers: default_servers(),
            offline: false,
            timeout: default_timeout(),
            release: String::new(),
        }
    }
}

/// What a JSON decoder makes of one line: read as a failure envelope, and read as the answer that
/// is expected. A line can be both.
#[derive(Debug)]
pub struct Decoded<T> {
    /// The envelope, where the line has that form.
    pub envelope: Option<ProminError>,
    /// The answer, or what the decoder objects to.
    pub payload: Result<T, String>,
}

/// What a command printed, together with the reading of it.
#[derive(Debug)]
pub struct Reply<T> {
    pub stdout: String,
    pub decoded: Decoded<T>,
}

/// A result with the text of its error.
pub open spec fn text_result<T>(r: Result<T, String>) -> Result<T, Seq<char>> {
    match r {
        Ok(v) => Ok(v),
        Err(e) => Err(e@),
    }
}

/// The failure that `envelope` reports, if it reports one.
pub open spec fn reported(envelope: Option<ProminError>) -> Option<Seq<char>> {
    match envelope {
        Some(e) => if e.ok {
            None
        } else {
            Some(e.error@)
        },
        None => None,
    }
}

/// What a printed line means: nothing printed is an error, a reported failure is that failure, and
/// anything else is the answer or the decoder's objection to it.
pub open spec fn parsed<T>(stdout: Seq<char>, decoded: Decoded<T>) -> Result<T, Seq<char>> {
    let line = trimmed(stdout);
    if line.len() == 0 {
        Err("promin: пустой вывод"@)
    } else {
        match reported(decoded.envelope) {
            Some(error) => Err(error),
            None => match decoded.payload {
                Ok(v) => Ok(v),
                Err(e) => Err("promin: разбор JSON: "@ + e@ + " (вход: "@ + line + ")"@),
            },
        }
    }
}

/// What a command answered: an error where it could not be run, else what it printed means.
pub open spec fn answered<T>(run: Result<Reply<T>, String>) -> Result<T, Seq<char>> {
    match run {
        Err(e) => Err(e@),
        Ok(reply) => parsed(reply.stdout@, reply.decoded),
    }
}

/// Reads what a command printed, given what a decoder made of the line without the white space
/// around it.
pub fn parse_decoded<T>(stdout: &str, decoded: Decoded<T>) -> (r: Result<T, String>)
    ensures
        text_result(r) == parsed(stdout@, decoded),
{
    let line = trim(stdout);
    if line.is_empty() {
        return Err("promin: пустой вывод".to_string());
    }
    if let Some(e) = decoded.envelope {
        if !e.ok {
            return Err(e.error);
        }
    }
    match decoded.payload {
        Ok(v) => Ok(v),
        Err(e) => Err(
            "promin: разбор JSON: ".to_string().concat(e.as_str()).concat(" (вход: ").concat(
                line,
            ).concat(")"),
        ),
    }
}

/// `decoded` is what `read` makes of what a command printed, without the white space around it.
pub open spec fn reads_as<T, F: Fn(&str) -> Decoded<T>>(
    read: F,
    stdout: Seq<char>,
    decoded: Decoded<T>,
) -> bool {
    exists|line: &str| line@ == trimmed(stdout) && #[trigger] call_ensures(read, (line,), decoded)
}

/// Reading what a command printed with the decoder `read` may give `result`: nothing printed is an
/// error, and anything else means what the decoder makes of it.
pub open spec fn parses_to<T, F: Fn(&str) -> Decoded<T>>(
    read: F,
    stdout: Seq<char>,
    result: Result<T, Seq<char>>,
) -> bool {
    if trimmed(stdout).len() == 0 {
        result == Err::<T, Seq<char>>("promin: пустой вывод"@)
    } else {
        exists|decoded: Decoded<T>| #[trigger]
            reads_as(read, stdout, decoded) && result == parsed(stdout, decoded)
    }
}

/// Reads what a command printed. The decoder `read` is handed the line without the white space
/// around it.
pub fn parse_or_err<T>(stdout: &str, read: impl Fn(&str) -> Decoded<T>) -> (r: Result<T, String>)
    requires
        forall|line: &str| #[trigger] call_requires(read, (line,)),
    ensures
        parses_to(read, stdout@, text_result(r)),
{
    let line = trim(stdout);
    if line.is_empty() {
        return Err("promin: пустой вывод".to_string());
    }
    let decoded = read(line);
    assert(reads_as(read, stdout@, decoded));
    parse_decoded(stdout, decoded)
}

/// What a command printed, together with what the decoder `read` makes of it.
pub fn read_reply<T>(stdout: String, read: impl Fn(&str) -> Decoded<T>) -> (r: Reply<T>)
    requires
        forall|line: &str| #[trigger] call_requires(read, (line,)),
    ensures
        r.stdout@ == stdout@,
        reads_as(read, stdout@, r.decoded),
{
    let decoded = read(trim(stdout.as_str()));
    Reply { stdout, decoded }
}

/// Reads the answer to a command.
pub fn answer<T>(run: Result<Reply<T>, String>) -> (r: Result<T, String>)
    ensures
        text_result(r) == answered(run),
{
    match run {
        Ok(reply) => parse_decoded(reply.stdout.as_str(), reply.decoded),
        Err(e) => Err(e),
    }
}

} // verus!
