//! Running the `promin` client: what it is asked, and what its exit means.

use crate::backend::json_types::{reported, ProminError};
use crate::text::{decimal, decimal_text, first_line, trim, trimmed, until_newline};
use vstd::prelude::*;
use vstd::string::*;
use vstd::utf8::*;

verus! {

/// The program that is run.
pub const PROMIN_BIN: &'static str = "promin";

/// The position of the client's root among its arguments.
pub const PREFIX_PLACE: usize = 1;

/// What the client is asked.
#[derive(Debug, Clone)]
pub enum Request {
    /// Which packages are installed.
    List,
    /// The release and the generation.
    Status,
    /// Which packages there are.
    Recipes,
    /// To record the consent to the terms of a channel.
    AcceptEula { channel: String },
    /// To install a package.
    Install { name: String },
    /// To remove a package.
    Remove { name: String },
}

impl View for Request {
    type V = Seq<Seq<char>>;

    /// The words of the request.
    open spec fn view(&self) -> Seq<Seq<char>> {
        match self {
            Request::List => seq!["list"@],
            Request::Status => seq!["status"@],
            Request::Recipes => seq!["recipes"@],
            Request::AcceptEula { channel } => seq!["accept-eula"@, channel@],
            Request::Install { name } => seq!["install"@, name@],
            Request::Remove { name } => seq!["remove"@, name@],
        }
    }
}

/// One word as a list of words.
fn one(word: &str) -> (r: Vec<String>)
    ensures
        r.deep_view() == seq![word@],
{
    let mut words: Vec<String> = Vec::new();
    words.push(word.to_string());
    assert(words.deep_view() =~= seq![word@]);
    words
}

/// Two words as a list of words.
fn two(word: &str, object: &str) -> (r: Vec<String>)
    ensures
        r.deep_view() == seq![word@, object@],
{
    let mut words: Vec<String> = Vec::new();
    words.push(word.to_string());
    words.push(object.to_string());
    assert(words.deep_view() =~= seq![word@, object@]);
    words
}

impl Request {
    /// The words of the request.
    pub fn args(&self) -> (r: Vec<String>)
        ensures
            r.deep_view() == self@,
    {
        match self {
            Request::List => one("list"),
            Request::Status => one("status"),
            Request::Recipes => one("recipes"),
            Request::AcceptEula { channel } => two("accept-eula", channel.as_str()),
            Request::Install { name } => two("install", name.as_str()),
            Request::Remove { name } => two("remove", name.as_str()),
        }
    }

    /// The arguments with which the client is run: the root that it works on, the form of its
    /// answer, and the request.
    pub fn command_line(&self, prefix: &str) -> (r: Vec<String>)
        ensures
            r.deep_view() == seq!["--prefix"@, prefix@, "--json"@] + self@,
            r@.len() > PREFIX_PLACE,
            r@[PREFIX_PLACE as int]@ == prefix@,
    {
        let mut line: Vec<String> = Vec::new();
        line.push("--prefix".to_string());
        line.push(prefix.to_string());
        line.push("--json".to_string());
        let mut words = self.args();
        let ghost request = words;
        line.append(&mut words);
        assert(line.deep_view() =~= seq!["--prefix"@, prefix@, "--json"@] + request.deep_view());
        assert(line@[PREFIX_PLACE as int]@ == line.deep_view()[PREFIX_PLACE as int]);
        line
    }
}

/// What `String::from_utf8_lossy` makes of `bytes`.
pub uninterp spec fn lossy_text(bytes: Seq<u8>) -> Seq<char>;

/// `String::from_utf8_lossy`: the text that `bytes` encode. Bytes that encode no text are replaced,
/// in a way that is not stated here; bytes in valid UTF-8 are decoded as they stand.
#[verifier::external_body]
fn from_utf8_lossy(bytes: &[u8]) -> (r: String)
    ensures
        r@ == lossy_text(bytes@),
        valid_utf8(bytes@) ==> r@ == decode_utf8(bytes@),
{
    String::from_utf8_lossy(bytes).into_owned()
}

/// What `str` shows of itself under `{:?}`.
pub uninterp spec fn debug_text(s: Seq<char>) -> Seq<char>;

/// Text of printable ASCII characters, without a double quote or a backslash.
pub open spec fn is_plain(s: Seq<char>) -> bool {
    forall|i: int|
        0 <= i < s.len() ==> 0x20 <= (#[trigger] s[i]) as u32 <= 0x7e && s[i] != '"' && s[i] != '\\'
}

/// Text between double quotes.
pub open spec fn quoted(s: Seq<char>) -> Seq<char> {
    seq!['"'] + s + seq!['"']
}

/// The `Debug` form of `str`: the text between double quotes, with escapes. Plain text has nothing
/// to escape, and stands as it is; how other text is escaped is not stated here.
#[verifier::external_body]
fn shown_text(s: &str) -> (r: String)
    ensures
        r@ == debug_text(s@),
        is_plain(s@) ==> r@ == quoted(s@),
{
    format!("{:?}", s)
}

/// A word in its `Debug` form.
pub open spec fn shown_word(word: Seq<char>) -> Seq<char> {
    if is_plain(word) {
        quoted(word)
    } else {
        debug_text(word)
    }
}

/// Words in their `Debug` form, with commas between them.
pub open spec fn shown_words(words: Seq<Seq<char>>) -> Seq<char>
    decreases words.len(),
{
    if words.len() == 0 {
        Seq::empty()
    } else if words.len() == 1 {
        shown_word(words[0])
    } else {
        shown_words(words.drop_last()) + ", "@ + shown_word(words.last())
    }
}

/// A list of words in its `Debug` form.
pub open spec fn shown_list(words: Seq<Seq<char>>) -> Seq<char> {
    "["@ + shown_words(words) + "]"@
}

/// An exit code in its `Debug` form; there is none where a signal ended the program.
pub open spec fn shown_code(code: Option<i32>) -> Seq<char> {
    match code {
        Some(n) => "Some("@ + decimal(n as int) + ")"@,
        None => "None"@,
    }
}

/// Writes a list of words in its `Debug` form.
fn show_list(words: &Vec<String>) -> (r: String)
    ensures
        r@ == shown_list(words.deep_view()),
{
    let ghost all = words.deep_view();
    let mut inner = String::new();
    let mut i: usize = 0;
    assert(all.take(0) =~= Seq::<Seq<char>>::empty());
    while i < words.len()
        invariant
            i <= words@.len(),
            all == words.deep_view(),
            inner@ == shown_words(all.take(i as int)),
        decreases words@.len() - i,
    {
        let word = shown_text(words[i].as_str());
        proof {
            assert(all.take(i + 1).drop_last() =~= all.take(i as int));
            assert(all.take(i + 1).last() == all[i as int]);
            assert(words@[i as int]@ == all[i as int]);
        }
        if i > 0 {
            inner = inner.concat(", ").concat(word.as_str());
        } else {
            inner = word;
        }
        i = i + 1;
    }
    assert(all.take(i as int) =~= all);
    "[".to_string().concat(inner.as_str()).concat("]")
}

/// Writes an exit code in its `Debug` form.
fn show_code(code: Option<i32>) -> (r: String)
    ensures
        r@ == shown_code(code),
{
    match code {
        Some(n) => "Some(".to_string().concat(decimal_text(n).as_str()).concat(")"),
        None => "None".to_string(),
    }
}

/// What is left of a run of the client.
#[derive(Debug, Clone)]
pub struct CommandOutput {
    /// Whether it exited with success.
    pub success: bool,
    pub code: Option<i32>,
    pub stdout: String,
    pub stderr: String,
}

impl CommandOutput {
    /// The output of a run, from the bytes that it wrote.
    pub fn from_bytes(success: bool, code: Option<i32>, stdout: &[u8], stderr: &[u8]) -> (r: Self)
        ensures
            r.success == success,
            r.code == code,
            r.stdout@ == lossy_text(stdout@),
            r.stderr@ == lossy_text(stderr@),
            valid_utf8(stdout@) ==> r.stdout@ == decode_utf8(stdout@),
            valid_utf8(stderr@) ==> r.stderr@ == decode_utf8(stderr@),
    {
        CommandOutput {
            success,
            code,
            stdout: from_utf8_lossy(stdout),
            stderr: from_utf8_lossy(stderr),
        }
    }

    /// The line in which a run that failed may have reported why: the first one, without the white
    /// space around it.
    pub fn error_line(&self) -> (r: Option<String>)
        ensures
            r is Some <==> !self.success && self.stdout@.len() > 0,
            r matches Some(line) ==> line@ == trimmed(until_newline(self.stdout@)),
    {
        if self.success || self.stdout.as_str().is_empty() {
            None
        } else {
            Some(trim(first_line(self.stdout.as_str())).to_string())
        }
    }
}

/// What a run of the client means. `output` is an error where the program could not be started;
/// `envelope` is the first line of the output read as a failure envelope.
pub open spec fn run_result(
    request: Seq<Seq<char>>,
    output: Result<CommandOutput, String>,
    envelope: Option<ProminError>,
) -> Result<Seq<char>, Seq<char>> {
    match output {
        Err(e) => Err("не запустить "@ + PROMIN_BIN@ + ": "@ + e@),
        Ok(out) => if out.success {
            Ok(out.stdout@)
        } else if out.stdout@.len() > 0 && reported(envelope) is Some {
            Err(reported(envelope)->0)
        } else {
            Err(
                PROMIN_BIN@ + " "@ + shown_list(request) + " код "@ + shown_code(out.code) + ": "@
                    + out.stderr@,
            )
        },
    }
}

/// What `result` holds, as text.
pub open spec fn texts(result: Result<String, String>) -> Result<Seq<char>, Seq<char>> {
    match result {
        Ok(s) => Ok(s@),
        Err(e) => Err(e@),
    }
}

/// What a run of the client means, given the reading of the first line of its output.
pub fn exit_result(
    request: &Request,
    output: Result<CommandOutput, String>,
    envelope: Option<ProminError>,
) -> (r: Result<String, String>)
    ensures
        texts(r) == run_result(request@, output, envelope),
{
    match output {
        Err(e) => Err(
            "не запустить ".to_string().concat(PROMIN_BIN).concat(": ").concat(e.as_str()),
        ),
        Ok(out) => {
            if out.success {
                return Ok(out.stdout);
            }
            if !out.stdout.as_str().is_empty() {
                if let Some(e) = envelope {
                    if !e.ok {
                        return Err(e.error);
                    }
                }
            }
            Err(
                PROMIN_BIN.to_string().concat(" ").concat(
                    show_list(&request.args()).as_str(),
                ).concat(" код ").concat(show_code(out.code).as_str()).concat(": ").concat(
                    out.stderr.as_str(),
                ),
            )
        },
    }
}

/// The output may report why the run failed.
pub open spec fn may_report(output: Result<CommandOutput, String>) -> bool {
    match output {
        Ok(out) => !out.success && out.stdout@.len() > 0,
        Err(_) => false,
    }
}

/// `envelope` is what `read` makes of the first line of `stdout`, without the white space around it.
pub open spec fn reads_as_report<F: Fn(&str) -> Option<ProminError>>(
    read: F,
    stdout: Seq<char>,
    envelope: Option<ProminError>,
) -> bool {
    exists|line: &str|
        line@ == trimmed(until_newline(stdout)) && #[trigger] call_ensures(read, (line,), envelope)
}

/// What a run of the client means: what it printed, or the error that it reported, or what is known
/// of its exit. Where the run failed, the decoder `read` is handed the first line of its output,
/// without the white space around it.
pub fn run_json(
    request: &Request,
    output: Result<CommandOutput, String>,
    read: impl Fn(&str) -> Option<ProminError>,
) -> (r: Result<String, String>)
    requires
        forall|line: &str| #[trigger] call_requires(read, (line,)),
    ensures
        !may_report(output) ==> texts(r) == run_result(request@, output, None),
        may_report(output) ==> exists|envelope: Option<ProminError>| #[trigger]
            reads_as_report(read, output->Ok_0.stdout@, envelope) && texts(r) == run_result(
                request@,
                output,
                envelope,
            ),
{
    let mut envelope: Option<ProminError> = None;
    if let Ok(out) = &output {
        if let Some(line) = out.error_line() {
            envelope = read(line.as_str());
            assert(reads_as_report(read, out.stdout@, envelope));
        }
    }
    exit_result(request, output, envelope)
}

} // verus!
