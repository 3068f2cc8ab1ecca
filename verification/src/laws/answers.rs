//! What the client's answers and exits mean.

use crate::backend::command::{
    may_report, reads_as_report, run_result, shown_code, shown_list, shown_words, texts,
    CommandOutput,
};
use crate::backend::json_types::{
    answered, parsed, parses_to, reads_as, reported, text_result, Decoded, ProminError, Reply,
};
use crate::laws::text::{
    begins_with_line, is_blank, law_first_line, law_trimming, strips_to,
};
use crate::text::{decimal, trimmed, until_newline};
use vstd::prelude::*;

verus! {

/// `envelope` reports a failure.
pub open spec fn reports_failure(envelope: Option<ProminError>) -> bool {
    envelope is Some && !envelope->0.ok
}

/// `means` is what the printed text `stdout` means, where `decoded` is what the decoder makes of it
/// without the white space around it: blank text is an error, a reported failure is that failure, and
/// anything else is the answer, or an error that quotes what the decoder objects to and the line.
pub open spec fn is_meaning<T>(
    stdout: Seq<char>,
    decoded: Decoded<T>,
    means: Result<T, Seq<char>>,
) -> bool {
    &&& is_blank(stdout) ==> means == Err::<T, Seq<char>>("promin: пустой вывод"@)
    &&& !is_blank(stdout) && reports_failure(decoded.envelope) ==> means == Err::<T, Seq<char>>(
        decoded.envelope->0.error@,
    )
    &&& !is_blank(stdout) && !reports_failure(decoded.envelope) && decoded.payload is Ok ==> means
        == Ok::<T, Seq<char>>(decoded.payload->Ok_0)
    &&& !is_blank(stdout) && !reports_failure(decoded.envelope) && decoded.payload is Err ==> (
    exists|line: Seq<char>| #[trigger]
        strips_to(stdout, line) && means == Err::<T, Seq<char>>(
            "promin: разбор JSON: "@ + decoded.payload->Err_0@ + " (вход: "@ + line + ")"@,
        ))
}

/// What a command printed means what is said of it.
pub proof fn law_meaning_of_what_is_printed<T>(stdout: Seq<char>, decoded: Decoded<T>)
    ensures
        is_meaning(stdout, decoded, parsed(stdout, decoded)),
{
    law_trimming(stdout);
    assert(strips_to(stdout, trimmed(stdout)));
}

/// A command that could not be run is answered with the error of the run; any other with what it
/// printed means. Errors keep their text.
pub proof fn law_answer_of_a_command<T>(run: Result<Reply<T>, String>, r: Result<T, String>)
    requires
        text_result(r) == answered(run),
    ensures
        run matches Err(e) ==> r matches Err(text) && text@ == e@,
        run matches Ok(reply) ==> {
            &&& r matches Ok(v) ==> is_meaning(reply.stdout@, reply.decoded, Ok::<T, Seq<char>>(v))
            &&& r matches Err(e) ==> is_meaning(
                reply.stdout@,
                reply.decoded,
                Err::<T, Seq<char>>(e@),
            )
        },
{
    if let Ok(reply) = run {
        law_meaning_of_what_is_printed(reply.stdout@, reply.decoded);
    }
}

/// A command succeeds exactly where it was run, printed something, reported no failure, and printed an
/// answer that can be read; then that answer is the result.
pub proof fn law_answer_that_counts<T>(run: Result<Reply<T>, String>)
    ensures
        answered(run) is Ok <==> (run is Ok && !is_blank(run->Ok_0.stdout@) && !reports_failure(
            run->Ok_0.decoded.envelope,
        ) && run->Ok_0.decoded.payload is Ok),
        answered(run) matches Ok(v) ==> run->Ok_0.decoded.payload == Ok::<T, String>(v),
{
    if let Ok(reply) = run {
        law_meaning_of_what_is_printed(reply.stdout@, reply.decoded);
    }
}

/// The decoder is handed what was printed without the white space around it, and the result is what
/// that means. Where nothing but white space was printed the decoder has no say.
pub proof fn law_decoder_is_handed_the_line<T, F: Fn(&str) -> Decoded<T>>(
    read: F,
    stdout: Seq<char>,
    result: Result<T, Seq<char>>,
)
    requires
        parses_to(read, stdout, result),
    ensures
        is_blank(stdout) ==> result == Err::<T, Seq<char>>("promin: пустой вывод"@),
        !is_blank(stdout) ==> exists|line: &str, decoded: Decoded<T>| #[trigger]
            call_ensures(read, (line,), decoded) && strips_to(stdout, line@) && is_meaning(
                stdout,
                decoded,
                result,
            ),
{
    law_trimming(stdout);
    if !is_blank(stdout) {
        let decoded = choose|d: Decoded<T>| #[trigger]
            reads_as(read, stdout, d) && result == parsed(stdout, d);
        law_meaning_of_what_is_printed(stdout, decoded);
        let line = choose|line: &str|
            line@ == trimmed(stdout) && #[trigger] call_ensures(read, (line,), decoded);
        assert(call_ensures(read, (line,), decoded) && strips_to(stdout, line@));
    }
}

/// A reading is that of what was printed without the white space around it.
pub proof fn law_reading_is_of_the_line<T, F: Fn(&str) -> Decoded<T>>(
    read: F,
    stdout: Seq<char>,
    decoded: Decoded<T>,
)
    requires
        reads_as(read, stdout, decoded),
    ensures
        exists|line: &str| #[trigger]
            call_ensures(read, (line,), decoded) && strips_to(stdout, line@),
{
    law_trimming(stdout);
    let line = choose|line: &str|
        line@ == trimmed(stdout) && #[trigger] call_ensures(read, (line,), decoded);
    assert(call_ensures(read, (line,), decoded) && strips_to(stdout, line@));
}

/// A run that succeeds gives what it printed, whatever that may be read as. One that cannot be
/// started tells why. One that fails gives the error that it reported, and where it reported none
/// its exit code and what it wrote to its error output.
pub proof fn law_exit_of_the_client(
    request: Seq<Seq<char>>,
    output: Result<CommandOutput, String>,
    envelope: Option<ProminError>,
    r: Result<String, String>,
)
    requires
        texts(r) == run_result(request, output, envelope),
    ensures
        output matches Err(e) ==> r matches Err(text) && text@ == "не запустить "@ + "promin"@
            + ": "@ + e@,
        output matches Ok(out) ==> {
            &&& out.success ==> (r matches Ok(printed) && printed@ == out.stdout@)
            &&& !out.success && out.stdout@.len() > 0 && reports_failure(envelope) ==> (
            r matches Err(text) && text@ == envelope->0.error@)
            &&& !out.success && !(out.stdout@.len() > 0 && reports_failure(envelope)) ==> (
            r matches Err(text) && text@ == "promin"@ + " "@ + shown_list(request) + " код "@
                + shown_code(out.code) + ": "@ + out.stderr@)
        },
{
}

/// A run is looked at for a report exactly where it failed and printed something.
pub proof fn law_failed_run_is_looked_at(output: Result<CommandOutput, String>)
    ensures
        may_report(output) <==> (output is Ok && !output->Ok_0.success
            && output->Ok_0.stdout@.len() > 0),
{
}

/// A report is read from the first line of what was printed, without the white space around it.
pub proof fn law_report_is_read_from_the_first_line<F: Fn(&str) -> Option<ProminError>>(
    read: F,
    stdout: Seq<char>,
    envelope: Option<ProminError>,
)
    requires
        reads_as_report(read, stdout, envelope),
    ensures
        exists|first: Seq<char>, line: &str| #[trigger]
            begins_with_line(stdout, first) && #[trigger] call_ensures(read, (line,), envelope)
                && strips_to(first, line@),
{
    let first = until_newline(stdout);
    law_first_line(stdout);
    law_trimming(first);
    let line = choose|line: &str|
        line@ == trimmed(first) && #[trigger] call_ensures(read, (line,), envelope);
    assert(begins_with_line(stdout, first) && call_ensures(read, (line,), envelope) && strips_to(
        first,
        line@,
    ));
}

/// All words of a request are shown, in order, with commas between them and in brackets. A word of
/// printable ASCII without a double quote and a backslash stands between two double quotes.
pub proof fn law_words_of_a_request_are_shown(words: Seq<Seq<char>>, word: Seq<char>)
    ensures
        shown_list(words) == "["@ + shown_words(words) + "]"@,
        shown_words(Seq::empty()) == Seq::<char>::empty(),
        words.len() > 0 ==> shown_words(words.push(word)) == shown_words(words) + ", "@
            + shown_words(seq![word]),
        (forall|i: int|
            0 <= i < word.len() ==> ' ' <= #[trigger] word[i] <= '~' && word[i] != '"' && word[i]
                != '\\') ==> shown_words(seq![word]) == seq!['"'] + word + seq!['"'],
{
    let more = words.push(word);
    assert(more.drop_last() =~= words);
    assert(more.last() == word);
    assert(seq![word][0] == word);
}

/// An exit code is shown in decimal digits; where there is none, that is said.
pub proof fn law_exit_code_is_shown(code: Option<i32>)
    ensures
        code is None ==> shown_code(code) == "None"@,
        code is Some ==> shown_code(code) == "Some("@ + decimal(code->0 as int) + ")"@,
{
}

/// A failure is reported by an envelope that says so, and by nothing else.
pub proof fn law_what_reports_a_failure(envelope: Option<ProminError>)
    ensures
        reported(envelope) is Some <==> reports_failure(envelope),
        reported(envelope) matches Some(error) ==> error == envelope->0.error@,
{
}

} // verus!
