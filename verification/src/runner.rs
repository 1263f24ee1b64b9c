//! The pipeline of a command: from the parsed arguments and the payload on
//! standard input to the handler, and from the handler's result to what is
//! printed and the exit status of the process.

use crate::errors::{
    cli_failure, lemma_chain, CargoError, CliError, CliErrorView, CliResult, Link,
};
use crate::json::{read_json, written, JsonError, JsonValue, RepresentsJSON, ToJson};
use crate::BuildInfo;
use crate::shell::{
    lemma_say_more, lemma_say_nothing, lemma_say_one, shell, Color, MultiShell, MultiShellView,
    Said, ShellConfig, ShellView,
};
use vstd::prelude::*;
use vstd::string::*;

verus! {

/// The two messages that one cause is reported with.
pub open spec fn cause_block(cause: Link) -> Seq<Said> {
    seq![
        Said { text: "\nCaused by:"@, color: Color::Black },
        Said { text: "  "@ + cause.description, color: Color::Black },
    ]
}

/// The report of a chain of causes: one block for each, from the immediate
/// cause to the root.
pub open spec fn cause_report(causes: Seq<Link>) -> Seq<Said> {
    Seq::new(
        2 * causes.len(),
        |i: int|
            if i % 2 == 0 {
                Said { text: "\nCaused by:"@, color: Color::Black }
            } else {
                Said { text: "  "@ + causes[i / 2].description, color: Color::Black }
            },
    )
}

/// The report of a chain is the block of its first cause and then the report
/// of the others.
pub proof fn lemma_cause_report_step(causes: Seq<Link>)
    requires
        causes.len() > 0,
    ensures
        cause_report(causes) == cause_block(causes[0]) + cause_report(causes.drop_first()),
{
    let rest = causes.drop_first();
    let joined = cause_block(causes[0]) + cause_report(rest);
    assert(cause_report(causes).len() == joined.len());
    assert forall|i: int| 0 <= i < joined.len() implies cause_report(causes)[i] == joined[i] by {
        if i >= 2 {
            assert(joined[i] == cause_report(rest)[i - 2]);
            assert((i - 2) % 2 == i % 2);
            assert((i - 2) / 2 == i / 2 - 1);
            assert(rest[(i - 2) / 2] == causes[i / 2]);
        }
    }
    assert(cause_report(causes) =~= joined);
}

/// A chain of causes is reported with exactly one block for each cause, in
/// the order of the chain: the block of cause `i` is the two messages at `2 i`
/// and `2 i + 1`.
pub proof fn lemma_cause_blocks(causes: Seq<Link>)
    ensures
        cause_report(causes).len() == 2 * causes.len(),
        forall|i: int|
            0 <= i < causes.len() ==> cause_report(causes).subrange(2 * i, 2 * i + 2)
                == #[trigger] cause_block(causes[i]),
{
    assert forall|i: int| 0 <= i < causes.len() implies cause_report(causes).subrange(
        2 * i,
        2 * i + 2,
    ) == #[trigger] cause_block(causes[i]) by {
        let block = cause_report(causes).subrange(2 * i, 2 * i + 2);
        assert((2 * i) % 2 == 0);
        assert((2 * i + 1) % 2 == 1);
        assert((2 * i) / 2 == i);
        assert((2 * i + 1) / 2 == i);
        assert(block[0] == cause_block(causes[i])[0]);
        assert(block[1] == cause_block(causes[i])[1]);
        assert(block =~= cause_block(causes[i]));
    }
}

/// Reports the error `error` as a cause, and then the errors that led to it.
pub fn handle_cause(error: &CargoError, shell: &mut MultiShell)
    ensures
        final(shell)@ == (MultiShellView {
            out: old(shell)@.out,
            err: old(shell)@.err.say_all(cause_report(error@)),
            verbose: old(shell)@.verbose,
        }),
    decreases error@.len(),
{
    proof {
        lemma_chain(*error);
        lemma_cause_report_step(error@);
    }
    let mut line = String::from_str("  ");
    line.append(error.description().as_str());
    shell.err().say("\nCaused by:", Color::Black);
    shell.err().say(line.as_str(), Color::Black);
    proof {
        let start = old(shell)@.err;
        lemma_say_one(start, "\nCaused by:"@, Color::Black);
        lemma_say_one(start.say("\nCaused by:"@, Color::Black), line@, Color::Black);
        lemma_say_more(
            start,
            seq![Said { text: "\nCaused by:"@, color: Color::Black }],
            seq![Said { text: line@, color: Color::Black }],
        );
        assert(seq![Said { text: "\nCaused by:"@, color: Color::Black }] + seq![
            Said { text: line@, color: Color::Black },
        ] =~= cause_block(error@[0]));
    }
    match error.cause() {
        Some(inner) => {
            handle_cause(inner, shell);
            proof {
                lemma_say_more(
                    old(shell)@.err,
                    cause_block(error@[0]),
                    cause_report(error@.drop_first()),
                );
            }
        },
        None => {
            proof {
                assert(cause_report(error@.drop_first()) =~= Seq::<Said>::empty());
                assert(cause_block(error@[0]) + Seq::<Said>::empty() =~= cause_block(error@[0]));
            }
        },
    }
}

/// What an error message adds to the error channel: a red line, and nothing
/// for an empty message.
pub open spec fn error_message(message: Seq<char>) -> Seq<Said> {
    if message.len() == 0 {
        Seq::empty()
    } else {
        seq![Said { text: message, color: Color::Red }]
    }
}

/// The first part of a report: that the error is of no known kind, or what the
/// error says.
pub open spec fn headline(error: CliErrorView) -> Seq<Said> {
    if error.unknown {
        seq![Said { text: "An unknown error occurred."@, color: Color::Red }]
    } else {
        error_message(error.message())
    }
}

/// In concise mode, the advice to run the command again verbosely, given
/// where the error has a cause or is of no known kind.
pub open spec fn hint(error: CliErrorView) -> Seq<Said> {
    if error.causes().len() > 0 || error.unknown {
        seq![
            Said {
                text: "\nTo learn more, run the command again with --verbose."@,
                color: Color::Black,
            },
        ]
    } else {
        Seq::empty()
    }
}

/// In verbose mode: what an error of no known kind says, then the detail of
/// the error, then its causes.
pub open spec fn details(error: CliErrorView) -> Seq<Said> {
    (if error.unknown {
        error_message(error.message())
    } else {
        Seq::empty()
    }) + (match error.detail() {
        Some(detail) => seq![Said { text: detail, color: Color::Black }],
        None => Seq::empty(),
    }) + cause_report(error.causes())
}

/// Everything that is said on the error channel for an error.
pub open spec fn report(error: CliErrorView, verbose: bool) -> Seq<Said> {
    headline(error) + if verbose {
        details(error)
    } else {
        hint(error)
    }
}

/// The shells after `said` on the error channel.
pub open spec fn said_on_err(shell: MultiShellView, said: Seq<Said>) -> MultiShellView {
    MultiShellView { out: shell.out, err: shell.err.say_all(said), verbose: shell.verbose }
}

/// An error message is a list of at most one message on the error channel.
pub proof fn lemma_error_message(shell: MultiShellView, message: Seq<char>)
    ensures
        shell.error(message) == said_on_err(shell, error_message(message)),
{
    if message.len() == 0 {
        lemma_say_nothing(shell.err);
    } else {
        lemma_say_one(shell.err, message, Color::Red);
    }
}

fn say_hint(shell: &mut MultiShell)
    ensures
        final(shell)@ == said_on_err(
            old(shell)@,
            seq![
                Said {
                    text: "\nTo learn more, run the command again with --verbose."@,
                    color: Color::Black,
                },
            ],
        ),
{
    shell.err().say("\nTo learn more, run the command again with --verbose.", Color::Black);
    proof {
        lemma_say_one(
            old(shell)@.err,
            "\nTo learn more, run the command again with --verbose."@,
            Color::Black,
        );
    }
}

fn say_details(error: &CargoError, unknown: bool, shell: &mut MultiShell)
    ensures
        final(shell)@ == said_on_err(
            old(shell)@,
            details(CliErrorView { chain: error@, exit_code: 0, unknown }),
        ),
{
    let ghost model = CliErrorView { chain: error@, exit_code: 0, unknown };
    let ghost start = old(shell)@;
    let ghost first = if unknown {
        error_message(model.message())
    } else {
        Seq::<Said>::empty()
    };
    let ghost second: Seq<Said> = match model.detail() {
        Some(detail) => seq![Said { text: detail, color: Color::Black }],
        None => Seq::empty(),
    };
    if unknown {
        shell.error(error.description().as_str());
        proof {
            lemma_error_message(start, model.message());
        }
    } else {
        proof {
            lemma_say_nothing(start.err);
        }
    }
    assert(shell@ == said_on_err(start, first));
    match error.detail() {
        Some(detail) => {
            shell.err().say(detail.as_str(), Color::Black);
            proof {
                lemma_say_one(start.err.say_all(first), detail@, Color::Black);
            }
        },
        None => {
            proof {
                lemma_say_nothing(start.err.say_all(first));
            }
        },
    }
    proof {
        lemma_say_more(start.err, first, second);
    }
    assert(shell@ == said_on_err(start, first + second));
    match error.cause() {
        Some(inner) => {
            handle_cause(inner, shell);
        },
        None => {
            proof {
                assert(cause_report(model.causes()) =~= Seq::<Said>::empty());
                lemma_say_nothing(start.err.say_all(first + second));
            }
        },
    }
    proof {
        lemma_say_more(start.err, first + second, cause_report(model.causes()));
    }
}

/// Reports an error on the error channel and gives the exit status that the
/// process ends with.
///
/// The report starts with what the error says or, for an error of no known
/// kind, with the words that say so. In concise mode an error that has a cause
/// or is of no known kind then gets the advice to run the command again
/// verbosely. In verbose mode follow what an error of no known kind says, the
/// detail, and one block for each cause, from the immediate one to the root.
pub fn handle_error(err: CliError, shell: &mut MultiShell) -> (code: u32)
    ensures
        final(shell)@ == said_on_err(old(shell)@, report(err@, old(shell)@.verbose)),
        code == err.exit_code,
{
    let ghost start = old(shell)@;
    let CliError { error, exit_code, unknown } = err;
    proof {
        lemma_chain(error);
    }
    if unknown {
        proof {
            reveal_strlit("An unknown error occurred.");
            lemma_error_message(start, "An unknown error occurred."@);
        }
        shell.error("An unknown error occurred.");
    } else {
        proof {
            lemma_error_message(start, err@.message());
        }
        shell.error(error.description().as_str());
    }
    assert(shell@ == said_on_err(start, headline(err@)));
    let has_cause = error.cause().is_some();
    if has_cause || unknown {
        shell.concise(say_hint);
    }
    proof {
        lemma_say_nothing(start.err.say_all(headline(err@)));
        lemma_say_more(start.err, headline(err@), hint(err@));
    }
    assert(!start.verbose ==> shell@ == said_on_err(start, headline(err@) + hint(err@)));
    assert(start.verbose ==> shell@ == said_on_err(start, headline(err@)));
    let block = |shell: &mut MultiShell|
        ensures
            final(shell)@ == said_on_err(
                old(shell)@,
                details(CliErrorView { chain: error@, exit_code: 0, unknown }),
            ),
        { say_details(&error, unknown, shell) };
    shell.verbose(block);
    proof {
        assert(details(CliErrorView { chain: error@, exit_code: 0, unknown }) == details(err@));
        lemma_say_more(start.err, headline(err@), details(err@));
    }
    exit_code
}

/// How the parser of the command line is to read the arguments: whether every
/// flag has to come before the first positional argument, whether a request
/// for help is answered with the usage text, and the line that a request for
/// the version is answered with.
#[derive(Debug, Clone)]
pub struct ParserConfig {
    pub options_first: bool,
    pub help: bool,
    pub version: Option<String>,
}

/// Whether `config` is what a command hands its parser: `options_first` as
/// the command has it, help turned on, and the version line of the build.
pub open spec fn configured(config: ParserConfig, options_first: bool, build: BuildInfo) -> bool {
    &&& config.options_first == options_first
    &&& config.help
    &&& config.version matches Some(line) && line@ == build.version_text()
}

/// What the parser of the command line reports when it gives no flags: its
/// message, and whether the input was malformed (`fatal`) or the user asked
/// for help or for the version.
#[derive(Debug, Clone)]
pub struct ParseFailure {
    pub message: String,
    pub fatal: bool,
}

/// The error that a failure of the parser ends the command with: status 1 for
/// malformed input, status 0 where the user asked for help or the version.
pub open spec fn parse_error(failure: ParseFailure) -> CliErrorView {
    cli_failure(failure.message@, if failure.fatal { 1u32 } else { 0u32 })
}

/// Whether `r` is what the command goes on with after the parser has
/// returned `parsed`.
pub open spec fn flags_outcome<T>(parsed: Result<T, ParseFailure>, r: CliResult<T>) -> bool {
    match parsed {
        Ok(flags) => r == Ok::<T, CliError>(flags),
        Err(failure) => r is Err && r->Err_0@ == parse_error(failure),
    }
}

/// Turns what the parser returned into the flags or the error of the command.
pub fn flags_from_parsed<T>(parsed: Result<T, ParseFailure>) -> (r: CliResult<T>)
    ensures
        flags_outcome(parsed, r),
{
    match parsed {
        Ok(flags) => Ok(flags),
        Err(failure) => {
            let code: u32 = if failure.fatal { 1 } else { 0 };
            Err(CliError::new(failure.message.as_str(), code))
        },
    }
}

/// Parses the arguments against the usage text with `parse`. The parser is
/// handed its configuration, the arguments and the usage text; the
/// configuration turns help on and holds the version line of the build.
pub fn flags_from_args<T, P: FnOnce(ParserConfig, &Vec<String>, &str) -> Result<T, ParseFailure>>(
    parse: P,
    usage: &str,
    args: &Vec<String>,
    options_first: bool,
    build: &BuildInfo,
) -> (r: CliResult<T>)
    requires
        forall|config: ParserConfig|
            configured(config, options_first, *build) ==> call_requires(
                parse,
                (config, args, usage),
            ),
    ensures
        exists|config: ParserConfig, parsed: Result<T, ParseFailure>|
            configured(config, options_first, *build) && call_ensures(
                parse,
                (config, args, usage),
                parsed,
            ) && flags_outcome(parsed, r),
{
    let config = ParserConfig { options_first, help: true, version: Some(build.version()) };
    assert(configured(config, options_first, *build));
    assert(call_requires(parse, (config, args, usage)));
    let parsed = parse(config, args, usage);
    flags_from_parsed(parsed)
}

/// Whether `r` is the payload, or the error, that the document `parsed` read
/// from standard input gives.
pub open spec fn document_outcome<U: RepresentsJSON>(
    parsed: Result<JsonValue, JsonError>,
    r: CliResult<U>,
) -> bool {
    match parsed {
        Err(_) => r is Err && r->Err_0@ == cli_failure(
            "could not parse standard in as JSON."@,
            1,
        ),
        Ok(doc) => if U::decodable(doc@) {
            r is Ok && U::represents(doc@, r->Ok_0)
        } else {
            r is Err && r->Err_0@ == cli_failure("could not process standard in as input."@, 1)
        },
    }
}

/// Decodes the payload from what standard input was read as: a document, or
/// the reason why there is none. Whatever the reason, the payload did not
/// parse.
pub fn payload_from_document<U: RepresentsJSON>(parsed: Result<JsonValue, JsonError>) -> (r:
    CliResult<U>)
    ensures
        document_outcome(parsed, r),
{
    match parsed {
        Err(_) => Err(CliError::new("could not parse standard in as JSON.", 1)),
        Ok(doc) => match U::decode(&doc) {
            Some(payload) => Ok(payload),
            None => Err(CliError::new("could not process standard in as input.", 1)),
        },
    }
}

/// Whether `r` is the payload, or the error, that the text `input` read from
/// standard input gives, where `None` stands for an input that could not be
/// read or is not UTF-8. A text that passes a limit of the parser counts as
/// one that does not parse.
pub open spec fn input_outcome<U: RepresentsJSON>(input: Option<String>, r: CliResult<U>) -> bool {
    match input {
        None => r is Err && r->Err_0@ == cli_failure(
            "standard in did not exist or was not UTF-8."@,
            1,
        ),
        Some(text) => match read_json(text@) {
            Err(_) => r is Err && r->Err_0@ == cli_failure(
                "could not parse standard in as JSON."@,
                1,
            ),
            Ok(doc) => if U::decodable(doc) {
                r is Ok && U::represents(doc, r->Ok_0)
            } else {
                r is Err && r->Err_0@ == cli_failure(
                    "could not process standard in as input."@,
                    1,
                )
            },
        },
    }
}

/// Reads the payload from the text of standard input.
pub fn payload_from_input<U: RepresentsJSON>(input: Option<String>) -> (r: CliResult<U>)
    ensures
        input_outcome(input, r),
{
    match input {
        None => Err(CliError::new("standard in did not exist or was not UTF-8.", 1)),
        Some(text) => payload_from_document(JsonValue::parse(text.as_str())),
    }
}

/// Reads standard input to its end with `stdin` and decodes the payload from
/// it.
pub fn json_from_stdin<U: RepresentsJSON, I: FnOnce() -> Option<String>>(stdin: I) -> (r: CliResult<U>)
    requires
        call_requires(stdin, ()),
    ensures
        exists|input: Option<String>| call_ensures(stdin, (), input) && input_outcome(input, r),
{
    let input = stdin();
    payload_from_input(input)
}

/// Parses the arguments, reads the payload from standard input, and runs the
/// handler on both.
///
/// Where the parser gives no flags the command ends with its error, and
/// standard input is not read. Where the payload cannot be had the command
/// ends with that error, and the handler is not run.
pub fn call_main<
    T,
    U: RepresentsJSON,
    V,
    F: FnOnce(T, U, &mut MultiShell) -> CliResult<Option<V>>,
    P: FnOnce(ParserConfig, &Vec<String>, &str) -> Result<T, ParseFailure>,
    I: FnOnce() -> Option<String>,
>(
    exec: F,
    shell: &mut MultiShell,
    parse: P,
    stdin: I,
    usage: &str,
    args: &Vec<String>,
    options_first: bool,
    build: &BuildInfo,
) -> (r: CliResult<Option<V>>)
    requires
        forall|config: ParserConfig|
            configured(config, options_first, *build) ==> call_requires(
                parse,
                (config, args, usage),
            ),
        call_requires(stdin, ()),
        forall|flags: T, payload: U, s: &mut MultiShell|
            *s == *old(shell) ==> call_requires(exec, (flags, payload, s)),
    ensures
        exists|config: ParserConfig, parsed: Result<T, ParseFailure>|
            configured(config, options_first, *build) && call_ensures(
                parse,
                (config, args, usage),
                parsed,
            ) && match parsed {
                Err(failure) => r is Err && r->Err_0@ == parse_error(failure) && *final(shell)
                    == *old(shell),
                Ok(flags) => exists|input: Option<String>, payload: CliResult<U>|
                    call_ensures(stdin, (), input) && input_outcome(input, payload)
                        && match payload {
                        Err(e) => r == Err::<Option<V>, CliError>(e) && *final(shell) == *old(
                            shell,
                        ),
                        Ok(value) => exists|s: &mut MultiShell|
                            *s == *old(shell) && *final(s) == *final(shell) && call_ensures(
                                exec,
                                (flags, value, s),
                                r,
                            ),
                    },
            },
{
    let flags = match flags_from_args(parse, usage, args, options_first, build) {
        Ok(flags) => flags,
        Err(e) => {
            return Err(e);
        },
    };
    let json = match json_from_stdin::<U, I>(stdin) {
        Ok(json) => json,
        Err(e) => {
            return Err(e);
        },
    };
    exec(flags, json, shell)
}

/// Parses the arguments and runs the handler on the flags.
///
/// Where the parser gives no flags the command ends with its error, and the
/// handler is not run.
pub fn call_main_without_stdin<
    T,
    V,
    F: FnOnce(T, &mut MultiShell) -> CliResult<Option<V>>,
    P: FnOnce(ParserConfig, &Vec<String>, &str) -> Result<T, ParseFailure>,
>(
    exec: F,
    shell: &mut MultiShell,
    parse: P,
    usage: &str,
    args: &Vec<String>,
    options_first: bool,
    build: &BuildInfo,
) -> (r: CliResult<Option<V>>)
    requires
        forall|config: ParserConfig|
            configured(config, options_first, *build) ==> call_requires(
                parse,
                (config, args, usage),
            ),
        forall|flags: T, s: &mut MultiShell| *s == *old(shell) ==> call_requires(exec, (flags, s)),
    ensures
        exists|config: ParserConfig, parsed: Result<T, ParseFailure>|
            configured(config, options_first, *build) && call_ensures(
                parse,
                (config, args, usage),
                parsed,
            ) && match parsed {
                Err(failure) => r is Err && r->Err_0@ == parse_error(failure) && *final(shell)
                    == *old(shell),
                Ok(flags) => exists|s: &mut MultiShell|
                    *s == *old(shell) && *final(s) == *final(shell) && call_ensures(
                        exec,
                        (flags, s),
                        r,
                    ),
            },
{
    let flags = match flags_from_args(parse, usage, args, options_first, build) {
        Ok(flags) => flags,
        Err(e) => {
            return Err(e);
        },
    };
    exec(flags, shell)
}

/// The shells and the exit status after a command that ended with `error`:
/// the error is reported on the error channel, and the status is the one that
/// the error carries.
pub open spec fn failed(before: MultiShellView, error: CliErrorView) -> (MultiShellView, u32) {
    (said_on_err(before, report(error, before.verbose)), error.exit_code)
}

/// The shells and the exit status after a command that returned `result`: a
/// result to print is one line of JSON on the output channel, no result prints
/// nothing, and both end with status 0; an error ends as `failed` says. A
/// result whose document is nested too deeply to be written is an error with
/// status 1.
pub open spec fn executed<V: ToJson>(result: CliResult<Option<V>>, before: MultiShellView) -> (
    MultiShellView,
    u32,
) {
    match result {
        Err(error) => failed(before, error@),
        Ok(Some(value)) => match written(value.json()) {
            Some(text) => (before.say(text, Color::Black), 0u32),
            None => failed(
                before,
                cli_failure("the result is nested too deeply to be written."@, 1),
            ),
        },
        Ok(None) => (before, 0u32),
    }
}

/// Prints what a command returned, or reports its error, and gives the exit
/// status of the process.
pub fn process_executed<V: ToJson>(result: CliResult<Option<V>>, shell: &mut MultiShell) -> (code:
    u32)
    ensures
        (final(shell)@, code) == executed(result, old(shell)@),
{
    match result {
        Err(e) => handle_error(e, shell),
        Ok(Some(encodable)) => match encodable.to_json().render() {
            Some(encoded) => {
                shell.say(encoded.as_str(), Color::Black);
                0
            },
            None => handle_error(
                CliError::new("the result is nested too deeply to be written.", 1),
                shell,
            ),
        },
        Ok(None) => 0,
    }
}

/// An error prints nothing on the output channel, and the process ends with
/// the status that the error carries.
pub proof fn lemma_failure_is_silent(before: MultiShellView, error: CliErrorView)
    ensures
        failed(before, error).0.out == before.out,
        failed(before, error).0.verbose == before.verbose,
        failed(before, error).1 == error.exit_code,
{
}

/// A payload that does not parse ends the command with status 1, with the
/// message that says so, and without a line on the output channel.
pub proof fn lemma_malformed_payload<U: RepresentsJSON, V: ToJson>(
    text: String,
    payload: CliResult<U>,
    before: MultiShellView,
)
    requires
        read_json(text@) is Err,
        input_outcome(Some(text), payload),
    ensures
        payload is Err,
        payload->Err_0@ == cli_failure("could not parse standard in as JSON."@, 1),
        executed(Err::<Option<V>, CliError>(payload->Err_0), before).1 == 1,
        executed(Err::<Option<V>, CliError>(payload->Err_0), before).0.out == before.out,
{
}

/// A command that returns nothing to print ends with status 0 and leaves
/// both channels as they were.
pub proof fn lemma_silent_success<V: ToJson>(before: MultiShellView)
    ensures
        executed(Ok::<Option<V>, CliError>(None), before) == (before, 0u32),
{
}

/// In verbose mode the report of an error ends with the blocks of its causes
/// and holds no advice; in concise mode it holds no block of a cause.
pub proof fn lemma_report_modes(error: CliErrorView)
    ensures
        report(error, true) == headline(error) + details(error),
        details(error).subrange(
            details(error).len() - cause_report(error.causes()).len(),
            details(error).len() as int,
        ) == cause_report(error.causes()),
        report(error, false) == headline(error) + hint(error),
{
    assert(details(error).subrange(
        details(error).len() - cause_report(error.causes()).len(),
        details(error).len() as int,
    ) =~= cause_report(error.causes()));
}

/// The arguments of a command: the command line without the name of the
/// program.
pub open spec fn arguments(argv: Seq<String>) -> Seq<String> {
    if argv.len() > 0 {
        argv.drop_first()
    } else {
        argv
    }
}

/// The shells that a command starts with: verbose, nothing said yet, color
/// asked for on both channels.
pub open spec fn fresh_shells(out_tty: bool, err_tty: bool) -> MultiShellView {
    MultiShellView {
        out: ShellView {
            config: ShellConfig { color: true, verbose: true, tty: out_tty },
            lines: Seq::empty(),
        },
        err: ShellView {
            config: ShellConfig { color: true, verbose: true, tty: err_tty },
            lines: Seq::empty(),
        },
        verbose: true,
    }
}

/// Runs `callback` on the arguments of the command line `argv` and on fresh
/// shells, then prints its result or reports its error. Gives the shells,
/// with all that was said, and the exit status of the process.
pub fn process<V: ToJson, C: FnOnce(&Vec<String>, &mut MultiShell) -> CliResult<Option<V>>>(
    callback: C,
    argv: Vec<String>,
    out_tty: bool,
    err_tty: bool,
) -> (done: (MultiShell, u32))
    requires
        forall|args: &Vec<String>, s: &mut MultiShell|
            args@ == arguments(argv@) && (*s)@ == fresh_shells(out_tty, err_tty) ==> call_requires(
                callback,
                (args, s),
            ),
    ensures
        exists|args: &Vec<String>, s: &mut MultiShell, result: CliResult<Option<V>>|
            args@ == arguments(argv@) && (*s)@ == fresh_shells(out_tty, err_tty) && call_ensures(
                callback,
                (args, s),
                result,
            ) && (done.0@, done.1) == executed(result, (*final(s))@),
{
    let mut shell = shell(true, out_tty, err_tty);
    let mut args = argv;
    if args.len() > 0 {
        args.remove(0);
    }
    assert(args@ == arguments(argv@));
    let result = callback(&args, &mut shell);
    let code = process_executed(result, &mut shell);
    (shell, code)
}

/// Runs a command that takes flags and a payload: parses the arguments of
/// `argv`, reads the payload from standard input, runs the handler, prints its
/// result or reports the error, and gives the shells and the exit status.
pub fn execute_main<
    T,
    U: RepresentsJSON,
    V: ToJson,
    F: FnOnce(T, U, &mut MultiShell) -> CliResult<Option<V>>,
    P: FnOnce(ParserConfig, &Vec<String>, &str) -> Result<T, ParseFailure>,
    I: FnOnce() -> Option<String>,
>(
    exec: F,
    options_first: bool,
    usage: &str,
    parse: P,
    stdin: I,
    argv: Vec<String>,
    build: &BuildInfo,
    out_tty: bool,
    err_tty: bool,
) -> (done: (MultiShell, u32))
    requires
        forall|config: ParserConfig, args: &Vec<String>|
            configured(config, options_first, *build) && args@ == arguments(argv@)
                ==> call_requires(parse, (config, args, usage)),
        call_requires(stdin, ()),
        forall|flags: T, payload: U, s: &mut MultiShell|
            (*s)@ == fresh_shells(out_tty, err_tty) ==> call_requires(exec, (flags, payload, s)),
    ensures
        exists|config: ParserConfig, args: &Vec<String>, parsed: Result<T, ParseFailure>|
            configured(config, options_first, *build) && args@ == arguments(argv@)
                && call_ensures(parse, (config, args, usage), parsed) && match parsed {
                Err(failure) => (done.0@, done.1) == failed(
                    fresh_shells(out_tty, err_tty),
                    parse_error(failure),
                ),
                Ok(flags) => exists|input: Option<String>, payload: CliResult<U>|
                    call_ensures(stdin, (), input) && input_outcome(input, payload)
                        && match payload {
                        Err(e) => (done.0@, done.1) == failed(fresh_shells(out_tty, err_tty), e@),
                        Ok(value) => exists|s: &mut MultiShell, result: CliResult<Option<V>>|
                            (*s)@ == fresh_shells(out_tty, err_tty) && call_ensures(
                                exec,
                                (flags, value, s),
                                result,
                            ) && (done.0@, done.1) == executed(result, (*final(s))@),
                    },
            },
{
    let callback = |rest: &Vec<String>, shell: &mut MultiShell| -> (r: CliResult<Option<V>>)
        requires
            rest@ == arguments(argv@),
            (*old(shell))@ == fresh_shells(out_tty, err_tty),
        ensures
            exists|config: ParserConfig, parsed: Result<T, ParseFailure>|
                configured(config, options_first, *build) && call_ensures(
                    parse,
                    (config, rest, usage),
                    parsed,
                ) && match parsed {
                    Err(failure) => r is Err && r->Err_0@ == parse_error(failure) && *final(shell)
                        == *old(shell),
                    Ok(flags) => exists|input: Option<String>, payload: CliResult<U>|
                        call_ensures(stdin, (), input) && input_outcome(input, payload)
                            && match payload {
                            Err(e) => r == Err::<Option<V>, CliError>(e) && *final(shell) == *old(
                                shell,
                            ),
                            Ok(value) => exists|s: &mut MultiShell|
                                *s == *old(shell) && *final(s) == *final(shell) && call_ensures(
                                    exec,
                                    (flags, value, s),
                                    r,
                                ),
                        },
                },
        { call_main(exec, shell, parse, stdin, usage, rest, options_first, build) };
    process(callback, argv, out_tty, err_tty)
}

/// Runs a command that takes flags alone: parses the arguments of `argv`,
/// runs the handler, prints its result or reports the error, and gives the
/// shells and the exit status. Standard input is not read.
pub fn execute_main_without_stdin<
    T,
    V: ToJson,
    F: FnOnce(T, &mut MultiShell) -> CliResult<Option<V>>,
    P: FnOnce(ParserConfig, &Vec<String>, &str) -> Result<T, ParseFailure>,
>(
    exec: F,
    options_first: bool,
    usage: &str,
    parse: P,
    argv: Vec<String>,
    build: &BuildInfo,
    out_tty: bool,
    err_tty: bool,
) -> (done: (MultiShell, u32))
    requires
        forall|config: ParserConfig, args: &Vec<String>|
            configured(config, options_first, *build) && args@ == arguments(argv@)
                ==> call_requires(parse, (config, args, usage)),
        forall|flags: T, s: &mut MultiShell|
            (*s)@ == fresh_shells(out_tty, err_tty) ==> call_requires(exec, (flags, s)),
    ensures
        exists|config: ParserConfig, args: &Vec<String>, parsed: Result<T, ParseFailure>|
            configured(config, options_first, *build) && args@ == arguments(argv@)
                && call_ensures(parse, (config, args, usage), parsed) && match parsed {
                Err(failure) => (done.0@, done.1) == failed(
                    fresh_shells(out_tty, err_tty),
                    parse_error(failure),
                ),
                Ok(flags) => exists|s: &mut MultiShell, result: CliResult<Option<V>>|
                    (*s)@ == fresh_shells(out_tty, err_tty) && call_ensures(
                        exec,
                        (flags, s),
                        result,
                    ) && (done.0@, done.1) == executed(result, (*final(s))@),
            },
{
    let callback = |rest: &Vec<String>, shell: &mut MultiShell| -> (r: CliResult<Option<V>>)
        requires
            rest@ == arguments(argv@),
            (*old(shell))@ == fresh_shells(out_tty, err_tty),
        ensures
            exists|config: ParserConfig, parsed: Result<T, ParseFailure>|
                configured(config, options_first, *build) && call_ensures(
                    parse,
                    (config, rest, usage),
                    parsed,
                ) && match parsed {
                    Err(failure) => r is Err && r->Err_0@ == parse_error(failure) && *final(shell)
                        == *old(shell),
                    Ok(flags) => exists|s: &mut MultiShell|
                        *s == *old(shell) && *final(s) == *final(shell) && call_ensures(
                            exec,
                            (flags, s),
                            r,
                        ),
                },
        { call_main_without_stdin(exec, shell, parse, usage, rest, options_first, build) };
    process(callback, argv, out_tty, err_tty)
}

} // verus!
