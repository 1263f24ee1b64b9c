use cargo_cli::errors::{human, CliError, CliResult};
use cargo_cli::json::{JsonDoc, JsonError, JsonValue, RepresentsJSON, ToJson};
use cargo_cli::registry::{NewCrateDependency, R};
use cargo_cli::runner::{
    call_main, call_main_without_stdin, execute_main, execute_main_without_stdin, flags_from_args,
    flags_from_parsed, handle_cause, handle_error, json_from_stdin, payload_from_document,
    payload_from_input, process, process_executed, ParseFailure, ParserConfig,
};
use cargo_cli::BuildInfo;
use cargo_cli::shell::{shell, Color, MultiShell};
use std::cell::Cell;

fn err_lines(shells: &mut MultiShell) -> Vec<String> {
    shells.err().written().iter().map(|l| l.text.clone()).collect()
}

fn out_lines(shells: &mut MultiShell) -> Vec<String> {
    shells.out().written().iter().map(|l| l.text.clone()).collect()
}

const HINT: &str = "\nTo learn more, run the command again with --verbose.";

struct Flags {
    name: String,
}

struct Payload {
    count: u64,
}

impl RepresentsJSON for Payload {
    fn decodable(_doc: JsonDoc) -> bool {
        unreachable!()
    }

    fn represents(_doc: JsonDoc, _value: Payload) -> bool {
        unreachable!()
    }

    fn decode(doc: &JsonValue) -> Option<Payload> {
        match doc.find("count") {
            Some(JsonValue::Unsigned(n)) => Some(Payload { count: *n }),
            _ => None,
        }
    }
}

struct Greeting {
    text: String,
}

impl ToJson for Greeting {
    fn json(&self) -> JsonDoc {
        unreachable!()
    }

    fn to_json(&self) -> JsonValue {
        JsonValue::object(vec![("greeting".to_string(), JsonValue::string(&self.text))])
    }
}

fn build() -> BuildInfo {
    BuildInfo {
        release: None,
        major: "1".to_string(),
        minor: "2".to_string(),
        patch: "3".to_string(),
        pre: Some("-pre".to_string()),
    }
}

fn parse_ok(_config: ParserConfig, args: &Vec<String>, _usage: &str) -> Result<Flags, ParseFailure> {
    Ok(Flags { name: args.join(" ") })
}

fn parse_help(_config: ParserConfig, _args: &Vec<String>, _usage: &str) -> Result<Flags, ParseFailure> {
    Err(ParseFailure { message: "Usage: prog <name>".to_string(), fatal: false })
}

fn parse_bad(_config: ParserConfig, _args: &Vec<String>, _usage: &str) -> Result<Flags, ParseFailure> {
    Err(ParseFailure { message: "Unknown flag: '--nope'".to_string(), fatal: true })
}

fn greet(flags: Flags, payload: Payload, _shell: &mut MultiShell) -> CliResult<Option<Greeting>> {
    Ok(Some(Greeting { text: format!("{} x{}", flags.name, payload.count) }))
}

fn silent(_flags: Flags, _shell: &mut MultiShell) -> CliResult<Option<Greeting>> {
    Ok(None)
}

fn argv(args: &[&str]) -> Vec<String> {
    args.iter().map(|a| a.to_string()).collect()
}

#[test]
fn known_error_without_cause_is_one_red_line() {
    let mut shells = shell(false, true, true);
    let code = handle_error(CliError::new("no such command", 101), &mut shells);
    assert_eq!(code, 101);
    assert_eq!(err_lines(&mut shells), vec!["no such command"]);
    assert_eq!(shells.err().written()[0].color, Some(Color::Red));
    assert!(out_lines(&mut shells).is_empty());
}

#[test]
fn empty_message_prints_nothing() {
    let mut shells = shell(false, true, true);
    assert_eq!(handle_error(CliError::new("", 0), &mut shells), 0);
    assert!(err_lines(&mut shells).is_empty());
    let mut shells = shell(true, true, true);
    assert_eq!(handle_error(CliError::new("", 0), &mut shells), 0);
    assert!(err_lines(&mut shells).is_empty());
}

#[test]
fn concise_error_with_a_cause_gets_the_hint() {
    let mut shells = shell(false, false, false);
    let error = CliError::from_error(human("build failed").caused_by(human("linker missing")), 1);
    assert_eq!(handle_error(error, &mut shells), 1);
    assert_eq!(err_lines(&mut shells), vec!["build failed", HINT]);
}

#[test]
fn unknown_error_in_concise_mode() {
    let mut shells = shell(false, false, false);
    let code = handle_error(CliError::unknown(human("raw text")), &mut shells);
    assert_eq!(code, 1);
    assert_eq!(err_lines(&mut shells), vec!["An unknown error occurred.", HINT]);
}

#[test]
fn unknown_error_in_verbose_mode_prints_the_raw_message() {
    let mut shells = shell(true, false, false);
    let code = handle_error(CliError::unknown(human("raw text")), &mut shells);
    assert_eq!(code, 1);
    assert_eq!(err_lines(&mut shells), vec!["An unknown error occurred.", "raw text"]);
}

#[test]
fn verbose_mode_prints_the_detail_and_no_hint() {
    let mut shells = shell(true, false, false);
    let error = CliError::from_error(human("failed").with_detail("exit status 2"), 1);
    handle_error(error, &mut shells);
    assert_eq!(err_lines(&mut shells), vec!["failed", "exit status 2"]);
}

#[test]
fn concise_mode_prints_neither_detail_nor_causes() {
    let mut shells = shell(false, false, false);
    let error = CliError::from_error(human("failed").with_detail("exit status 2"), 1);
    handle_error(error, &mut shells);
    assert_eq!(err_lines(&mut shells), vec!["failed"]);
}

#[test]
fn three_causes_give_three_blocks_in_order() {
    let mut shells = shell(true, false, false);
    let chain = human("top").caused_by(
        human("first").caused_by(human("second").caused_by(human("root"))),
    );
    let code = handle_error(CliError::from_error(chain, 1), &mut shells);
    assert_eq!(code, 1);
    assert_eq!(
        err_lines(&mut shells),
        vec![
            "top",
            "\nCaused by:",
            "  first",
            "\nCaused by:",
            "  second",
            "\nCaused by:",
            "  root",
        ]
    );
    let headers = err_lines(&mut shells).iter().filter(|l| l.as_str() == "\nCaused by:").count();
    assert_eq!(headers, 3);
}

#[test]
fn handle_cause_reports_the_error_itself_first() {
    let mut shells = shell(true, false, false);
    handle_cause(&human("a").caused_by(human("b")), &mut shells);
    assert_eq!(err_lines(&mut shells), vec!["\nCaused by:", "  a", "\nCaused by:", "  b"]);
}

#[test]
fn parse_failure_picks_the_exit_code() {
    let fatal = flags_from_parsed::<Flags>(Err(ParseFailure { message: "bad".to_string(), fatal: true }));
    let error = fatal.err().unwrap();
    assert_eq!(error.exit_code, 1);
    assert_eq!(error.error.description, "bad");
    assert!(!error.unknown);
    let help = flags_from_parsed::<Flags>(Err(ParseFailure { message: "usage".to_string(), fatal: false }));
    assert_eq!(help.err().unwrap().exit_code, 0);
    let ok = flags_from_parsed(Ok(Flags { name: "n".to_string() }));
    assert_eq!(ok.ok().unwrap().name, "n");
}

#[test]
fn flags_from_args_hands_the_parser_its_arguments() {
    let seen = Cell::new(false);
    let parse = |config: ParserConfig, args: &Vec<String>, usage: &str| -> Result<Flags, ParseFailure> {
        seen.set(
            usage == "Usage: x"
                && args == &argv(&["a", "b"])
                && config.options_first
                && config.help
                && config.version.as_deref() == Some("cargo 1.2.3-pre"),
        );
        Ok(Flags { name: args[0].clone() })
    };
    let flags = flags_from_args(parse, "Usage: x", &argv(&["a", "b"]), true, &build()).ok().unwrap();
    assert_eq!(flags.name, "a");
    assert!(seen.get());
}

#[test]
fn stdin_that_cannot_be_read_is_an_error() {
    let error = payload_from_input::<Payload>(None).err().unwrap();
    assert_eq!(error.exit_code, 1);
    assert_eq!(error.error.description, "standard in did not exist or was not UTF-8.");
}

#[test]
fn stdin_that_is_no_json_is_an_error() {
    let error = payload_from_input::<Payload>(Some("{not json".to_string())).err().unwrap();
    assert_eq!(error.exit_code, 1);
    assert_eq!(error.error.description, "could not parse standard in as JSON.");
    let error = payload_from_document::<Payload>(Err(JsonError::Syntax)).err().unwrap();
    assert_eq!(error.error.description, "could not parse standard in as JSON.");
}

#[test]
fn stdin_of_another_shape_is_an_error() {
    let error = payload_from_input::<Payload>(Some("{\"count\":\"three\"}".to_string())).err().unwrap();
    assert_eq!(error.exit_code, 1);
    assert_eq!(error.error.description, "could not process standard in as input.");
}

#[test]
fn stdin_payload_is_decoded() {
    let payload = payload_from_input::<Payload>(Some("{\"count\": 3}".to_string())).ok().unwrap();
    assert_eq!(payload.count, 3);
    let answer = json_from_stdin::<R, _>(|| Some("{\"ok\":true}".to_string())).ok().unwrap();
    assert!(answer.ok);
}

#[test]
fn result_is_printed_as_one_line_of_json() {
    let mut shells = shell(false, true, true);
    let code = process_executed(Ok(Some(Greeting { text: "hi".to_string() })), &mut shells);
    assert_eq!(code, 0);
    assert_eq!(out_lines(&mut shells), vec!["{\"greeting\":\"hi\"}"]);
    assert_eq!(shells.out().written()[0].color, None);
    assert!(err_lines(&mut shells).is_empty());
}

#[test]
fn library_type_is_printed_with_sorted_members() {
    let mut shells = shell(false, false, false);
    let dependency = NewCrateDependency {
        optional: false,
        default_features: true,
        name: "a".to_string(),
        features: vec![],
        version_req: "*".to_string(),
        target: Some("x86".to_string()),
    };
    process_executed(Ok(Some(dependency)), &mut shells);
    assert_eq!(
        out_lines(&mut shells),
        vec!["{\"default_features\":true,\"features\":[],\"name\":\"a\",\"optional\":false,\"target\":\"x86\",\"version_req\":\"*\"}"]
    );
}

#[test]
fn silent_success_prints_nothing_and_exits_zero() {
    let mut shells = shell(true, true, true);
    let code = process_executed::<Greeting>(Ok(None), &mut shells);
    assert_eq!(code, 0);
    assert!(out_lines(&mut shells).is_empty());
    assert!(err_lines(&mut shells).is_empty());
}

#[test]
fn error_is_reported_and_gives_its_exit_code() {
    let mut shells = shell(false, true, true);
    let code = process_executed::<Greeting>(Err(CliError::new("nope", 3)), &mut shells);
    assert_eq!(code, 3);
    assert!(out_lines(&mut shells).is_empty());
    assert_eq!(err_lines(&mut shells), vec!["nope"]);
}

#[test]
fn call_main_runs_the_handler_on_flags_and_payload() {
    let mut shells = shell(false, false, false);
    let stdin = || Some("{\"count\": 2}".to_string());
    let r = call_main(greet, &mut shells, parse_ok, stdin, "usage", &argv(&["bob"]), false, &build());
    assert_eq!(r.ok().unwrap().unwrap().text, "bob x2");
}

#[test]
fn call_main_does_not_read_stdin_after_a_parse_failure() {
    let mut shells = shell(false, false, false);
    let read = Cell::new(false);
    let stdin = || {
        read.set(true);
        Some("{}".to_string())
    };
    let r = call_main(greet, &mut shells, parse_bad, stdin, "usage", &argv(&[]), false, &build());
    assert_eq!(r.err().unwrap().exit_code, 1);
    assert!(!read.get());
}

#[test]
fn call_main_does_not_run_the_handler_without_a_payload() {
    let mut shells = shell(false, false, false);
    let ran = Cell::new(false);
    let handler = |_f: Flags, _p: Payload, _s: &mut MultiShell| -> CliResult<Option<Greeting>> {
        ran.set(true);
        Ok(None)
    };
    let r = call_main(handler, &mut shells, parse_ok, || None, "usage", &argv(&[]), false, &build());
    assert_eq!(
        r.err().unwrap().error.description,
        "standard in did not exist or was not UTF-8."
    );
    assert!(!ran.get());
}

#[test]
fn call_main_without_stdin_runs_the_handler() {
    let mut shells = shell(false, false, false);
    let handler = |flags: Flags, shell: &mut MultiShell| -> CliResult<Option<Greeting>> {
        shell.say("working", Color::Green);
        Ok(Some(Greeting { text: flags.name }))
    };
    let r = call_main_without_stdin(handler, &mut shells, parse_ok, "usage", &argv(&["x"]), true, &build());
    assert_eq!(r.ok().unwrap().unwrap().text, "x");
    assert_eq!(out_lines(&mut shells), vec!["working"]);
}

#[test]
fn process_drops_the_program_name_and_starts_verbose() {
    let callback = |args: &Vec<String>, shell: &mut MultiShell| -> CliResult<Option<Greeting>> {
        assert!(shell.get_verbose());
        Ok(Some(Greeting { text: args.join(",") }))
    };
    let (mut shells, code) = process(callback, argv(&["prog", "a", "b"]), false, false);
    assert_eq!(code, 0);
    assert_eq!(out_lines(&mut shells), vec!["{\"greeting\":\"a,b\"}"]);
}

#[test]
fn process_takes_an_empty_command_line() {
    let callback = |args: &Vec<String>, _shell: &mut MultiShell| -> CliResult<Option<Greeting>> {
        assert!(args.is_empty());
        Ok(None)
    };
    let (mut shells, code) = process(callback, Vec::new(), false, false);
    assert_eq!(code, 0);
    assert!(out_lines(&mut shells).is_empty());
}

#[test]
fn pipeline_prints_the_result_and_exits_zero() {
    let stdin = || Some("{\"count\": 5}".to_string());
    let (mut shells, code) =
        execute_main(greet, false, "usage", parse_ok, stdin, argv(&["prog", "ann"]), &build(), true, true);
    assert_eq!(code, 0);
    assert_eq!(out_lines(&mut shells), vec!["{\"greeting\":\"ann x5\"}"]);
    assert!(err_lines(&mut shells).is_empty());
}

#[test]
fn malformed_stdin_json_exits_one_without_output() {
    let stdin = || Some("{\"count\": ".to_string());
    let (mut shells, code) =
        execute_main(greet, false, "usage", parse_ok, stdin, argv(&["prog", "ann"]), &build(), true, true);
    assert_eq!(code, 1);
    assert!(out_lines(&mut shells).is_empty());
    assert_eq!(err_lines(&mut shells), vec!["could not parse standard in as JSON."]);
}

#[test]
fn help_request_exits_zero_and_fatal_parse_exits_one() {
    let stdin = || Some("{\"count\": 5}".to_string());
    let (mut shells, code) =
        execute_main(greet, false, "usage", parse_help, stdin, argv(&["prog", "-h"]), &build(), false, false);
    assert_eq!(code, 0);
    assert!(out_lines(&mut shells).is_empty());
    assert_eq!(err_lines(&mut shells), vec!["Usage: prog <name>"]);

    let (mut shells, code) =
        execute_main_without_stdin(silent, true, "usage", parse_bad, argv(&["prog"]), &build(), false, false);
    assert_eq!(code, 1);
    assert!(out_lines(&mut shells).is_empty());
    assert_eq!(err_lines(&mut shells), vec!["Unknown flag: '--nope'"]);
}

#[test]
fn silent_pipeline_exits_zero_with_no_line() {
    let (mut shells, code) =
        execute_main_without_stdin(silent, false, "usage", parse_ok, argv(&["prog"]), &build(), true, true);
    assert_eq!(code, 0);
    assert!(out_lines(&mut shells).is_empty());
    assert!(err_lines(&mut shells).is_empty());
}

#[test]
fn handler_error_is_reported_with_its_causes() {
    let failing = |_f: Flags, _s: &mut MultiShell| -> CliResult<Option<Greeting>> {
        Err(CliError::from_error(human("upload failed").caused_by(human("timeout")), 101))
    };
    let (mut shells, code) =
        execute_main_without_stdin(failing, false, "usage", parse_ok, argv(&["prog"]), &build(), false, false);
    assert_eq!(code, 101);
    assert_eq!(err_lines(&mut shells), vec!["upload failed", "\nCaused by:", "  timeout"]);
}

#[test]
fn stdin_beyond_the_limits_of_the_parser_does_not_parse() {
    let text = format!("{{\"count\": {}1{}}}", "[".repeat(200), "]".repeat(200));
    let error = payload_from_input::<Payload>(Some(text)).err().unwrap();
    assert_eq!(error.exit_code, 1);
    assert_eq!(error.error.description, "could not parse standard in as JSON.");
    let error = payload_from_document::<Payload>(Err(JsonError::Limits)).err().unwrap();
    assert_eq!(error.exit_code, 1);
    assert_eq!(error.error.description, "could not parse standard in as JSON.");
}

#[test]
fn long_stdin_is_read_and_decoded() {
    let text = format!("{{\"count\": 1, \"pad\": \"{}\"}}", "x e1234567890 ".repeat(10_000));
    assert_eq!(payload_from_input::<Payload>(Some(text)).ok().unwrap().count, 1);
    let wrong = format!("{{\"count\": \"{}\"}}", "x".repeat(100_000));
    let error = payload_from_input::<Payload>(Some(wrong)).err().unwrap();
    assert_eq!(error.error.description, "could not process standard in as input.");
}

#[test]
fn stdin_that_would_stop_the_parser_is_no_json() {
    let error = payload_from_input::<Payload>(Some("[{\"a\":{\"b\":1,},5]".to_string())).err().unwrap();
    assert_eq!(error.exit_code, 1);
    assert_eq!(error.error.description, "could not parse standard in as JSON.");
}

struct Deep {
    levels: usize,
}

impl ToJson for Deep {
    fn json(&self) -> JsonDoc {
        unreachable!()
    }

    fn to_json(&self) -> JsonValue {
        let mut doc = JsonValue::Null;
        for _ in 0..self.levels {
            doc = JsonValue::array(vec![doc]);
        }
        doc
    }
}

#[test]
fn result_nested_too_deeply_is_an_error() {
    let mut shells = shell(false, false, false);
    let code = process_executed(Ok(Some(Deep { levels: 129 })), &mut shells);
    assert_eq!(code, 1);
    assert!(out_lines(&mut shells).is_empty());
    assert_eq!(err_lines(&mut shells), vec!["the result is nested too deeply to be written."]);

    let mut shells = shell(false, false, false);
    let code = process_executed(Ok(Some(Deep { levels: 2 })), &mut shells);
    assert_eq!(code, 0);
    assert_eq!(out_lines(&mut shells), vec!["[[null]]"]);
}
