use serde_json::Value;
use svitlo_store::backend::command::{exit_result, run_json, CommandOutput, Request, PREFIX_PLACE};
use svitlo_store::backend::json_types::{
    answer, default_servers, default_timeout, parse_decoded, parse_or_err, read_reply, Decoded,
    InstallResult, ListResult, LockEntry, ProminConfig, ProminError,
};
use svitlo_store::backend::promin::version_from_store_name;
use svitlo_store::name_map::NameMap;
use std::cell::RefCell;

fn json(line: &str) -> Result<Value, String> {
    serde_json::from_str::<Value>(line).map_err(|e| e.to_string())
}

fn envelope(line: &str) -> Option<ProminError> {
    let value = json(line).ok()?;
    Some(ProminError {
        ok: value.get("ok")?.as_bool()?,
        error: value.get("error")?.as_str()?.to_string(),
    })
}

fn list(line: &str) -> Result<ListResult, String> {
    let value = json(line)?;
    let mut packages = NameMap::new();
    let found = value.get("packages").and_then(|p| p.as_object()).ok_or("missing field `packages`")?;
    for (name, store_name) in found {
        packages.insert(name.clone(), store_name.as_str().ok_or("no string")?.to_string());
    }
    Ok(ListResult { packages })
}

fn install(line: &str) -> Result<InstallResult, String> {
    let value = json(line)?;
    let text = |key: &str| value.get(key).and_then(|v| v.as_str()).map(|s| s.to_string());
    Ok(InstallResult {
        ok: value.get("ok").and_then(|v| v.as_bool()).ok_or("missing field `ok`")?,
        installed: text("installed"),
        error: text("error"),
    })
}

fn decoder<T>(read: fn(&str) -> Result<T, String>) -> impl Fn(&str) -> Decoded<T> {
    move |line| Decoded { envelope: envelope(line), payload: read(line) }
}

#[test]
fn parse_list() {
    let s = r#"{"packages":{"cosmic-files":"abc123-cosmic-files-1.0.0","wget":"def-wget-1.21"}}"#;
    let r = parse_or_err::<ListResult>(s, decoder(list)).unwrap();
    assert_eq!(r.packages.len(), 2);
    assert_eq!(version_from_store_name(r.packages.get("wget").unwrap(), "wget"), "1.21");
}

#[test]
fn parse_error_envelope() {
    let s = r#"{"ok":false,"error":"пакет 'foo' не в lock релиза 0.3"}"#;
    let e = parse_or_err::<InstallResult>(s, decoder(install));
    assert!(e.is_err());
    assert_eq!(e.unwrap_err(), "пакет 'foo' не в lock релиза 0.3");
}

#[test]
fn lock_store_name_reconstruct() {
    let e = LockEntry {
        version: "1.0.0".into(),
        input_hash: "abc123".into(),
        runtime_deps: vec![],
        store_name: None,
    };
    assert_eq!(e.store_name("cosmic-files"), "abc123-cosmic-files-1.0.0");
}

#[test]
fn recorded_store_name_is_taken() {
    let e = LockEntry {
        version: "1.0.0".into(),
        input_hash: "abc123".into(),
        runtime_deps: vec!["glibc".into()],
        store_name: Some("recorded".into()),
    };
    assert_eq!(e.store_name("cosmic-files"), "recorded");
}

#[test]
fn version_is_read_back_from_a_composed_store_name() {
    for (hash, name, version) in
        [("abc123", "cosmic-files", "1.0.0"), ("0f", "a", "1-a-2"), ("", "wget", ""), ("9", "", "1")]
    {
        let e = LockEntry {
            version: version.into(),
            input_hash: hash.into(),
            runtime_deps: vec![],
            store_name: None,
        };
        assert_eq!(version_from_store_name(&e.store_name(name), name), version);
    }
}

#[test]
fn version_is_not_read_back_where_the_hash_holds_the_name() {
    assert_eq!(version_from_store_name("x-wget-y-wget-1.21", "wget"), "y-wget-1.21");
}

#[test]
fn version_of_another_package_is_empty() {
    assert_eq!(version_from_store_name("def-wget-1.21", "curl"), "");
    assert_eq!(version_from_store_name("", "curl"), "");
}

#[test]
fn empty_output_is_an_error() {
    for s in ["", " \n", "\u{a0}\t"] {
        let e = parse_or_err::<ListResult>(s, decoder(list)).unwrap_err();
        assert_eq!(e, "promin: пустой вывод");
    }
}

#[test]
fn malformed_output_is_quoted() {
    let s = " {\"packages\":3} \n";
    let e = parse_or_err::<ListResult>(s, decoder(list)).unwrap_err();
    assert_eq!(e, "promin: разбор JSON: missing field `packages` (вход: {\"packages\":3})");
}

#[test]
fn envelope_that_reports_success_is_no_error() {
    let s = r#"{"ok":true,"error":"","installed":"wget"}"#;
    let r = parse_or_err::<InstallResult>(s, decoder(install)).unwrap();
    assert!(r.ok);
    assert_eq!(r.installed.as_deref(), Some("wget"));
}

#[test]
fn white_space_around_an_answer_makes_no_difference() {
    let s = "\n  {\"packages\":{}}\r\n";
    assert_eq!(parse_or_err::<ListResult>(s, decoder(list)).unwrap().packages.len(), 0);
    for s in ["", "{\"packages\":3}", "{\"ok\":false,\"error\":\" нет \"}", "a b"] {
        let padded = format!("\t\u{3000}\n{s} \r\n");
        assert_eq!(
            parse_or_err::<ListResult>(&padded, decoder(list)).unwrap_err(),
            parse_or_err::<ListResult>(s, decoder(list)).unwrap_err()
        );
    }
}

#[test]
fn answer_hands_on_the_error_of_the_run() {
    let r = answer::<ListResult>(Err("не запустить promin: нет".to_string()));
    assert_eq!(r.unwrap_err(), "не запустить promin: нет");
    let s = "{\"packages\":{\"a\":\"h-a-1\"}}".to_string();
    let reply = read_reply(s, decoder(list));
    assert_eq!(reply.stdout, "{\"packages\":{\"a\":\"h-a-1\"}}");
    assert_eq!(answer(Ok(reply)).unwrap().packages.get("a").unwrap(), "h-a-1");
}

#[test]
fn configuration_defaults() {
    let c = ProminConfig::default();
    assert_eq!(c.servers, vec!["https://cache.svitlolinux.org".to_string()]);
    assert_eq!(c.servers, default_servers());
    assert!(!c.offline);
    assert_eq!(c.timeout, 30);
    assert_eq!(c.timeout, default_timeout());
    assert_eq!(c.release, "");
}

#[test]
fn requests_and_command_lines() {
    assert_eq!(Request::List.args(), vec!["list"]);
    assert_eq!(Request::Status.args(), vec!["status"]);
    assert_eq!(Request::Recipes.args(), vec!["recipes"]);
    assert_eq!(Request::AcceptEula { channel: "nonfree".into() }.args(), vec!["accept-eula", "nonfree"]);
    assert_eq!(Request::Install { name: "wget".into() }.args(), vec!["install", "wget"]);
    assert_eq!(
        Request::Remove { name: "wget".into() }.command_line("/promin"),
        vec!["--prefix", "/promin", "--json", "remove", "wget"]
    );
    assert_eq!(Request::List.command_line("/srv")[PREFIX_PLACE], "/srv");
}

#[test]
fn plain_words_are_shown_between_quotes() {
    let plain: String = (0x20u8..0x7f).map(char::from).filter(|c| !"\"\\".contains(*c)).collect();
    for name in [plain.as_str(), "", "wget", "it's"] {
        let out = CommandOutput::from_bytes(false, Some(1), b"", b"e");
        let r = exit_result(&Request::Remove { name: name.to_string() }, Ok(out), None);
        let shown = ["promin [\"remove\", \"", name, "\"] код Some(1): e"].concat();
        assert_eq!(r.unwrap_err(), shown);
    }
}

#[test]
fn program_that_does_not_start() {
    let r = run_json(&Request::List, Err("No such file".to_string()), envelope);
    assert_eq!(r.unwrap_err(), "не запустить promin: No such file");
}

#[test]
fn successful_run_gives_what_was_printed() {
    let out = CommandOutput::from_bytes(true, Some(0), b"{\"recipes\":[]}\n", b"warning");
    assert_eq!(out.error_line(), None);
    assert_eq!(run_json(&Request::Recipes, Ok(out), envelope).unwrap(), "{\"recipes\":[]}\n");
}

#[test]
fn failed_run_gives_the_reported_error() {
    let stdout = "  {\"ok\":false,\"error\":\"нет сети\"}\r\nmore\n";
    let out = CommandOutput::from_bytes(false, Some(1), stdout.as_bytes(), b"trace");
    assert_eq!(out.error_line().unwrap(), "{\"ok\":false,\"error\":\"нет сети\"}");
    let r = run_json(&Request::List, Ok(out), envelope);
    assert_eq!(r.unwrap_err(), "нет сети");
}

#[test]
fn failed_run_without_a_report_tells_its_exit() {
    let request = Request::Install { name: "a\"b\n".to_string() };
    let out = CommandOutput::from_bytes(false, Some(-2), b"", b"boom");
    assert_eq!(out.error_line(), None);
    let reported = Some(ProminError { ok: false, error: "unread".to_string() });
    let r = exit_result(&request, Ok(out), reported);
    let args = ["install", "a\"b\n"];
    let code: Option<i32> = Some(-2);
    assert_eq!(r.unwrap_err(), format!("promin {:?} код {:?}: boom", args, code));

    let out = CommandOutput::from_bytes(false, None, b"not json", b"");
    let r = run_json(&Request::List, Ok(out), envelope);
    assert_eq!(r.unwrap_err(), "promin [\"list\"] код None: ");

    let out = CommandOutput::from_bytes(false, Some(3), b"x", b"e");
    let fine = Some(ProminError { ok: true, error: "unused".to_string() });
    let r = exit_result(&Request::Status, Ok(out), fine);
    assert_eq!(r.unwrap_err(), "promin [\"status\"] код Some(3): e");
}

#[test]
fn output_that_is_no_text_is_replaced() {
    let out = CommandOutput::from_bytes(true, Some(0), &[b'a', 0xff, b'b'], &[0xd0, 0xb6]);
    assert_eq!(out.stdout, "a\u{fffd}b");
    assert_eq!(out.stderr, "ж");
}

#[test]
fn decoders_are_handed_trimmed_lines() {
    let seen: RefCell<Vec<String>> = RefCell::new(Vec::new());
    let read = |line: &str| {
        seen.borrow_mut().push(line.to_string());
        Decoded { envelope: None, payload: Ok(line.len()) }
    };
    assert_eq!(parse_or_err(" \n", &read).unwrap_err(), "promin: пустой вывод");
    assert_eq!(parse_or_err(" [1,\n2] \n", &read).unwrap(), 6);
    assert_eq!(read_reply("\t[]".to_string(), &read).decoded.payload, Ok(2));
    assert_eq!(*seen.borrow(), vec!["[1,\n2]", "[]"]);

    seen.borrow_mut().clear();
    let report = |line: &str| {
        seen.borrow_mut().push(line.to_string());
        Some(ProminError { ok: false, error: "why".to_string() })
    };
    let out = |success: bool, stdout: &str| {
        Ok(CommandOutput::from_bytes(success, Some(1), stdout.as_bytes(), b"e"))
    };
    assert_eq!(run_json(&Request::List, out(false, " a \nb"), &report).unwrap_err(), "why");
    assert_eq!(run_json(&Request::List, out(true, "c"), &report).unwrap(), "c");
    assert_eq!(
        run_json(&Request::List, out(false, ""), &report).unwrap_err(),
        "promin [\"list\"] код Some(1): e"
    );
    assert_eq!(*seen.borrow(), vec!["a"]);
}

#[test]
fn reported_failure_wins_over_the_answer() {
    let refused = || Some(ProminError { ok: false, error: "нет".to_string() });
    let both = Decoded { envelope: refused(), payload: Ok(1) };
    assert_eq!(parse_decoded("x", both).unwrap_err(), "нет");
    let neither: Decoded<i32> = Decoded { envelope: refused(), payload: Err("eof".to_string()) };
    assert_eq!(parse_decoded("x", neither).unwrap_err(), "нет");
}

#[test]
fn store_names_tell_builds_apart() {
    let entry = |hash: &str, version: &str| LockEntry {
        version: version.to_string(),
        input_hash: hash.to_string(),
        runtime_deps: vec![],
        store_name: None,
    };
    assert_ne!(entry("a", "1").store_name("x"), entry("b", "1").store_name("x"));
    assert_ne!(entry("a", "1").store_name("x"), entry("a", "2").store_name("x"));
    assert_eq!(entry("a", "1-x-2").store_name("x"), entry("a-x-1", "2").store_name("x"));
}
