use kitowall_bridge::environment::EnvKind;
use kitowall_bridge::invoker::{
    begin_invoke, classify_output, finish_invoke, missing_tool_message, run_kitowall,
    run_kitowall_raw, CommandOutcome, Invocation, ProcessOutput, SpawnResult, UiError,
    ACTION_REQUIRED_EXIT,
};
use kitowall_bridge::json::{parse, Json, Member};
use kitowall_bridge::resolver::InvocationPlan;
use kitowall_bridge::tools::{kitowall, kitsune};

fn strings(items: &[&str]) -> Vec<String> {
    items.iter().map(|s| s.to_string()).collect()
}

fn exited(code: Option<i32>, stdout: &str, stderr: &str) -> SpawnResult {
    SpawnResult::Exited(output(code, stdout, stderr))
}

fn output(code: Option<i32>, stdout: &str, stderr: &str) -> ProcessOutput {
    ProcessOutput { exit_code: code, stdout: stdout.to_string(), stderr: stderr.to_string() }
}

fn ok_true() -> Json {
    Json::Object(vec![Member { key: "ok".to_string(), value: Json::Bool(true) }])
}

const MISSING: &str = "kitowall CLI not found on host. Install host CLI or set KITOWALL_CMD (e.g. `node ~/Programacion/Personal/Wallpaper/Kitowall/dist/cli.js`)";

#[test]
fn unavailable_plan_fails_at_once_and_names_the_variable() {
    let tool = kitowall("/b");
    for kind in [EnvKind::Native, EnvKind::Sandboxed] {
        let next = begin_invoke(&tool, kind, &InvocationPlan::Unavailable, &strings(&["status"]));
        match next {
            Invocation::Done(CommandOutcome::Failed(message)) => {
                assert!(message.contains("KITOWALL_CMD"));
                assert_eq!(message, MISSING);
            }
            other => panic!("{other:?}"),
        }
    }
    let helper = kitsune("/b");
    assert_eq!(
        missing_tool_message(&helper),
        "kitsune CLI not found on host. Install host CLI or set KITSUNE_CMD"
    );
}

#[test]
fn empty_plan_fails_like_an_unavailable_one() {
    let tool = kitowall("/b");
    let next = begin_invoke(&tool, EnvKind::Native, &InvocationPlan::Command(vec![]), &strings(&["status"]));
    assert_eq!(next, Invocation::Done(CommandOutcome::Failed(MISSING.to_string())));
}

#[test]
fn native_plan_is_started_directly() {
    let tool = kitowall("/b");
    let plan = InvocationPlan::Command(strings(&["node", "/x/cli.js"]));
    let next = begin_invoke(&tool, EnvKind::Native, &plan, &strings(&["next", "--json"]));
    match next {
        Invocation::Run(cmd) => {
            assert_eq!(cmd.program, "node");
            assert_eq!(cmd.args, vec!["/x/cli.js", "next", "--json"]);
        }
        other => panic!("{other:?}"),
    }
}

#[test]
fn sandboxed_plan_is_started_through_the_proxy() {
    let tool = kitowall("/b");
    let plan = InvocationPlan::Command(strings(&["node", "/x/cli.js"]));
    let next = begin_invoke(&tool, EnvKind::Sandboxed, &plan, &strings(&["next", "--json"]));
    match next {
        Invocation::Run(cmd) => {
            assert_eq!(cmd.program, "flatpak-spawn");
            assert_eq!(cmd.args, vec!["--host", "node", "/x/cli.js", "next", "--json"]);
        }
        other => panic!("{other:?}"),
    }
    let bare = InvocationPlan::Command(strings(&["kitowall"]));
    match begin_invoke(&tool, EnvKind::Sandboxed, &bare, &vec![]) {
        Invocation::Run(cmd) => assert_eq!(cmd.args, vec!["--host", "kitowall"]),
        other => panic!("{other:?}"),
    }
}

#[test]
fn document_is_returned_for_both_success_codes() {
    let tool = kitowall("/b");
    let well = finish_invoke(&tool, EnvKind::Native, exited(Some(0), "{\"ok\":true}", ""));
    assert_eq!(well, CommandOutcome::Structured(ok_true()));
    let asks = finish_invoke(
        &tool,
        EnvKind::Native,
        exited(Some(ACTION_REQUIRED_EXIT), " {\"ok\": true}\n", "warning"),
    );
    assert_eq!(asks, CommandOutcome::ActionRequired(ok_true()));
    assert_eq!(run_kitowall(&tool, EnvKind::Native, exited(Some(0), "{\"ok\":true}", "")), Ok(ok_true()));
    assert_eq!(run_kitowall(&tool, EnvKind::Native, exited(Some(2), "{\"ok\":true}", "")), Ok(ok_true()));
}

#[test]
fn document_counts_whatever_the_exit_code() {
    let tool = kitowall("/b");
    assert_eq!(
        finish_invoke(&tool, EnvKind::Native, exited(Some(1), "{\"ok\":true}", "boom")),
        CommandOutcome::Structured(ok_true())
    );
    assert_eq!(
        finish_invoke(&tool, EnvKind::Native, exited(None, "{\"ok\":true}", "")),
        CommandOutcome::Structured(ok_true())
    );
}

#[test]
fn unreadable_output_of_a_successful_run_is_reported() {
    let tool = kitowall("/b");
    assert_eq!(
        finish_invoke(&tool, EnvKind::Native, exited(Some(0), "all good\n", "")),
        CommandOutcome::Unparseable("all good\n".to_string())
    );
    assert_eq!(
        finish_invoke(&tool, EnvKind::Native, exited(Some(0), "", "")),
        CommandOutcome::Unparseable("".to_string())
    );
    assert_eq!(
        run_kitowall(&tool, EnvKind::Native, exited(Some(0), "{\"ok\":", "")),
        Err(UiError::InvalidJson("{\"ok\":".to_string()))
    );
}

#[test]
fn failure_tells_what_the_tool_wrote() {
    let tool = kitowall("/b");
    assert_eq!(
        finish_invoke(&tool, EnvKind::Native, exited(Some(1), "out\n", "  no such pack \n")),
        CommandOutcome::Failed("no such pack".to_string())
    );
    assert_eq!(
        finish_invoke(&tool, EnvKind::Native, exited(Some(1), " out \n", " \n")),
        CommandOutcome::Failed("out".to_string())
    );
    assert_eq!(
        finish_invoke(&tool, EnvKind::Native, exited(Some(2), "not json", "")),
        CommandOutcome::Failed("not json".to_string())
    );
    assert_eq!(
        finish_invoke(&tool, EnvKind::Native, exited(None, "", "")),
        CommandOutcome::Failed("".to_string())
    );
    assert_eq!(
        run_kitowall(&tool, EnvKind::Native, exited(Some(3), "", "bad")),
        Err(UiError::CommandFailed("bad".to_string()))
    );
}

#[test]
fn process_that_could_not_start_fails() {
    let tool = kitowall("/b");
    let why = "No such file or directory (os error 2)";
    assert_eq!(
        finish_invoke(&tool, EnvKind::Native, SpawnResult::NotStarted(why.to_string())),
        CommandOutcome::Failed(why.to_string())
    );
    assert_eq!(
        finish_invoke(&tool, EnvKind::Sandboxed, SpawnResult::NotStarted(why.to_string())),
        CommandOutcome::Failed(MISSING.to_string())
    );
}

#[test]
fn classify_takes_the_parsers_answer() {
    assert_eq!(
        classify_output(output(Some(0), "ignored", ""), Ok(Json::Null)),
        CommandOutcome::Structured(Json::Null)
    );
    assert_eq!(
        classify_output(output(Some(2), "ignored", ""), Ok(Json::Null)),
        CommandOutcome::ActionRequired(Json::Null)
    );
    assert_eq!(
        classify_output(output(Some(0), "raw", "err"), Err("expected value".to_string())),
        CommandOutcome::Unparseable("raw".to_string())
    );
    assert_eq!(
        classify_output(output(Some(9), "raw", " err "), Err("expected value".to_string())),
        CommandOutcome::Failed("err".to_string())
    );
}

#[test]
fn outcome_becomes_a_result() {
    assert_eq!(CommandOutcome::Structured(Json::Null).into_result(), Ok(Json::Null));
    assert_eq!(CommandOutcome::ActionRequired(Json::Null).into_result(), Ok(Json::Null));
    assert_eq!(
        CommandOutcome::Failed("x".to_string()).into_result(),
        Err(UiError::CommandFailed("x".to_string()))
    );
    assert_eq!(
        CommandOutcome::Unparseable("y".to_string()).into_result(),
        Err(UiError::InvalidJson("y".to_string()))
    );
}

#[test]
fn errors_read_as_one_line() {
    assert_eq!(UiError::CommandFailed("boom".to_string()).message(), "command failed: boom");
    assert_eq!(UiError::InvalidJson("{".to_string()).message(), "invalid json: {");
}

#[test]
fn raw_run_returns_the_output_untouched() {
    let tool = kitowall("/b");
    assert_eq!(
        run_kitowall_raw(&tool, EnvKind::Native, exited(Some(0), " installed\n", "note")),
        Ok(" installed\n".to_string())
    );
    assert_eq!(
        run_kitowall_raw(&tool, EnvKind::Native, exited(Some(0), "{\"ok\":true}", "")),
        Ok("{\"ok\":true}".to_string())
    );
}

#[test]
fn raw_run_fails_on_any_other_exit() {
    let tool = kitowall("/b");
    assert_eq!(
        run_kitowall_raw(&tool, EnvKind::Native, exited(Some(2), "{\"ok\":true}", " denied ")),
        Err(UiError::CommandFailed("denied".to_string()))
    );
    assert_eq!(
        run_kitowall_raw(&tool, EnvKind::Native, exited(Some(1), " out ", "")),
        Err(UiError::CommandFailed("out".to_string()))
    );
    assert_eq!(
        run_kitowall_raw(&tool, EnvKind::Native, exited(None, "", "killed")),
        Err(UiError::CommandFailed("killed".to_string()))
    );
    assert_eq!(
        run_kitowall_raw(&tool, EnvKind::Native, SpawnResult::NotStarted("denied".to_string())),
        Err(UiError::CommandFailed("denied".to_string()))
    );
    assert_eq!(
        run_kitowall_raw(&tool, EnvKind::Sandboxed, SpawnResult::NotStarted("denied".to_string())),
        Err(UiError::CommandFailed(MISSING.to_string()))
    );
}

#[test]
fn parser_reads_every_kind_of_value() {
    let doc = parse("{\"b\": [1, -2, 1.5, \"t\", null, false], \"a\": {\"k\": \"v\"}}").unwrap();
    assert_eq!(
        doc,
        Json::Object(vec![
            Member {
                key: "a".to_string(),
                value: Json::Object(vec![Member {
                    key: "k".to_string(),
                    value: Json::Text("v".to_string())
                }])
            },
            Member {
                key: "b".to_string(),
                value: Json::Array(vec![
                    Json::Number("1".to_string()),
                    Json::Number("-2".to_string()),
                    Json::Number("1.5".to_string()),
                    Json::Text("t".to_string()),
                    Json::Null,
                    Json::Bool(false),
                ])
            },
        ])
    );
    assert_eq!(parse("  \"x\" "), Ok(Json::Text("x".to_string())));
    assert_eq!(parse(""), Err("EOF while parsing a value at line 1 column 0".to_string()));
    assert_eq!(parse("{} x"), Err("trailing characters at line 1 column 4".to_string()));
    assert!(parse("{\"a\":}").is_err());
}

#[test]
fn documents_answer_for_their_members() {
    let doc = parse("{\"cache\": {\"downloadDir\": \"~/w\", \"n\": 3}, \"list\": []}").unwrap();
    assert_eq!(doc.get("cache").and_then(|c| c.text_at("downloadDir")), Some(&"~/w".to_string()));
    assert_eq!(doc.get("cache").and_then(|c| c.text_at("n")), None);
    assert_eq!(doc.get("cache").and_then(|c| c.text_at("missing")), None);
    assert_eq!(doc.get("missing"), None);
    assert_eq!(doc.get("list").and_then(|l| l.get("x")), None);
    assert_eq!(Json::Text("t".to_string()).as_text(), Some(&"t".to_string()));
    assert_eq!(Json::Null.as_text(), None);
    assert_eq!(Json::Null.get("x"), None);
}

#[test]
fn bytes_that_are_no_text_are_replaced() {
    let out = ProcessOutput::from_bytes(Some(0), b"{\"ok\":true}", &[b'a', 0xff, b'b', 0xe2, 0x82]);
    assert_eq!(out.exit_code, Some(0));
    assert_eq!(out.stdout, "{\"ok\":true}");
    assert_eq!(out.stderr, "a\u{fffd}b\u{fffd}");
    let tool = kitowall("/b");
    assert_eq!(
        finish_invoke(&tool, EnvKind::Native, SpawnResult::Exited(out)),
        CommandOutcome::Structured(ok_true())
    );
    let broken = ProcessOutput::from_bytes(Some(1), &[0xc3, 0x28], "día\n".as_bytes());
    assert_eq!(broken.stdout, "\u{fffd}(");
    assert_eq!(
        finish_invoke(&tool, EnvKind::Native, SpawnResult::Exited(broken)),
        CommandOutcome::Failed("día".to_string())
    );
}
