//! Starting a tool and reading what it printed.
//!
//! An invocation has two halves with the process in between. [`begin_invoke`]
//! turns a plan and the caller's arguments into the command line to start,
//! or ends the invocation at once when there is nothing to start.
//! [`finish_invoke`] takes what became of the process and says what the
//! invocation amounts to.

use crate::command::{append_all, host_aware, host_aware_command, CommandLine, CommandView};
use crate::environment::EnvKind;
use crate::json::{json_text, parse, Json, JsonView};
use crate::resolver::{InvocationPlan, PlanView, ToolIdentity, ToolView};
use crate::text::{
    blank, is_blank, lemma_occurs_in_middle, occurs_in, trim, trimmed, views,
};
use vstd::prelude::*;
use vstd::string::StringExecFns;

verus! {

/// The exit code with which the tool says that it ran and printed its
/// answer, and that the answer asks for some action.
pub const ACTION_REQUIRED_EXIT: i32 = 2;

/// What a process left behind.
#[derive(Debug, PartialEq, Eq)]
pub struct ProcessOutput {
    /// The exit code; `None` when the process was ended by a signal.
    pub exit_code: Option<i32>,
    pub stdout: String,
    pub stderr: String,
}

/// What a process left behind, as texts.
pub struct OutputView {
    pub exit_code: Option<i32>,
    pub stdout: Seq<char>,
    pub stderr: Seq<char>,
}

impl View for ProcessOutput {
    type V = OutputView;

    open spec fn view(&self) -> OutputView {
        OutputView { exit_code: self.exit_code, stdout: self.stdout@, stderr: self.stderr@ }
    }
}

/// What `String::from_utf8_lossy` makes of bytes: the text they encode,
/// with the replacement character in place of whatever is not valid UTF-8.
pub uninterp spec fn lossy_text(bytes: Seq<u8>) -> Seq<char>;

/// Calls `String::from_utf8_lossy`, which never fails.
#[verifier::external_body]
fn decode_lossy(bytes: &[u8]) -> (out: String)
    ensures
        out@ == lossy_text(bytes@),
{
    String::from_utf8_lossy(bytes).into_owned()
}

impl OutputView {
    /// Whether the process left with exit code 0.
    pub open spec fn left_well(self) -> bool {
        self.exit_code == Some(0i32)
    }
}

impl ProcessOutput {
    /// Whether the process left with exit code 0.
    pub fn left_well(&self) -> (b: bool)
        ensures
            b == self@.left_well(),
    {
        self.left_with(0)
    }

    /// Whether the process left with the exit code `code`.
    pub fn left_with(&self, code: i32) -> (b: bool)
        ensures
            b == (self.exit_code == Some(code)),
    {
        match self.exit_code {
            Some(c) => c == code,
            None => false,
        }
    }

    /// What a process left behind, from the bytes it wrote. Bytes that are
    /// no text are replaced, never refused.
    pub fn from_bytes(exit_code: Option<i32>, stdout: &[u8], stderr: &[u8]) -> (out: ProcessOutput)
        ensures
            out@ == (OutputView {
                exit_code,
                stdout: lossy_text(stdout@),
                stderr: lossy_text(stderr@),
            }),
    {
        ProcessOutput { exit_code, stdout: decode_lossy(stdout), stderr: decode_lossy(stderr) }
    }
}

/// What became of an attempt to start a process.
#[derive(Debug, PartialEq, Eq)]
pub enum SpawnResult {
    /// The process ran and ended.
    Exited(ProcessOutput),
    /// The process could not be started; the text says why.
    NotStarted(String),
}

/// What became of an attempt to start a process, as texts.
pub enum SpawnView {
    Exited(OutputView),
    NotStarted(Seq<char>),
}

impl View for SpawnResult {
    type V = SpawnView;

    open spec fn view(&self) -> SpawnView {
        match self {
            SpawnResult::Exited(out) => SpawnView::Exited(out@),
            SpawnResult::NotStarted(why) => SpawnView::NotStarted(why@),
        }
    }
}

/// What an invocation amounts to.
#[derive(Debug, PartialEq, Eq)]
pub enum CommandOutcome {
    /// The tool printed a JSON document.
    Structured(Json),
    /// The tool printed a JSON document and left with
    /// [`ACTION_REQUIRED_EXIT`].
    ActionRequired(Json),
    /// The tool did not run or failed; the text says why.
    Failed(String),
    /// The tool left as if all went well, but what it printed is no JSON
    /// document. Holds what it printed.
    Unparseable(String),
}

/// An outcome as mathematical values.
pub enum OutcomeView {
    Structured(JsonView),
    ActionRequired(JsonView),
    Failed(Seq<char>),
    Unparseable(Seq<char>),
}

impl View for CommandOutcome {
    type V = OutcomeView;

    open spec fn view(&self) -> OutcomeView {
        match self {
            CommandOutcome::Structured(doc) => OutcomeView::Structured(doc@),
            CommandOutcome::ActionRequired(doc) => OutcomeView::ActionRequired(doc@),
            CommandOutcome::Failed(why) => OutcomeView::Failed(why@),
            CommandOutcome::Unparseable(raw) => OutcomeView::Unparseable(raw@),
        }
    }
}

impl OutcomeView {
    /// The document that the tool printed, if it printed one.
    pub open spec fn data(self) -> Option<JsonView> {
        match self {
            OutcomeView::Structured(doc) => Some(doc),
            OutcomeView::ActionRequired(doc) => Some(doc),
            _ => None,
        }
    }
}

/// The two ways in which an invocation yields no document.
#[derive(Debug, PartialEq, Eq)]
pub enum UiError {
    CommandFailed(String),
    InvalidJson(String),
}

/// An error as texts.
pub enum UiErrorView {
    CommandFailed(Seq<char>),
    InvalidJson(Seq<char>),
}

impl View for UiError {
    type V = UiErrorView;

    open spec fn view(&self) -> UiErrorView {
        match self {
            UiError::CommandFailed(why) => UiErrorView::CommandFailed(why@),
            UiError::InvalidJson(raw) => UiErrorView::InvalidJson(raw@),
        }
    }
}

impl UiErrorView {
    /// The error as one line of text.
    pub open spec fn message(self) -> Seq<char> {
        match self {
            UiErrorView::CommandFailed(why) => "command failed: "@ + why,
            UiErrorView::InvalidJson(raw) => "invalid json: "@ + raw,
        }
    }
}

impl UiError {
    /// The error as one line of text.
    pub fn message(&self) -> (out: String)
        ensures
            out@ == self@.message(),
    {
        match self {
            UiError::CommandFailed(why) => {
                let mut out = "command failed: ".to_string();
                out.append(why.as_str());
                out
            },
            UiError::InvalidJson(raw) => {
                let mut out = "invalid json: ".to_string();
                out.append(raw.as_str());
                out
            },
        }
    }
}

/// What to tell the operator when nothing can run `tool`: that it was not
/// found, and which variable to set to say where it is.
pub open spec fn missing_message(tool: ToolView) -> Seq<char> {
    tool.name + " CLI not found on host. Install host CLI or set "@ + tool.override_var + (
    match tool.override_example {
        Some(example) => " (e.g. `"@ + example + "`)"@,
        None => Seq::empty(),
    })
}

/// The message for a tool that nothing can run.
pub fn missing_tool_message(tool: &ToolIdentity) -> (out: String)
    ensures
        out@ == missing_message(tool@),
        occurs_in(tool@.override_var, out@),
{
    let mut out = tool.name.clone();
    out.append(" CLI not found on host. Install host CLI or set ");
    out.append(tool.override_var.as_str());
    match &tool.override_example {
        Some(example) => {
            out.append(" (e.g. `");
            out.append(example.as_str());
            out.append("`)");
            assert(out@ =~= missing_message(tool@));
        },
        None => {
            assert(out@ =~= missing_message(tool@));
        },
    }
    proof {
        lemma_message_names_variable(tool@);
    }
    out
}

/// The message for a missing tool holds the name of its override variable.
pub proof fn lemma_message_names_variable(tool: ToolView)
    ensures
        occurs_in(tool.override_var, missing_message(tool)),
{
    let before = tool.name + " CLI not found on host. Install host CLI or set "@;
    let after = match tool.override_example {
        Some(example) => " (e.g. `"@ + example + "`)"@,
        None => Seq::empty(),
    };
    lemma_occurs_in_middle(before, tool.override_var, after);
    assert(before + tool.override_var + after =~= missing_message(tool));
}

/// The command line for a plan: the plan's program, started as the
/// surroundings demand, then the rest of the plan, then the caller's
/// arguments.
pub open spec fn full_command(kind: EnvKind, parts: Seq<Seq<char>>, args: Seq<Seq<char>>) -> CommandView
    recommends
        parts.len() > 0,
{
    let start = host_aware(kind, parts[0]);
    CommandView { program: start.program, args: start.args + parts.skip(1) + args }
}

/// How an invocation goes on after its first half.
#[derive(Debug, PartialEq, Eq)]
pub enum Invocation {
    /// Start this command line and report what became of it.
    Run(CommandLine),
    /// Nothing is to be started; this is the outcome.
    Done(CommandOutcome),
}

/// The next step of an invocation as mathematical values.
pub enum InvocationView {
    Run(CommandView),
    Done(OutcomeView),
}

impl View for Invocation {
    type V = InvocationView;

    open spec fn view(&self) -> InvocationView {
        match self {
            Invocation::Run(cmd) => InvocationView::Run(cmd@),
            Invocation::Done(outcome) => InvocationView::Done(outcome@),
        }
    }
}

/// The first half of an invocation. A plan that names a program is to be
/// run. There is nothing to run when the tool is unavailable, nor when the
/// plan is empty: both fail with the message that names the override
/// variable.
pub open spec fn begin(tool: ToolView, kind: EnvKind, plan: PlanView, args: Seq<Seq<char>>) -> InvocationView {
    match plan {
        PlanView::Command(parts) => if parts.len() > 0 {
            InvocationView::Run(full_command(kind, parts, args))
        } else {
            InvocationView::Done(OutcomeView::Failed(missing_message(tool)))
        },
        PlanView::Unavailable => InvocationView::Done(OutcomeView::Failed(missing_message(tool))),
    }
}

/// Decides what to start for `plan` with the caller's `args`.
pub fn begin_invoke(
    tool: &ToolIdentity,
    kind: EnvKind,
    plan: &InvocationPlan,
    args: &Vec<String>,
) -> (next: Invocation)
    ensures
        next@ == begin(tool@, kind, plan@, views(args@)),
{
    match plan {
        InvocationPlan::Command(parts) => {
            if parts.len() > 0 {
                let mut cmd = host_aware_command(kind, parts[0].as_str());
                assert(views(parts@)[0] == parts@[0]@);
                append_all(&mut cmd.args, parts, 1);
                append_all(&mut cmd.args, args, 0);
                assert(views(args@).skip(0) =~= views(args@));
                Invocation::Run(cmd)
            } else {
                Invocation::Done(CommandOutcome::Failed(missing_tool_message(tool)))
            }
        },
        InvocationPlan::Unavailable => Invocation::Done(
            CommandOutcome::Failed(missing_tool_message(tool)),
        ),
    }
}

/// What a failed process has to say: what it wrote to its error stream, or,
/// if that is blank, to its output; without the white space around it.
pub open spec fn failure_text(out: OutputView) -> Seq<char> {
    if !is_blank(out.stderr) {
        trimmed(out.stderr)
    } else {
        trimmed(out.stdout)
    }
}

/// What a failed process has to say.
pub fn failure_message(out: &ProcessOutput) -> (text: String)
    ensures
        text@ == failure_text(out@),
{
    if !blank(out.stderr.as_str()) {
        trim(out.stderr.as_str())
    } else {
        trim(out.stdout.as_str())
    }
}

/// What a process that ran amounts to, given what the JSON parser made of
/// its output. A document counts whatever the exit code; it asks for action
/// when the code is [`ACTION_REQUIRED_EXIT`]. Without a document, exit code
/// 0 means that the output cannot be read, any other end that the tool
/// failed.
pub open spec fn classify(out: OutputView, parsed: Result<JsonView, Seq<char>>) -> OutcomeView {
    match parsed {
        Ok(doc) => if out.exit_code == Some(ACTION_REQUIRED_EXIT) {
            OutcomeView::ActionRequired(doc)
        } else {
            OutcomeView::Structured(doc)
        },
        Err(_) => if out.left_well() {
            OutcomeView::Unparseable(out.stdout)
        } else {
            OutcomeView::Failed(failure_text(out))
        },
    }
}

/// The view of a parser's answer.
pub open spec fn parsed_view(parsed: Result<Json, String>) -> Result<JsonView, Seq<char>> {
    match parsed {
        Ok(doc) => Ok(doc@),
        Err(why) => Err(why@),
    }
}

/// Says what a process that ran amounts to. `parsed` is what the JSON
/// parser made of its output.
pub fn classify_output(out: ProcessOutput, parsed: Result<Json, String>) -> (outcome: CommandOutcome)
    ensures
        outcome@ == classify(out@, parsed_view(parsed)),
{
    match parsed {
        Ok(doc) => {
            if out.left_with(ACTION_REQUIRED_EXIT) {
                CommandOutcome::ActionRequired(doc)
            } else {
                CommandOutcome::Structured(doc)
            }
        },
        Err(_) => {
            if out.left_well() {
                CommandOutcome::Unparseable(out.stdout)
            } else {
                CommandOutcome::Failed(failure_message(&out))
            }
        },
    }
}

/// Why an invocation failed whose process could not be started: inside the
/// sandbox that means that the tool is not where the plan says, so the
/// message for a missing tool is given; outside, the reason as reported.
pub open spec fn not_started(tool: ToolView, kind: EnvKind, why: Seq<char>) -> Seq<char> {
    match kind {
        EnvKind::Sandboxed => missing_message(tool),
        EnvKind::Native => why,
    }
}

fn not_started_message(tool: &ToolIdentity, kind: EnvKind, why: String) -> (text: String)
    ensures
        text@ == not_started(tool@, kind, why@),
{
    match kind {
        EnvKind::Sandboxed => missing_tool_message(tool),
        EnvKind::Native => why,
    }
}

/// The second half of an invocation.
pub open spec fn finish(tool: ToolView, kind: EnvKind, result: SpawnView) -> OutcomeView {
    match result {
        SpawnView::Exited(out) => classify(out, json_text(out.stdout)),
        SpawnView::NotStarted(why) => OutcomeView::Failed(not_started(tool, kind, why)),
    }
}

/// Says what an invocation amounts to, from what became of its process.
pub fn finish_invoke(tool: &ToolIdentity, kind: EnvKind, result: SpawnResult) -> (outcome:
    CommandOutcome)
    ensures
        outcome@ == finish(tool@, kind, result@),
{
    match result {
        SpawnResult::Exited(out) => {
            let parsed = parse(out.stdout.as_str());
            classify_output(out, parsed)
        },
        SpawnResult::NotStarted(why) => CommandOutcome::Failed(
            not_started_message(tool, kind, why),
        ),
    }
}

/// An outcome as a result: the document, or the error.
pub open spec fn as_result(outcome: OutcomeView) -> Result<JsonView, UiErrorView> {
    match outcome {
        OutcomeView::Structured(doc) => Ok(doc),
        OutcomeView::ActionRequired(doc) => Ok(doc),
        OutcomeView::Failed(why) => Err(UiErrorView::CommandFailed(why)),
        OutcomeView::Unparseable(raw) => Err(UiErrorView::InvalidJson(raw)),
    }
}

/// The view of a result that holds a document or an error.
pub open spec fn result_view(r: Result<Json, UiError>) -> Result<JsonView, UiErrorView> {
    match r {
        Ok(doc) => Ok(doc@),
        Err(e) => Err(e@),
    }
}

impl CommandOutcome {
    /// The document, or the error.
    pub fn into_result(self) -> (r: Result<Json, UiError>)
        ensures
            result_view(r) == as_result(self@),
    {
        match self {
            CommandOutcome::Structured(doc) => Ok(doc),
            CommandOutcome::ActionRequired(doc) => Ok(doc),
            CommandOutcome::Failed(why) => Err(UiError::CommandFailed(why)),
            CommandOutcome::Unparseable(raw) => Err(UiError::InvalidJson(raw)),
        }
    }
}

/// The document that an invocation of `tool` yielded, from what became of
/// its process.
pub fn run_kitowall(tool: &ToolIdentity, kind: EnvKind, result: SpawnResult) -> (r: Result<
    Json,
    UiError,
>)
    ensures
        result_view(r) == as_result(finish(tool@, kind, result@)),
{
    finish_invoke(tool, kind, result).into_result()
}

/// What an invocation yields whose output is wanted as it is: the output of
/// a process that left with exit code 0, untouched; else the failure.
pub open spec fn raw_output(tool: ToolView, kind: EnvKind, result: SpawnView) -> Result<
    Seq<char>,
    UiErrorView,
> {
    match result {
        SpawnView::Exited(out) => if out.left_well() {
            Ok(out.stdout)
        } else {
            Err(UiErrorView::CommandFailed(failure_text(out)))
        },
        SpawnView::NotStarted(why) => Err(
            UiErrorView::CommandFailed(not_started(tool, kind, why)),
        ),
    }
}

/// The view of a result that holds a text or an error.
pub open spec fn raw_view(r: Result<String, UiError>) -> Result<Seq<char>, UiErrorView> {
    match r {
        Ok(text) => Ok(text@),
        Err(e) => Err(e@),
    }
}

/// The output of an invocation of `tool`, not read as JSON, from what
/// became of its process.
pub fn run_kitowall_raw(tool: &ToolIdentity, kind: EnvKind, result: SpawnResult) -> (r: Result<
    String,
    UiError,
>)
    ensures
        raw_view(r) == raw_output(tool@, kind, result@),
{
    match result {
        SpawnResult::Exited(out) => {
            if out.left_well() {
                Ok(out.stdout)
            } else {
                Err(UiError::CommandFailed(failure_message(&out)))
            }
        },
        SpawnResult::NotStarted(why) => Err(
            UiError::CommandFailed(not_started_message(tool, kind, why)),
        ),
    }
}

/// An invocation of an unavailable tool starts nothing and fails with a
/// message that holds the name of the tool's override variable.
pub proof fn lemma_unavailable_is_refused(tool: ToolView, kind: EnvKind, args: Seq<Seq<char>>)
    ensures
        begin(tool, kind, PlanView::Unavailable, args) == InvocationView::Done(
            OutcomeView::Failed(missing_message(tool)),
        ),
        occurs_in(tool.override_var, missing_message(tool)),
{
    lemma_message_names_variable(tool);
}

/// When the tool leaves with 0 or with [`ACTION_REQUIRED_EXIT`] and its
/// output is a document, the outcome holds that document, whichever of the
/// two codes it was.
pub proof fn lemma_document_is_returned(out: OutputView, doc: JsonView)
    requires
        out.exit_code == Some(0i32) || out.exit_code == Some(ACTION_REQUIRED_EXIT),
    ensures
        classify(out, Ok(doc)).data() == Some(doc),
        !(classify(out, Ok(doc)) is Failed),
        as_result(classify(out, Ok(doc))) == Ok::<JsonView, UiErrorView>(doc),
{
}

/// When the tool leaves with 0 and its output is no document, the outcome
/// is `Unparseable` with that output: never a document, never a success.
pub proof fn lemma_unreadable_output_is_reported(out: OutputView, why: Seq<char>)
    requires
        out.exit_code == Some(0i32),
    ensures
        classify(out, Err(why)) == OutcomeView::Unparseable(out.stdout),
        classify(out, Err(why)).data() is None,
        as_result(classify(out, Err(why))) == Err::<JsonView, UiErrorView>(
            UiErrorView::InvalidJson(out.stdout),
        ),
{
}

} // verus!
