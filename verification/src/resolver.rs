//! Which command starts a tool.
//!
//! The caller looks things up (on the host, in the home folder, next to the
//! program) and reports what it found; [`resolve`] picks the command from
//! that, in a fixed order of preference.

use crate::environment::{EnvKind, EnvView, ExecutionEnvironment};
use crate::order::{last_in_order, lemma_lex_antisymmetric, lex_le};
use crate::path::{join, joined};
use crate::text::{
    blank, is_blank, opt_view, split_whitespace, trim, trimmed, views, words,
};
use vstd::prelude::*;

verus! {

/// A tool that can be looked for and started.
#[derive(Debug, PartialEq, Eq)]
pub struct ToolIdentity {
    /// The name under which the tool is installed: `kitowall`.
    pub name: String,
    /// The variable that holds the operator's own command line for it.
    pub override_var: String,
    /// The names under which the program that runs the tool's entry script
    /// may be installed, the usual one first: `node`, `nodejs`. Empty when
    /// the script runs by itself.
    pub interpreter_names: Vec<String>,
    /// Where the entry script is usually installed, relative to the home
    /// folder, in order of preference.
    pub host_scripts: Vec<String>,
    /// The variable with which the operator can name the entry script on
    /// the host, if the tool has one.
    pub script_override_var: Option<String>,
    /// The entry script of a local build, at a place fixed when the
    /// program was built.
    pub build_script: String,
    /// The entry script of a local build as older versions looked for it,
    /// relative to the working folder.
    pub legacy_script: Option<String>,
    /// A command line to show as an example of an override.
    pub override_example: Option<String>,
}

/// A tool as texts.
pub struct ToolView {
    pub name: Seq<char>,
    pub override_var: Seq<char>,
    pub interpreter_names: Seq<Seq<char>>,
    pub host_scripts: Seq<Seq<char>>,
    pub script_override_var: Option<Seq<char>>,
    pub build_script: Seq<char>,
    pub legacy_script: Option<Seq<char>>,
    pub override_example: Option<Seq<char>>,
}

impl View for ToolIdentity {
    type V = ToolView;

    open spec fn view(&self) -> ToolView {
        ToolView {
            name: self.name@,
            override_var: self.override_var@,
            interpreter_names: views(self.interpreter_names@),
            host_scripts: views(self.host_scripts@),
            script_override_var: opt_view(self.script_override_var),
            build_script: self.build_script@,
            legacy_script: opt_view(self.legacy_script),
            override_example: opt_view(self.override_example),
        }
    }
}

/// What the caller found out for one tool. A lookup that was not made
/// counts as one that found nothing.
#[derive(Debug, PartialEq, Eq)]
pub struct Findings {
    /// The interpreter as found on the host's `PATH`.
    pub host_interpreter: Option<String>,
    /// The home folder.
    pub home: Option<String>,
    /// The names of the folders under the version manager's folder that
    /// hold an interpreter.
    pub interpreter_versions: Vec<String>,
    /// For each of the tool's `host_scripts`, whether it exists.
    pub host_scripts_present: Vec<bool>,
    /// The tool itself as found on the host's `PATH`.
    pub host_binary: Option<String>,
    /// The value of the tool's `script_override_var`.
    pub script_override: Option<String>,
    /// Whether the tool's `build_script` exists.
    pub build_script_present: bool,
    /// Whether the tool's `legacy_script` exists.
    pub legacy_script_present: bool,
}

/// Findings as texts.
pub struct FindingsView {
    pub host_interpreter: Option<Seq<char>>,
    pub home: Option<Seq<char>>,
    pub interpreter_versions: Seq<Seq<char>>,
    pub host_scripts_present: Seq<bool>,
    pub host_binary: Option<Seq<char>>,
    pub script_override: Option<Seq<char>>,
    pub build_script_present: bool,
    pub legacy_script_present: bool,
}

impl View for Findings {
    type V = FindingsView;

    open spec fn view(&self) -> FindingsView {
        FindingsView {
            host_interpreter: opt_view(self.host_interpreter),
            home: opt_view(self.home),
            interpreter_versions: views(self.interpreter_versions@),
            host_scripts_present: self.host_scripts_present@,
            host_binary: opt_view(self.host_binary),
            script_override: opt_view(self.script_override),
            build_script_present: self.build_script_present,
            legacy_script_present: self.legacy_script_present,
        }
    }
}

/// The command that starts a tool, or the finding that there is none.
#[derive(Debug, PartialEq, Eq)]
pub enum InvocationPlan {
    /// The program, then the arguments that always follow it.
    Command(Vec<String>),
    /// Nothing that could run the tool was found.
    Unavailable,
}

/// A plan as texts.
pub enum PlanView {
    Command(Seq<Seq<char>>),
    Unavailable,
}

impl View for InvocationPlan {
    type V = PlanView;

    open spec fn view(&self) -> PlanView {
        match self {
            InvocationPlan::Command(parts) => PlanView::Command(views(parts@)),
            InvocationPlan::Unavailable => PlanView::Unavailable,
        }
    }
}

/// What a lookup on the host found: the program's output without the white
/// space around it, nothing when the lookup failed or printed nothing.
pub open spec fn lookup_answer(success: bool, stdout: Seq<char>) -> Option<Seq<char>> {
    if success && !is_blank(stdout) {
        Some(trimmed(stdout))
    } else {
        None
    }
}

/// Reads the outcome of a lookup on the host.
pub fn read_lookup(success: bool, stdout: &str) -> (r: Option<String>)
    ensures
        opt_view(r) == lookup_answer(success, stdout@),
{
    if success && !blank(stdout) {
        Some(trim(stdout))
    } else {
        None
    }
}

/// `name` is the newest of `versions`: it is one of them and none comes
/// after it in the order of texts.
pub open spec fn is_newest(versions: Seq<Seq<char>>, name: Seq<char>) -> bool {
    &&& versions.contains(name)
    &&& forall|k: int| 0 <= k < versions.len() ==> lex_le(#[trigger] versions[k], name)
}

/// The newest of `versions`, when there is any.
pub open spec fn newest(versions: Seq<Seq<char>>) -> Seq<char> {
    choose|name: Seq<char>| is_newest(versions, name)
}

/// There is one newest version at most.
pub proof fn lemma_newest_unique(versions: Seq<Seq<char>>, a: Seq<char>, b: Seq<char>)
    requires
        is_newest(versions, a),
        is_newest(versions, b),
    ensures
        a == b,
{
    let i = choose|i: int| 0 <= i < versions.len() && versions[i] == a;
    let j = choose|j: int| 0 <= j < versions.len() && versions[j] == b;
    assert(lex_le(versions[i], b));
    assert(lex_le(versions[j], a));
    lemma_lex_antisymmetric(a, b);
}

/// The interpreter inside the version folder `version` of the version
/// manager under `home`.
pub open spec fn managed_interpreter(home: Seq<char>, version: Seq<char>) -> Seq<char> {
    joined(joined(joined(home, ".nvm/versions/node"@), version), "bin/node"@)
}

/// The interpreter that the version manager under `home` offers: the one in
/// the newest version folder.
pub open spec fn managed_choice(home: Seq<char>, versions: Seq<Seq<char>>) -> Option<Seq<char>> {
    if versions.len() > 0 {
        Some(managed_interpreter(home, newest(versions)))
    } else {
        None
    }
}

/// The newest interpreter that the version manager under `home` holds.
/// `versions` are the names of its version folders that hold one; the
/// folder whose name comes last in the order of texts counts as the newest.
pub fn find_node_from_nvm(home: &str, versions: &Vec<String>) -> (r: Option<String>)
    ensures
        opt_view(r) == managed_choice(home@, views(versions@)),
        versions.len() > 0 ==> is_newest(views(versions@), newest(views(versions@))),
{
    match last_in_order(versions) {
        Some(at) => {
            let dir = join(home, ".nvm/versions/node");
            let inside = join(dir.as_str(), versions[at].as_str());
            let path = join(inside.as_str(), "bin/node");
            proof {
                let all = views(versions@);
                let name = versions@[at as int]@;
                assert(all[at as int] == name);
                assert forall|k: int| 0 <= k < all.len() implies lex_le(#[trigger] all[k], name) by {
                    assert(all[k] == versions@[k]@);
                }
                assert(is_newest(all, name));
                lemma_newest_unique(all, name, newest(all));
            }
            Some(path)
        },
        None => None,
    }
}

/// The interpreter to run scripts with on the host: the one on the host's
/// `PATH`, else the newest under the version manager in the home folder.
pub open spec fn found_interpreter(found: FindingsView) -> Option<Seq<char>> {
    match found.host_interpreter {
        Some(path) => Some(path),
        None => match found.home {
            Some(home) => managed_choice(home, found.interpreter_versions),
            None => None,
        },
    }
}

/// How many of the first `limit` entries of `present` come before the first
/// that is true.
pub open spec fn absent_before(present: Seq<bool>, limit: nat) -> nat
    decreases limit,
{
    if limit == 0 || present.len() == 0 || present[0] {
        0
    } else {
        1 + absent_before(present.drop_first(), (limit - 1) as nat)
    }
}

/// The index of the first of the tool's host scripts that exists.
pub open spec fn first_present(tool: ToolView, found: FindingsView) -> Option<int> {
    let at = absent_before(found.host_scripts_present, tool.host_scripts.len()) as int;
    if at < tool.host_scripts.len() && at < found.host_scripts_present.len() {
        Some(at)
    } else {
        None
    }
}

/// The tool's entry script as installed below the home folder: the first of
/// the usual places that exists.
pub open spec fn found_script(tool: ToolView, found: FindingsView) -> Option<Seq<char>> {
    match (found.home, first_present(tool, found)) {
        (Some(home), Some(at)) => Some(joined(home, tool.host_scripts[at])),
        _ => None,
    }
}

/// The command that runs `script`: through `interpreter` when there is one.
pub open spec fn script_command(interpreter: Option<Seq<char>>, script: Seq<char>) -> Seq<
    Seq<char>,
> {
    match interpreter {
        Some(program) => seq![program, script],
        None => seq![script],
    }
}

/// The operator's entry script on the host: the value of the tool's script
/// override variable, when the tool has one and it is set to more than
/// white space.
pub open spec fn named_script(tool: ToolView, found: FindingsView) -> Option<Seq<char>> {
    match (tool.script_override_var, found.script_override) {
        (Some(_), Some(script)) => if is_blank(script) {
            None
        } else {
            Some(script)
        },
        _ => None,
    }
}

/// The plan inside the sandbox, where only what the host offers counts.
/// In order of preference: the installed entry script, the tool on the
/// host's `PATH`, the entry script that the operator names. An installed
/// script counts only if the interpreter it needs was found. The script
/// that the operator names always counts: it is run through the interpreter
/// if one was found, and by itself if none was. The tool is unavailable
/// only when all three fail.
pub open spec fn resolve_on_host(tool: ToolView, found: FindingsView) -> PlanView {
    let needed = tool.interpreter_names.len() > 0;
    let interpreter = if needed {
        found_interpreter(found)
    } else {
        None
    };
    let can_run_scripts = !needed || interpreter is Some;
    if can_run_scripts && found_script(tool, found) is Some {
        PlanView::Command(script_command(interpreter, found_script(tool, found)->0))
    } else if found.host_binary is Some {
        PlanView::Command(seq![found.host_binary->0])
    } else if named_script(tool, found) is Some {
        PlanView::Command(script_command(interpreter, named_script(tool, found)->0))
    } else {
        PlanView::Unavailable
    }
}

/// The interpreter as it is called outside the sandbox: by its usual name.
pub open spec fn usual_interpreter(tool: ToolView) -> Option<Seq<char>> {
    if tool.interpreter_names.len() > 0 {
        Some(tool.interpreter_names[0])
    } else {
        None
    }
}

/// The plan outside the sandbox. In order of preference: the entry script
/// of a local build, the same at its older place, the tool by its bare
/// name.
pub open spec fn resolve_native(tool: ToolView, found: FindingsView) -> PlanView {
    if found.build_script_present {
        PlanView::Command(script_command(usual_interpreter(tool), tool.build_script))
    } else if tool.legacy_script is Some && found.legacy_script_present {
        PlanView::Command(script_command(usual_interpreter(tool), tool.legacy_script->0))
    } else {
        PlanView::Command(seq![tool.name])
    }
}

/// The plan for `tool`. The operator's override, split on white space,
/// beats everything; without one the surroundings decide.
pub open spec fn resolve_plan(tool: ToolView, env: EnvView, found: FindingsView) -> PlanView {
    match env.override_cmd {
        Some(cmd) => PlanView::Command(words(cmd)),
        None => match env.kind {
            EnvKind::Sandboxed => resolve_on_host(tool, found),
            EnvKind::Native => resolve_native(tool, found),
        },
    }
}

fn one(a: String) -> (out: Vec<String>)
    ensures
        views(out@) == seq![a@],
{
    let mut out: Vec<String> = Vec::new();
    out.push(a);
    assert(views(out@) =~= seq![a@]);
    out
}

fn command_for_script(interpreter: &Option<String>, script: String) -> (out: Vec<String>)
    ensures
        views(out@) == script_command(opt_view(*interpreter), script@),
{
    let mut out: Vec<String> = Vec::new();
    match interpreter {
        Some(program) => {
            out.push(program.clone());
            out.push(script);
            assert(views(out@) =~= seq![program@, script@]);
        },
        None => {
            out.push(script);
            assert(views(out@) =~= seq![script@]);
        },
    }
    out
}

fn host_interpreter(found: &Findings) -> (r: Option<String>)
    ensures
        opt_view(r) == found_interpreter(found@),
{
    match &found.host_interpreter {
        Some(path) => Some(path.clone()),
        None => match &found.home {
            Some(home) => find_node_from_nvm(home.as_str(), &found.interpreter_versions),
            None => None,
        },
    }
}

fn host_script(tool: &ToolIdentity, found: &Findings) -> (r: Option<String>)
    ensures
        opt_view(r) == found_script(tool@, found@),
{
    let present = &found.host_scripts_present;
    let n = tool.host_scripts.len();
    let mut at: usize = 0;
    assert(present@.skip(0) =~= present@);
    while at < n && at < present.len() && !present[at]
        invariant
            at <= n == tool.host_scripts.len(),
            at <= present.len(),
            absent_before(present@, n as nat) == at + absent_before(
                present@.skip(at as int),
                (n - at) as nat,
            ),
        decreases n - at,
    {
        assert(present@.skip(at as int)[0] == present@[at as int]);
        assert(present@.skip(at as int).drop_first() =~= present@.skip(at + 1));
        at += 1;
    }
    proof {
        if at < n && at < present.len() {
            assert(present@.skip(at as int)[0] == present@[at as int]);
        }
        assert(views(tool.host_scripts@).len() == n);
        assert(absent_before(present@, n as nat) == at);
    }
    if at < n && at < present.len() {
        match &found.home {
            Some(home) => {
                assert(views(tool.host_scripts@)[at as int] == tool.host_scripts@[at as int]@);
                Some(join(home.as_str(), tool.host_scripts[at].as_str()))
            },
            None => None,
        }
    } else {
        None
    }
}

fn operator_script(tool: &ToolIdentity, found: &Findings) -> (r: Option<String>)
    ensures
        opt_view(r) == named_script(tool@, found@),
{
    match (&tool.script_override_var, &found.script_override) {
        (Some(_), Some(script)) => if blank(script.as_str()) {
            None
        } else {
            Some(script.clone())
        },
        _ => None,
    }
}

fn resolve_host(tool: &ToolIdentity, found: &Findings) -> (plan: InvocationPlan)
    ensures
        plan@ == resolve_on_host(tool@, found@),
{
    let needed = tool.interpreter_names.len() > 0;
    assert(views(tool.interpreter_names@).len() == tool.interpreter_names.len());
    let interpreter = if needed {
        host_interpreter(found)
    } else {
        None
    };
    let can_run_scripts = !needed || interpreter.is_some();
    if can_run_scripts {
        match host_script(tool, found) {
            Some(script) => {
                return InvocationPlan::Command(command_for_script(&interpreter, script));
            },
            None => {},
        }
    }
    match &found.host_binary {
        Some(binary) => {
            return InvocationPlan::Command(one(binary.clone()));
        },
        None => {},
    }
    match operator_script(tool, found) {
        Some(script) => InvocationPlan::Command(command_for_script(&interpreter, script)),
        None => InvocationPlan::Unavailable,
    }
}

fn native_interpreter(tool: &ToolIdentity) -> (r: Option<String>)
    ensures
        opt_view(r) == usual_interpreter(tool@),
{
    assert(views(tool.interpreter_names@).len() == tool.interpreter_names.len());
    if tool.interpreter_names.len() > 0 {
        assert(views(tool.interpreter_names@)[0] == tool.interpreter_names@[0]@);
        Some(tool.interpreter_names[0].clone())
    } else {
        None
    }
}

fn resolve_here(tool: &ToolIdentity, found: &Findings) -> (plan: InvocationPlan)
    ensures
        plan@ == resolve_native(tool@, found@),
{
    let interpreter = native_interpreter(tool);
    if found.build_script_present {
        return InvocationPlan::Command(command_for_script(&interpreter, tool.build_script.clone()));
    }
    match &tool.legacy_script {
        Some(script) => {
            if found.legacy_script_present {
                return InvocationPlan::Command(command_for_script(&interpreter, script.clone()));
            }
        },
        None => {},
    }
    InvocationPlan::Command(one(tool.name.clone()))
}

/// The command that starts `tool` in the surroundings `env`, given what
/// was found. Always returns a plan; that nothing can run the tool is a
/// plan too.
pub fn resolve(tool: &ToolIdentity, env: &ExecutionEnvironment, found: &Findings) -> (plan:
    InvocationPlan)
    ensures
        plan@ == resolve_plan(tool@, env@, found@),
{
    match &env.override_cmd {
        Some(cmd) => InvocationPlan::Command(split_whitespace(cmd.as_str())),
        None => match env.kind {
            EnvKind::Sandboxed => resolve_host(tool, found),
            EnvKind::Native => resolve_here(tool, found),
        },
    }
}

/// Which findings a plan depends on.
#[derive(Debug, PartialEq, Eq)]
pub struct Lookups {
    /// What the host holds: home folder, installed scripts, the tool on the
    /// `PATH`, the operator's script.
    pub on_host: bool,
    /// Where the interpreter is on the host: on its `PATH`, or under the
    /// version manager.
    pub interpreter: bool,
    /// What lies next to the program: the entry script of a local build at
    /// its place and at the older one.
    pub next_to_program: bool,
}

/// The findings that the plan for `tool` in the surroundings `env` depends
/// on. With an override none are read; inside the sandbox only those about
/// the host, the interpreter among them only when the tool's script needs
/// one; outside only those about a local build. The others need not be
/// gathered.
pub fn lookups_needed(tool: &ToolIdentity, env: &ExecutionEnvironment) -> (needed: Lookups)
    ensures
        needed.on_host == (env@.override_cmd is None && env.kind == EnvKind::Sandboxed),
        needed.interpreter == (needed.on_host && tool@.interpreter_names.len() > 0),
        needed.next_to_program == (env@.override_cmd is None && env.kind == EnvKind::Native),
{
    assert(views(tool.interpreter_names@).len() == tool.interpreter_names.len());
    match (&env.override_cmd, env.kind) {
        (Some(_), _) => Lookups { on_host: false, interpreter: false, next_to_program: false },
        (None, EnvKind::Sandboxed) => Lookups {
            on_host: true,
            interpreter: tool.interpreter_names.len() > 0,
            next_to_program: false,
        },
        (None, EnvKind::Native) => Lookups {
            on_host: false,
            interpreter: false,
            next_to_program: true,
        },
    }
}

} // verus!
