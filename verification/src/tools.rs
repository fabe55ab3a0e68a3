//! The two tools that the desktop shell drives, and what holds of the plans
//! made for them.

use crate::environment::{EnvKind, EnvView, ExecutionEnvironment};
use crate::path::{join, joined};
use crate::resolver::{
    found_interpreter, found_script, named_script, resolve, resolve_native, resolve_on_host,
    resolve_plan, script_command, usual_interpreter, Findings, FindingsView, InvocationPlan,
    PlanView, ToolIdentity, ToolView,
};
use crate::text::{views, words};
use vstd::prelude::*;

verus! {

/// The wallpaper manager. Its entry script needs `node`; a local build
/// lies at `../../dist/cli.js` below `build_dir`.
pub open spec fn kitowall_tool(build_dir: Seq<char>) -> ToolView {
    ToolView {
        name: "kitowall"@,
        override_var: "KITOWALL_CMD"@,
        interpreter_names: seq!["node"@, "nodejs"@],
        host_scripts: seq![
            "Programacion/Personal/Wallpaper/Kitowall/dist/cli.js"@,
            "Programacion/Personal/Wallpaper/hyprwall/dist/cli.js"@,
            ".local/share/kitowall/dist/cli.js"@,
        ],
        script_override_var: Some("KITOWALL_HOST_CLI"@),
        build_script: joined(build_dir, "../../dist/cli.js"@),
        legacy_script: Some("../../dist/cli.js"@),
        override_example: Some("node ~/Programacion/Personal/Wallpaper/Kitowall/dist/cli.js"@),
    }
}

/// The wallpaper manager, for a program built in `build_dir`.
pub fn kitowall(build_dir: &str) -> (tool: ToolIdentity)
    ensures
        tool@ == kitowall_tool(build_dir@),
{
    let mut interpreter_names: Vec<String> = Vec::new();
    interpreter_names.push("node".to_string());
    interpreter_names.push("nodejs".to_string());
    assert(views(interpreter_names@) =~= seq!["node"@, "nodejs"@]);
    let mut host_scripts: Vec<String> = Vec::new();
    host_scripts.push("Programacion/Personal/Wallpaper/Kitowall/dist/cli.js".to_string());
    host_scripts.push("Programacion/Personal/Wallpaper/hyprwall/dist/cli.js".to_string());
    host_scripts.push(".local/share/kitowall/dist/cli.js".to_string());
    assert(views(host_scripts@) =~= seq![
        "Programacion/Personal/Wallpaper/Kitowall/dist/cli.js"@,
        "Programacion/Personal/Wallpaper/hyprwall/dist/cli.js"@,
        ".local/share/kitowall/dist/cli.js"@,
    ]);
    ToolIdentity {
        name: "kitowall".to_string(),
        override_var: "KITOWALL_CMD".to_string(),
        interpreter_names,
        host_scripts,
        script_override_var: Some("KITOWALL_HOST_CLI".to_string()),
        build_script: join(build_dir, "../../dist/cli.js"),
        legacy_script: Some("../../dist/cli.js".to_string()),
        override_example: Some(
            "node ~/Programacion/Personal/Wallpaper/Kitowall/dist/cli.js".to_string(),
        ),
    }
}

/// The live-wallpaper helper. Its entry script runs by itself; a local
/// build lies at `../../../Kitsune/scripts/kitsune.sh` below `build_dir`.
pub open spec fn kitsune_tool(build_dir: Seq<char>) -> ToolView {
    ToolView {
        name: "kitsune"@,
        override_var: "KITSUNE_CMD"@,
        interpreter_names: Seq::empty(),
        host_scripts: seq![
            "Programacion/Personal/Wallpaper/Kitsune/scripts/kitsune.sh"@,
            ".local/share/kitsune/scripts/kitsune.sh"@,
        ],
        script_override_var: None,
        build_script: joined(build_dir, "../../../Kitsune/scripts/kitsune.sh"@),
        legacy_script: None,
        override_example: None,
    }
}

/// The live-wallpaper helper, for a program built in `build_dir`.
pub fn kitsune(build_dir: &str) -> (tool: ToolIdentity)
    ensures
        tool@ == kitsune_tool(build_dir@),
{
    let interpreter_names: Vec<String> = Vec::new();
    assert(views(interpreter_names@) =~= Seq::<Seq<char>>::empty());
    let mut host_scripts: Vec<String> = Vec::new();
    host_scripts.push("Programacion/Personal/Wallpaper/Kitsune/scripts/kitsune.sh".to_string());
    host_scripts.push(".local/share/kitsune/scripts/kitsune.sh".to_string());
    assert(views(host_scripts@) =~= seq![
        "Programacion/Personal/Wallpaper/Kitsune/scripts/kitsune.sh"@,
        ".local/share/kitsune/scripts/kitsune.sh"@,
    ]);
    ToolIdentity {
        name: "kitsune".to_string(),
        override_var: "KITSUNE_CMD".to_string(),
        interpreter_names,
        host_scripts,
        script_override_var: None,
        build_script: join(build_dir, "../../../Kitsune/scripts/kitsune.sh"),
        legacy_script: None,
        override_example: None,
    }
}

/// The command that starts the wallpaper manager.
pub fn resolve_kitowall_cmd(build_dir: &str, env: &ExecutionEnvironment, found: &Findings) -> (plan:
    InvocationPlan)
    ensures
        plan@ == resolve_plan(kitowall_tool(build_dir@), env@, found@),
{
    let tool = kitowall(build_dir);
    resolve(&tool, env, found)
}

/// The command that starts the live-wallpaper helper.
pub fn resolve_kitsune_cmd(build_dir: &str, env: &ExecutionEnvironment, found: &Findings) -> (plan:
    InvocationPlan)
    ensures
        plan@ == resolve_plan(kitsune_tool(build_dir@), env@, found@),
{
    let tool = kitsune(build_dir);
    resolve(&tool, env, found)
}

/// The operator's override is the plan, split on white space, whatever the
/// tool, the surroundings and the findings.
pub proof fn lemma_override_wins(tool: ToolView, env: EnvView, found: FindingsView)
    requires
        env.override_cmd is Some,
    ensures
        resolve_plan(tool, env, found) == PlanView::Command(words(env.override_cmd->0)),
{
}

/// Outside the sandbox and without an override, the entry script of a local
/// build is the plan whenever it exists, whether or not the older place
/// holds one too.
pub proof fn lemma_local_build_is_preferred(tool: ToolView, env: EnvView, found: FindingsView)
    requires
        env.kind == EnvKind::Native,
        env.override_cmd is None,
        found.build_script_present,
    ensures
        resolve_plan(tool, env, found) == PlanView::Command(
            script_command(usual_interpreter(tool), tool.build_script),
        ),
{
}

/// Only inside the sandbox, and only without an override, can a tool be
/// unavailable; then the host's `PATH` does not hold it and the operator
/// has named no script.
pub proof fn lemma_unavailable_only_on_host(tool: ToolView, env: EnvView, found: FindingsView)
    requires
        resolve_plan(tool, env, found) is Unavailable,
    ensures
        env.kind == EnvKind::Sandboxed,
        env.override_cmd is None,
        found.host_binary is None,
        named_script(tool, found) is None,
{
}

/// Inside the sandbox and without an override, the script that the operator
/// names is honoured whether or not an interpreter was found: the tool is
/// not unavailable, and when neither an installed script nor the tool on
/// the host's `PATH` comes first, the plan runs that script, through the
/// interpreter if one was found and by itself if none was.
pub proof fn lemma_named_script_is_honoured(tool: ToolView, env: EnvView, found: FindingsView)
    requires
        env.kind == EnvKind::Sandboxed,
        env.override_cmd is None,
        named_script(tool, found) is Some,
    ensures
        !(resolve_plan(tool, env, found) is Unavailable),
        found_script(tool, found) is None && found.host_binary is None ==> resolve_plan(
            tool,
            env,
            found,
        ) == PlanView::Command(
            script_command(
                if tool.interpreter_names.len() > 0 {
                    found_interpreter(found)
                } else {
                    None
                },
                named_script(tool, found)->0,
            ),
        ),
        found_script(tool, found) is None && found.host_binary is None && found_interpreter(found)
            is None ==> resolve_plan(tool, env, found) == PlanView::Command(
            seq![named_script(tool, found)->0],
        ),
{
}

/// The plan for a tool whose script runs by itself does not depend on
/// where an interpreter is.
pub proof fn lemma_interpreter_is_read_when_needed(
    tool: ToolView,
    env: EnvView,
    a: FindingsView,
    b: FindingsView,
)
    requires
        tool.interpreter_names.len() == 0,
        a.home == b.home,
        a.host_scripts_present == b.host_scripts_present,
        a.host_binary == b.host_binary,
        a.script_override == b.script_override,
        a.build_script_present == b.build_script_present,
        a.legacy_script_present == b.legacy_script_present,
    ensures
        resolve_plan(tool, env, a) == resolve_plan(tool, env, b),
{
    assert(found_script(tool, a) == found_script(tool, b));
    assert(named_script(tool, a) == named_script(tool, b));
    assert(resolve_on_host(tool, a) == resolve_on_host(tool, b));
    assert(resolve_native(tool, a) == resolve_native(tool, b));
}

/// Inside the sandbox, a tool of which nothing was found is unavailable.
pub proof fn lemma_nothing_found(tool: ToolView, env: EnvView, found: FindingsView)
    requires
        env.kind == EnvKind::Sandboxed,
        env.override_cmd is None,
        found.home is None,
        found.host_binary is None,
        found.script_override is None,
    ensures
        resolve_plan(tool, env, found) is Unavailable,
{
}

/// Without an override, the plan inside the sandbox does not depend on
/// what lies next to the program, and the plan outside does not depend on
/// what the host holds.
pub proof fn lemma_plans_read_their_own_findings(
    tool: ToolView,
    env: EnvView,
    a: FindingsView,
    b: FindingsView,
)
    requires
        env.override_cmd is None,
    ensures
        env.kind == EnvKind::Native && a.build_script_present == b.build_script_present
            && a.legacy_script_present == b.legacy_script_present ==> resolve_plan(tool, env, a)
            == resolve_plan(tool, env, b),
        env.kind == EnvKind::Sandboxed && a.host_interpreter == b.host_interpreter && a.home
            == b.home && a.interpreter_versions == b.interpreter_versions
            && a.host_scripts_present == b.host_scripts_present && a.host_binary == b.host_binary
            && a.script_override == b.script_override ==> resolve_plan(tool, env, a)
            == resolve_plan(tool, env, b),
{
    if env.kind == EnvKind::Native {
        assert(resolve_plan(tool, env, a) == resolve_native(tool, a));
    } else {
        assert(resolve_plan(tool, env, a) == resolve_on_host(tool, a));
    }
}

} // verus!
