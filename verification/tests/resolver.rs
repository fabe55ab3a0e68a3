use kitowall_bridge::command::{host_aware_command, host_lookup};
use kitowall_bridge::environment::{detect, is_flatpak, EnvKind, ExecutionEnvironment};
use kitowall_bridge::resolver::{
    find_node_from_nvm, lookups_needed, read_lookup, resolve, Findings, InvocationPlan, Lookups,
    ToolIdentity,
};
use kitowall_bridge::tools::{kitowall, kitsune, resolve_kitowall_cmd, resolve_kitsune_cmd};

fn strings(items: &[&str]) -> Vec<String> {
    items.iter().map(|s| s.to_string()).collect()
}

fn nothing() -> Findings {
    Findings {
        host_interpreter: None,
        home: None,
        interpreter_versions: vec![],
        host_scripts_present: vec![],
        host_binary: None,
        script_override: None,
        build_script_present: false,
        legacy_script_present: false,
    }
}

fn env(kind: EnvKind, override_cmd: Option<&str>) -> ExecutionEnvironment {
    ExecutionEnvironment { kind, override_cmd: override_cmd.map(|s| s.to_string()) }
}

fn command(parts: &[&str]) -> InvocationPlan {
    InvocationPlan::Command(strings(parts))
}

#[test]
fn detect_tells_the_sandbox_by_either_signal() {
    assert_eq!(detect(false, false, None).kind, EnvKind::Native);
    assert_eq!(detect(true, false, None).kind, EnvKind::Sandboxed);
    assert_eq!(detect(false, true, None).kind, EnvKind::Sandboxed);
    assert_eq!(detect(true, true, None).kind, EnvKind::Sandboxed);
    assert!(!is_flatpak(false, false));
    assert!(is_flatpak(false, true));
    let with = detect(false, false, Some("node x".to_string()));
    assert_eq!(with.override_cmd, Some("node x".to_string()));
}

#[test]
fn override_is_split_on_white_space() {
    let plan = resolve_kitowall_cmd(
        "/build",
        &env(EnvKind::Native, Some("node /custom/cli.js")),
        &nothing(),
    );
    assert_eq!(plan, command(&["node", "/custom/cli.js"]));
}

#[test]
fn override_wins_everywhere() {
    let mut found = nothing();
    found.build_script_present = true;
    found.legacy_script_present = true;
    found.host_binary = Some("/usr/bin/kitowall".to_string());
    found.home = Some("/home/u".to_string());
    found.host_scripts_present = vec![true, true, true];
    found.host_interpreter = Some("/usr/bin/node".to_string());
    for kind in [EnvKind::Native, EnvKind::Sandboxed] {
        for build_dir in ["/build", ""] {
            let e = env(kind, Some("  my-wall   --fast\t-x "));
            assert_eq!(resolve_kitowall_cmd(build_dir, &e, &found), command(&["my-wall", "--fast", "-x"]));
            assert_eq!(resolve_kitsune_cmd(build_dir, &e, &found), command(&["my-wall", "--fast", "-x"]));
            assert_eq!(resolve_kitowall_cmd(build_dir, &e, &nothing()), command(&["my-wall", "--fast", "-x"]));
        }
    }
}

#[test]
fn blank_override_gives_an_empty_plan() {
    let plan = resolve_kitowall_cmd("/build", &env(EnvKind::Sandboxed, Some("  ")), &nothing());
    assert_eq!(plan, command(&[]));
}

#[test]
fn native_prefers_the_local_build() {
    let mut found = nothing();
    found.build_script_present = true;
    found.legacy_script_present = true;
    assert_eq!(
        resolve_kitowall_cmd("/src/ui/src-tauri", &env(EnvKind::Native, None), &found),
        command(&["node", "/src/ui/src-tauri/../../dist/cli.js"])
    );
    found.legacy_script_present = false;
    assert_eq!(
        resolve_kitowall_cmd("/src/ui/src-tauri", &env(EnvKind::Native, None), &found),
        command(&["node", "/src/ui/src-tauri/../../dist/cli.js"])
    );
}

#[test]
fn native_falls_back_to_the_older_place_then_to_the_bare_name() {
    let mut found = nothing();
    found.legacy_script_present = true;
    assert_eq!(
        resolve_kitowall_cmd("/b", &env(EnvKind::Native, None), &found),
        command(&["node", "../../dist/cli.js"])
    );
    assert_eq!(
        resolve_kitowall_cmd("/b", &env(EnvKind::Native, None), &nothing()),
        command(&["kitowall"])
    );
}

#[test]
fn native_ignores_what_the_host_holds() {
    let mut found = nothing();
    found.host_binary = Some("/usr/bin/kitowall".to_string());
    found.home = Some("/home/u".to_string());
    found.host_scripts_present = vec![true, true, true];
    found.host_interpreter = Some("/usr/bin/node".to_string());
    assert_eq!(
        resolve_kitowall_cmd("/b", &env(EnvKind::Native, None), &found),
        command(&["kitowall"])
    );
}

#[test]
fn native_helper_runs_its_script_by_itself() {
    let mut found = nothing();
    found.build_script_present = true;
    found.legacy_script_present = true;
    assert_eq!(
        resolve_kitsune_cmd("/b", &env(EnvKind::Native, None), &found),
        command(&["/b/../../../Kitsune/scripts/kitsune.sh"])
    );
    found.build_script_present = false;
    assert_eq!(resolve_kitsune_cmd("/b", &env(EnvKind::Native, None), &found), command(&["kitsune"]));
}

#[test]
fn sandbox_pairs_the_first_installed_script_with_the_interpreter() {
    let mut found = nothing();
    found.home = Some("/home/u".to_string());
    found.host_interpreter = Some("/usr/bin/node".to_string());
    found.host_scripts_present = vec![false, true, true];
    found.host_binary = Some("/usr/bin/kitowall".to_string());
    assert_eq!(
        resolve_kitowall_cmd("/b", &env(EnvKind::Sandboxed, None), &found),
        command(&["/usr/bin/node", "/home/u/Programacion/Personal/Wallpaper/hyprwall/dist/cli.js"])
    );
    found.host_scripts_present = vec![false, false, true];
    assert_eq!(
        resolve_kitowall_cmd("/b", &env(EnvKind::Sandboxed, None), &found),
        command(&["/usr/bin/node", "/home/u/.local/share/kitowall/dist/cli.js"])
    );
}

#[test]
fn sandbox_takes_the_newest_managed_interpreter_when_the_path_has_none() {
    let mut found = nothing();
    found.home = Some("/home/u".to_string());
    found.interpreter_versions = strings(&["v18.19.0", "v20.11.1", "v16.0.0"]);
    found.host_scripts_present = vec![true];
    assert_eq!(
        resolve_kitowall_cmd("/b", &env(EnvKind::Sandboxed, None), &found),
        command(&[
            "/home/u/.nvm/versions/node/v20.11.1/bin/node",
            "/home/u/Programacion/Personal/Wallpaper/Kitowall/dist/cli.js"
        ])
    );
}

#[test]
fn newest_managed_interpreter_is_the_last_by_name() {
    assert_eq!(
        find_node_from_nvm("/home/u", &strings(&["v9.0.0", "v10.0.0"])),
        Some("/home/u/.nvm/versions/node/v9.0.0/bin/node".to_string())
    );
    assert_eq!(
        find_node_from_nvm("/home/u", &strings(&["v1", "v1.2"])),
        Some("/home/u/.nvm/versions/node/v1.2/bin/node".to_string())
    );
    assert_eq!(find_node_from_nvm("/home/u", &strings(&[])), None);
}

#[test]
fn sandbox_without_interpreter_skips_installed_scripts() {
    let mut found = nothing();
    found.home = Some("/home/u".to_string());
    found.host_scripts_present = vec![true, true, true];
    assert_eq!(
        resolve_kitowall_cmd("/b", &env(EnvKind::Sandboxed, None), &found),
        InvocationPlan::Unavailable
    );
    found.host_binary = Some("/usr/bin/kitowall".to_string());
    assert_eq!(
        resolve_kitowall_cmd("/b", &env(EnvKind::Sandboxed, None), &found),
        command(&["/usr/bin/kitowall"])
    );
}

#[test]
fn sandbox_runs_the_named_script_by_itself_without_interpreter() {
    let mut found = nothing();
    found.script_override = Some("/opt/cli.js".to_string());
    assert_eq!(
        resolve_kitowall_cmd("/b", &env(EnvKind::Sandboxed, None), &found),
        command(&["/opt/cli.js"])
    );
    found.home = Some("/home/u".to_string());
    found.host_scripts_present = vec![true, true, true];
    assert_eq!(
        resolve_kitowall_cmd("/b", &env(EnvKind::Sandboxed, None), &found),
        command(&["/opt/cli.js"])
    );
    found.interpreter_versions = strings(&["v20.0.0"]);
    found.host_scripts_present = vec![false, false, false];
    assert_eq!(
        resolve_kitowall_cmd("/b", &env(EnvKind::Sandboxed, None), &found),
        command(&["/home/u/.nvm/versions/node/v20.0.0/bin/node", "/opt/cli.js"])
    );
}

#[test]
fn sandbox_uses_the_named_script_last() {
    let mut found = nothing();
    found.host_interpreter = Some("/usr/bin/node".to_string());
    found.script_override = Some("/opt/kitowall/cli.js".to_string());
    assert_eq!(
        resolve_kitowall_cmd("/b", &env(EnvKind::Sandboxed, None), &found),
        command(&["/usr/bin/node", "/opt/kitowall/cli.js"])
    );
    found.script_override = Some("   ".to_string());
    assert_eq!(
        resolve_kitowall_cmd("/b", &env(EnvKind::Sandboxed, None), &found),
        InvocationPlan::Unavailable
    );
    found.script_override = Some("/opt/kitowall/cli.js".to_string());
    found.host_binary = Some("/usr/bin/kitowall".to_string());
    assert_eq!(
        resolve_kitowall_cmd("/b", &env(EnvKind::Sandboxed, None), &found),
        command(&["/usr/bin/kitowall"])
    );
}

#[test]
fn sandbox_with_nothing_found_is_unavailable() {
    assert_eq!(
        resolve_kitowall_cmd("/b", &env(EnvKind::Sandboxed, None), &nothing()),
        InvocationPlan::Unavailable
    );
    assert_eq!(
        resolve_kitsune_cmd("/b", &env(EnvKind::Sandboxed, None), &nothing()),
        InvocationPlan::Unavailable
    );
    let mut found = nothing();
    found.build_script_present = true;
    found.legacy_script_present = true;
    assert_eq!(
        resolve_kitowall_cmd("/b", &env(EnvKind::Sandboxed, None), &found),
        InvocationPlan::Unavailable
    );
}

#[test]
fn sandbox_helper_needs_no_interpreter() {
    let mut found = nothing();
    found.home = Some("/home/u".to_string());
    found.host_scripts_present = vec![false, true];
    assert_eq!(
        resolve_kitsune_cmd("/b", &env(EnvKind::Sandboxed, None), &found),
        command(&["/home/u/.local/share/kitsune/scripts/kitsune.sh"])
    );
    found.host_scripts_present = vec![false, false];
    found.host_binary = Some("/usr/bin/kitsune".to_string());
    assert_eq!(
        resolve_kitsune_cmd("/b", &env(EnvKind::Sandboxed, None), &found),
        command(&["/usr/bin/kitsune"])
    );
}

#[test]
fn scripts_without_a_home_folder_are_not_found() {
    let mut found = nothing();
    found.host_interpreter = Some("/usr/bin/node".to_string());
    found.host_scripts_present = vec![true, true, true];
    assert_eq!(
        resolve_kitowall_cmd("/b", &env(EnvKind::Sandboxed, None), &found),
        InvocationPlan::Unavailable
    );
}

#[test]
fn more_findings_than_scripts_are_ignored() {
    let mut found = nothing();
    found.home = Some("/home/u".to_string());
    found.host_scripts_present = vec![false, false, true];
    assert_eq!(
        resolve_kitsune_cmd("/b", &env(EnvKind::Sandboxed, None), &found),
        InvocationPlan::Unavailable
    );
}

#[test]
fn resolve_works_for_any_identity() {
    let tool = ToolIdentity {
        name: "walls".to_string(),
        override_var: "WALLS_CMD".to_string(),
        interpreter_names: strings(&["python3"]),
        host_scripts: strings(&["bin/walls.py"]),
        script_override_var: None,
        build_script: "/build/walls.py".to_string(),
        legacy_script: None,
        override_example: None,
    };
    let mut found = nothing();
    found.build_script_present = true;
    found.legacy_script_present = true;
    found.script_override = Some("/x.py".to_string());
    found.host_interpreter = Some("/usr/bin/python3".to_string());
    assert_eq!(
        resolve(&tool, &env(EnvKind::Native, None), &found),
        command(&["python3", "/build/walls.py"])
    );
    assert_eq!(resolve(&tool, &env(EnvKind::Sandboxed, None), &found), InvocationPlan::Unavailable);
    assert_eq!(resolve(&tool, &env(EnvKind::Sandboxed, Some("w")), &found), command(&["w"]));
}

#[test]
fn identities_hold_the_known_names() {
    let k = kitowall("/b");
    assert_eq!(k.name, "kitowall");
    assert_eq!(k.override_var, "KITOWALL_CMD");
    assert_eq!(k.interpreter_names, vec!["node", "nodejs"]);
    assert_eq!(k.host_scripts.len(), 3);
    assert_eq!(k.script_override_var, Some("KITOWALL_HOST_CLI".to_string()));
    assert_eq!(k.build_script, "/b/../../dist/cli.js");
    assert_eq!(k.legacy_script, Some("../../dist/cli.js".to_string()));
    let s = kitsune("/b");
    assert_eq!(s.name, "kitsune");
    assert_eq!(s.override_var, "KITSUNE_CMD");
    assert!(s.interpreter_names.is_empty());
    assert_eq!(s.build_script, "/b/../../../Kitsune/scripts/kitsune.sh");
    assert_eq!(s.legacy_script, None);
}

#[test]
fn lookup_answers_are_trimmed() {
    assert_eq!(read_lookup(true, "/usr/bin/node\n"), Some("/usr/bin/node".to_string()));
    assert_eq!(read_lookup(true, "  \n"), None);
    assert_eq!(read_lookup(true, ""), None);
    assert_eq!(read_lookup(false, "/usr/bin/node\n"), None);
}

#[test]
fn host_lookup_asks_through_the_proxy() {
    let cmd = host_lookup(&strings(&["node", "nodejs"]));
    assert_eq!(cmd.program, "flatpak-spawn");
    assert_eq!(cmd.args, vec!["--host", "sh", "-lc", "command -v node || command -v nodejs || true"]);
    let one = host_lookup(&strings(&["kitowall"]));
    assert_eq!(one.args, vec!["--host", "sh", "-lc", "command -v kitowall || true"]);
    let none = host_lookup(&strings(&[]));
    assert_eq!(none.args, vec!["--host", "sh", "-lc", "true"]);
}

#[test]
fn host_aware_command_goes_through_the_proxy_in_the_sandbox() {
    let inside = host_aware_command(EnvKind::Sandboxed, "systemctl");
    assert_eq!(inside.program, "flatpak-spawn");
    assert_eq!(inside.args, vec!["--host", "systemctl"]);
    let outside = host_aware_command(EnvKind::Native, "systemctl");
    assert_eq!(outside.program, "systemctl");
    assert!(outside.args.is_empty());
}

#[test]
fn lookups_follow_the_surroundings() {
    let tool = kitowall("/b");
    let helper = kitsune("/b");
    assert_eq!(
        lookups_needed(&tool, &env(EnvKind::Native, None)),
        Lookups { on_host: false, interpreter: false, next_to_program: true }
    );
    assert_eq!(
        lookups_needed(&tool, &env(EnvKind::Sandboxed, None)),
        Lookups { on_host: true, interpreter: true, next_to_program: false }
    );
    assert_eq!(
        lookups_needed(&helper, &env(EnvKind::Sandboxed, None)),
        Lookups { on_host: true, interpreter: false, next_to_program: false }
    );
    assert_eq!(
        lookups_needed(&tool, &env(EnvKind::Sandboxed, Some("x"))),
        Lookups { on_host: false, interpreter: false, next_to_program: false }
    );
    assert_eq!(
        lookups_needed(&tool, &env(EnvKind::Native, Some(""))),
        Lookups { on_host: false, interpreter: false, next_to_program: false }
    );
}
