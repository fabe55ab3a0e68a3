use kitowall_bridge::environment::EnvKind;
use kitowall_bridge::folders::{
    fold_name, folder_missing_message, hyphenate, list_pack_folders, open_folder_command,
    pack_folder, root_missing_message,
};
use kitowall_bridge::invoker::{ProcessOutput, SpawnResult};
use kitowall_bridge::kitsune::{
    check_run_args, kitsune_missing, kitsune_run, kitsune_status, read_help, KitsuneRun,
    KitsuneStatus,
};
use kitowall_bridge::service::{
    property, read_properties, service_query, systemctl_command, systemctl_show, timer_query,
    Property,
};
use kitowall_bridge::tools::kitsune;

fn strings(items: &[&str]) -> Vec<String> {
    items.iter().map(|s| s.to_string()).collect()
}

fn exited(code: Option<i32>, stdout: &str, stderr: &str) -> SpawnResult {
    SpawnResult::Exited(ProcessOutput {
        exit_code: code,
        stdout: stdout.to_string(),
        stderr: stderr.to_string(),
    })
}

fn prop(key: &str, value: &str) -> Property {
    Property { key: key.to_string(), value: value.to_string() }
}

#[test]
fn service_manager_is_asked_for_each_property() {
    let cmd = systemctl_command(EnvKind::Native, "kitowall-next.timer", &strings(&["Id", "SubState"]));
    assert_eq!(cmd.program, "systemctl");
    assert_eq!(
        cmd.args,
        vec!["--user", "show", "kitowall-next.timer", "--no-pager", "-p", "Id", "-p", "SubState"]
    );
    let inside = systemctl_command(EnvKind::Sandboxed, "u.service", &strings(&[]));
    assert_eq!(inside.program, "flatpak-spawn");
    assert_eq!(inside.args, vec!["--host", "systemctl", "--user", "show", "u.service", "--no-pager"]);
}

#[test]
fn units_and_their_properties_are_fixed() {
    let (timer, props) = timer_query();
    assert_eq!(timer, "kitowall-next.timer");
    assert_eq!(
        props,
        vec!["Id", "UnitFileState", "ActiveState", "SubState", "NextElapseUSecRealtime", "LastTriggerUSec"]
    );
    let (service, props) = service_query();
    assert_eq!(service, "kitowall-next.service");
    assert_eq!(props, vec!["Id", "UnitFileState", "ActiveState", "SubState"]);
}

#[test]
fn properties_are_read_line_by_line() {
    let text = "Id=kitowall-next.timer\nActiveState=active\r\nno equals sign\n\nExec=a=b\nEmpty=\n";
    assert_eq!(
        read_properties(text),
        vec![
            prop("Id", "kitowall-next.timer"),
            prop("ActiveState", "active"),
            prop("Exec", "a=b"),
            prop("Empty", ""),
        ]
    );
    assert!(read_properties("").is_empty());
}

#[test]
fn later_property_replaces_an_earlier_one() {
    let props = read_properties("A=1\nB=2\nA=3\n");
    assert_eq!(property(&props, "A"), Some(&"3".to_string()));
    assert_eq!(property(&props, "B"), Some(&"2".to_string()));
    assert_eq!(property(&props, "C"), None);
}

#[test]
fn service_answer_is_read_or_its_failure_told() {
    assert_eq!(systemctl_show(&exited(Some(0), "Id=x\n", "")), Ok(vec![prop("Id", "x")]));
    assert_eq!(
        systemctl_show(&exited(Some(1), "Id=x\n", " Unit not found. \n")),
        Err("Unit not found.".to_string())
    );
    assert_eq!(systemctl_show(&exited(None, "Id=x\n", "")), Err("".to_string()));
    assert_eq!(
        systemctl_show(&SpawnResult::NotStarted("No such file".to_string())),
        Err("systemctl error: No such file".to_string())
    );
}

const HELP: &str = "Kitsune live wallpapers\n\nUsage:\n  kitsune <command> [options]\n\nCommands:\n  start   Start the renderer\n  stop    Stop it\n  start   Again\n\nOptions::\n  --fps N  Frames\n \n  help\nSee also: the manual\nnote:\n";

#[test]
fn help_text_lists_commands_and_sections() {
    assert_eq!(
        read_help(HELP),
        KitsuneStatus {
            installed: true,
            error: None,
            commands: strings(&["--fps", "help", "start", "stop"]),
            sections: strings(&["Commands", "Options", "Usage", "note"]),
        }
    );
    let empty = read_help("");
    assert!(empty.installed && empty.commands.is_empty() && empty.sections.is_empty());
}

#[test]
fn helper_status_follows_the_exit_code() {
    assert_eq!(kitsune_status(&exited(Some(0), HELP, "")).unwrap().commands.len(), 4);
    assert_eq!(
        kitsune_status(&exited(Some(1), " usage ", " bad flag \n")),
        Ok(KitsuneStatus {
            installed: false,
            error: Some("bad flag".to_string()),
            commands: vec![],
            sections: vec![],
        })
    );
    assert_eq!(
        kitsune_status(&exited(Some(1), " usage ", "")).unwrap().error,
        Some("usage".to_string())
    );
    assert_eq!(
        kitsune_status(&exited(Some(127), " ", "\n")).unwrap().error,
        Some("kitsune help failed".to_string())
    );
    assert_eq!(
        kitsune_status(&SpawnResult::NotStarted("denied".to_string())),
        Err("denied".to_string())
    );
}

#[test]
fn missing_helper_is_reported_as_not_installed() {
    let status = kitsune_missing(&kitsune("/b"));
    assert!(!status.installed);
    assert_eq!(
        status.error,
        Some("kitsune CLI not found on host. Install host CLI or set KITSUNE_CMD".to_string())
    );
    assert!(status.commands.is_empty() && status.sections.is_empty());
}

#[test]
fn helper_run_reports_what_was_left() {
    assert_eq!(check_run_args(&vec![]), Err("kitsune args are required".to_string()));
    assert_eq!(check_run_args(&strings(&["start"])), Ok(()));
    assert_eq!(
        kitsune_run(exited(Some(0), "out", "err")),
        Ok(KitsuneRun { ok: true, exit_code: 0, stdout: "out".to_string(), stderr: "err".to_string() })
    );
    assert_eq!(
        kitsune_run(exited(Some(3), "", "bad")),
        Ok(KitsuneRun { ok: false, exit_code: 3, stdout: "".to_string(), stderr: "bad".to_string() })
    );
    assert_eq!(kitsune_run(exited(None, "", "")).unwrap().exit_code, -1);
    assert_eq!(kitsune_run(SpawnResult::NotStarted("x".to_string())), Err("x".to_string()));
}

#[test]
fn pack_folders_are_listed_in_order() {
    assert_eq!(list_pack_folders(strings(&["sea", "City", "art", "sea"])), vec!["City", "art", "sea", "sea"]);
    assert!(list_pack_folders(vec![]).is_empty());
}

#[test]
fn folder_names_are_folded() {
    assert_eq!(hyphenate("my_sea pack-1"), "my-sea-pack-1");
    assert_eq!(hyphenate(""), "");
    assert_eq!(fold_name("My_Sea Pack"), "my-sea-pack");
    assert_eq!(fold_name("ÄRGER_Ω"), "ärger-ω");
}

#[test]
fn pack_folder_is_found_whatever_the_spelling() {
    let folders = strings(&["art", "My-Sea_Pack", "my sea pack"]);
    assert_eq!(pack_folder("/walls", &folders, "  my sea pack "), "/walls/My-Sea_Pack");
    assert_eq!(pack_folder("/walls", &folders, "ART"), "/walls/art");
    assert_eq!(pack_folder("/walls", &folders, " gone "), "/walls/ gone ");
    assert_eq!(pack_folder("/walls/", &vec![], "sea"), "/walls/sea");
}

#[test]
fn folder_is_opened_with_the_desktops_opener() {
    let cmd = open_folder_command(EnvKind::Native, "/walls/sea");
    assert_eq!(cmd.program, "xdg-open");
    assert_eq!(cmd.args, vec!["/walls/sea"]);
    let inside = open_folder_command(EnvKind::Sandboxed, "/walls/sea");
    assert_eq!(inside.program, "flatpak-spawn");
    assert_eq!(inside.args, vec!["--host", "xdg-open", "/walls/sea"]);
    assert_eq!(root_missing_message("/walls"), "Wallpaper root not found: /walls");
    assert_eq!(folder_missing_message("/walls/sea"), "Pack folder not found: /walls/sea");
}
