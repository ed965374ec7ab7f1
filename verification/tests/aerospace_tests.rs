use task_stack::aerospace::{
    first_executable, next_executable,
    command_result, completion, enable, focus_scene, focus_window, focus_workspace,
    focused_workspace, list_workspaces, scene_order, scene_result, status, visible_scene,
    AeroCommand, RunOutcome,
};

fn exited(success: bool, stdout: &str, stderr: &str) -> RunOutcome {
    RunOutcome::Exited {
        success,
        stdout: stdout.as_bytes().to_vec(),
        stderr: stderr.as_bytes().to_vec(),
    }
}

fn strings(v: &[&str]) -> Vec<String> {
    v.iter().map(|s| s.to_string()).collect()
}

#[test]
fn command_args_match_the_cli() {
    assert_eq!(AeroCommand::ListFocused.args(), strings(&["list-workspaces", "--focused"]));
    assert_eq!(AeroCommand::ListAll.args(), strings(&["list-workspaces", "--all"]));
    assert_eq!(
        AeroCommand::ListVisible.args(),
        strings(&["list-workspaces", "--monitor", "all", "--visible"])
    );
    assert_eq!(AeroCommand::Workspace("3".into()).args(), strings(&["workspace", "3"]));
    assert_eq!(
        AeroCommand::SummonWorkspace("3".into()).args(),
        strings(&["summon-workspace", "3"])
    );
    assert_eq!(
        AeroCommand::FocusWindow("42".into()).args(),
        strings(&["focus", "--window-id", "42"])
    );
    assert_eq!(AeroCommand::Enable.args(), strings(&["enable", "on"]));
}

#[test]
fn success_returns_stdout() {
    assert_eq!(command_result(exited(true, "main\n", "")), Ok("main\n".to_string()));
}

#[test]
fn stdout_is_decoded_lossily() {
    let out = RunOutcome::Exited { success: true, stdout: vec![0x66, 0xff, 0x67], stderr: vec![] };
    assert_eq!(command_result(out), Ok("f\u{FFFD}g".to_string()));
}

#[test]
fn disabled_server_is_a_distinct_error() {
    let msg = "AeroSpace server is disabled. Run `aerospace enable on`.".to_string();
    assert_eq!(command_result(exited(false, "", "Error: server is disabled\n")), Err(msg.clone()));
    assert_eq!(command_result(exited(false, "the server is disabled", "other")), Err(msg));
}

#[test]
fn failure_reports_trimmed_stderr_or_a_default() {
    assert_eq!(command_result(exited(false, "", "  boom \n")), Err("boom".to_string()));
    assert_eq!(
        command_result(exited(false, "out", " \n")),
        Err("aerospace command failed".to_string())
    );
}

#[test]
fn spawn_errors() {
    assert_eq!(command_result(RunOutcome::NotFound), Err("AeroSpace is not installed.".to_string()));
    assert_eq!(
        command_result(RunOutcome::SpawnFailed { reason: "permission denied".into() }),
        Err("failed to run aerospace: permission denied".to_string())
    );
}

#[test]
fn completion_drops_output() {
    assert_eq!(completion(exited(true, "x", "")), Ok(()));
    assert_eq!(completion(exited(false, "", "bad")), Err("bad".to_string()));
}

#[test]
fn status_when_running() {
    let st = status(exited(true, "1\n", ""));
    assert!(st.installed);
    assert!(st.server_enabled);
    assert_eq!(st.message, None);
}

#[test]
fn status_when_missing() {
    let st = status(RunOutcome::NotFound);
    assert!(!st.installed);
    assert!(!st.server_enabled);
    assert_eq!(st.message, Some("AeroSpace is not installed.".to_string()));
}

#[test]
fn status_when_server_disabled_offers_enable() {
    let st = status(exited(false, "", "server is disabled"));
    assert!(st.installed);
    assert!(!st.server_enabled);
    assert_eq!(
        st.message,
        Some("AeroSpace server is disabled. Run `aerospace enable on`.".to_string())
    );
}

#[test]
fn list_workspaces_reads_lines() {
    assert_eq!(list_workspaces(exited(true, "1\n 2 \n\nweb\n", "")), Ok(strings(&["1", "2", "web"])));
    assert_eq!(list_workspaces(exited(false, "", "nope")), Err("nope".to_string()));
}

#[test]
fn focused_workspace_is_trimmed() {
    assert_eq!(focused_workspace(exited(true, " main\n", "")), Ok("main".to_string()));
    assert_eq!(
        focused_workspace(RunOutcome::NotFound),
        Err("AeroSpace is not installed.".to_string())
    );
}

#[test]
fn focus_commands() {
    assert_eq!(focus_workspace("web", false), AeroCommand::Workspace("web".into()));
    assert_eq!(focus_workspace("web", true), AeroCommand::SummonWorkspace("web".into()));
    assert_eq!(focus_window("17"), AeroCommand::FocusWindow("17".into()));
    assert_eq!(enable(), AeroCommand::Enable);
}

#[test]
fn scene_order_dedupes_and_ends_on_focus() {
    let names = strings(&["a", "b", "a", "c"]);
    assert_eq!(scene_order(names.clone(), Some("b".into())), strings(&["a", "c", "b"]));
    assert_eq!(scene_order(names.clone(), Some("z".into())), strings(&["a", "b", "c"]));
    assert_eq!(scene_order(names, None), strings(&["a", "b", "c"]));
    assert_eq!(scene_order(vec![], Some("a".into())), Vec::<String>::new());
}

#[test]
fn scene_laws_example() {
    let names = strings(&["x", "y", "x", "z", "y"]);
    let scene = scene_order(names.clone(), Some("x".into()));
    assert_eq!(scene.last(), Some(&"x".to_string()));
    for n in &names {
        assert_eq!(scene.iter().filter(|s| *s == n).count(), 1);
    }
    assert_eq!(scene.len(), 3);
}

#[test]
fn visible_scene_combines_listing_and_focus() {
    assert_eq!(
        visible_scene(exited(true, "1\n2\n1\n", ""), Ok("1".into())),
        Ok(strings(&["2", "1"]))
    );
    assert_eq!(
        visible_scene(exited(true, "1\n2\n", ""), Err("no focus".into())),
        Ok(strings(&["1", "2"]))
    );
    assert_eq!(
        visible_scene(RunOutcome::NotFound, Ok("1".into())),
        Err("AeroSpace is not installed.".to_string())
    );
}

#[test]
fn focus_scene_plans_workspace_commands() {
    assert_eq!(focus_scene(&vec![]), Err("empty scene".to_string()));
    assert_eq!(
        focus_scene(&strings(&["a", "b"])),
        Ok(vec![AeroCommand::Workspace("a".into()), AeroCommand::Workspace("b".into())])
    );
}

#[test]
fn scene_result_is_the_last_outcome() {
    assert_eq!(scene_result(vec![exited(false, "", "gone"), exited(true, "", "")]), Ok(()));
    assert_eq!(
        scene_result(vec![exited(true, "", ""), RunOutcome::NotFound]),
        Err("AeroSpace is not installed.".to_string())
    );
}

#[test]
fn executable_lookup_order() {
    assert_eq!(first_executable(), "aerospace");
    assert_eq!(next_executable(0, &RunOutcome::NotFound), Some("/opt/homebrew/bin/aerospace".to_string()));
    assert_eq!(next_executable(1, &RunOutcome::NotFound), Some("/usr/local/bin/aerospace".to_string()));
    assert_eq!(next_executable(2, &RunOutcome::NotFound), None);
    assert_eq!(next_executable(0, &exited(false, "", "x")), None);
    assert_eq!(next_executable(1, &RunOutcome::SpawnFailed { reason: "denied".into() }), None);
}
