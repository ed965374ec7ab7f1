use task_stack::aerospace::AeroCommand;
use task_stack::panel::{
    pick_monitor,
    corner_position, hotkey_plan, map_err, menu_action, next_corner, plan_jump, preferences,
    setting_or, vertical_snap, JumpAction, MenuAction, KEY_DOWN, KEY_UP, DEFAULT_CAPTURE_HOTKEY, DEFAULT_CAPTURE_WS_HOTKEY, DEFAULT_CORNER, DEFAULT_HOTKEY,
};

fn some(s: &str) -> Option<String> {
    Some(s.to_string())
}

#[test]
fn setting_falls_back() {
    assert_eq!(setting_or(None, "top-right"), "top-right");
    assert_eq!(setting_or(some("bottom-left"), "top-right"), "bottom-left");
}

#[test]
fn preferences_defaults() {
    let p = preferences(None, None, None, None, None, None);
    assert_eq!(p.corner, "top-right");
    assert_eq!(p.hotkey, "CmdOrCtrl+Space");
    assert_eq!(p.capture_hotkey, "CmdOrCtrl+Shift+Space");
    assert_eq!(p.capture_ws_hotkey, "CmdOrCtrl+Alt+Space");
    assert_eq!(p.jump_mode, "workspace");
    assert!(!p.auto_collapse);
    assert_eq!(DEFAULT_CORNER, "top-right");
    assert_eq!(DEFAULT_HOTKEY, "CmdOrCtrl+Space");
}

#[test]
fn preferences_stored_values() {
    let p = preferences(some("bottom-left"), some("F1"), some("F2"), some("F3"), some("summon"), some("true"));
    assert_eq!(p.corner, "bottom-left");
    assert_eq!(p.hotkey, "F1");
    assert_eq!(p.capture_hotkey, "F2");
    assert_eq!(p.capture_ws_hotkey, "F3");
    assert_eq!(p.jump_mode, "summon");
    assert!(p.auto_collapse);
    assert!(!preferences(None, None, None, None, None, some("TRUE")).auto_collapse);
}

#[test]
fn corner_positions() {
    assert_eq!(corner_position("top-left", 0, 25, 1440, 875, 300, 400), Some((0, 25)));
    assert_eq!(corner_position("bottom-left", 0, 25, 1440, 875, 300, 400), Some((0, 500)));
    assert_eq!(corner_position("bottom-right", 0, 25, 1440, 875, 300, 400), Some((1140, 500)));
    assert_eq!(corner_position("top-right", 0, 25, 1440, 875, 300, 400), Some((1140, 25)));
    assert_eq!(corner_position("middle", -1920, 0, 1920, 1080, 320, 200), Some((-320, 0)));
}

#[test]
fn corner_position_out_of_range() {
    assert_eq!(corner_position("top-right", i32::MAX, 0, 10, 10, 5, 5), None);
    assert_eq!(corner_position("top-left", i32::MAX, 0, 10, 10, 5, 5), Some((i32::MAX, 0)));
}

#[test]
fn pinned_panel_stays_inside() {
    for corner in ["top-left", "top-right", "bottom-left", "bottom-right"] {
        let (x, y) = corner_position(corner, 100, 50, 800, 600, 200, 150).unwrap();
        assert!(100 <= x && x + 200 <= 900);
        assert!(50 <= y && y + 150 <= 650);
    }
}

#[test]
fn arrows_snap_between_corners() {
    assert_eq!(next_corner("top-right", "left"), some("top-left"));
    assert_eq!(next_corner("top-right", "down"), some("bottom-right"));
    assert_eq!(next_corner("bottom-left", "up"), some("top-left"));
    assert_eq!(next_corner("bottom-left", "right"), some("bottom-right"));
    assert_eq!(next_corner("top-left", "left"), None);
    assert_eq!(next_corner("top-right", "sideways"), None);
    assert_eq!(next_corner("weird", "right"), some("top-right"));
    assert_eq!(next_corner("weird", "left"), some("top-left"));
}

#[test]
fn same_arrow_twice_moves_once_example() {
    for c in ["top-left", "top-right", "bottom-left", "bottom-right", "odd"] {
        for d in ["left", "right", "up", "down"] {
            if let Some(n) = next_corner(c, d) {
                assert_eq!(next_corner(&n, d), None);
            }
        }
    }
}

#[test]
fn hotkey_defaults_and_blank_captures() {
    let p = hotkey_plan(None, None, None);
    assert_eq!(p.summon, "CmdOrCtrl+Space");
    assert_eq!(p.capture_scene, some(DEFAULT_CAPTURE_HOTKEY));
    assert_eq!(p.capture_workspace, some(DEFAULT_CAPTURE_WS_HOTKEY));
    let p = hotkey_plan(some("F5"), some("  "), some(""));
    assert_eq!(p.summon, "F5");
    assert_eq!(p.capture_scene, None);
    assert_eq!(p.capture_workspace, None);
}

#[test]
fn jump_workspace() {
    assert_eq!(
        plan_jump("workspace", "web", None),
        Ok(JumpAction::Aerospace(AeroCommand::Workspace("web".into())))
    );
    assert_eq!(
        plan_jump("workspace", "web", some("summon")),
        Ok(JumpAction::Aerospace(AeroCommand::SummonWorkspace("web".into())))
    );
}

#[test]
fn jump_scene() {
    assert_eq!(
        plan_jump("scene", "[\"1\", \"web\"]", some("summon")),
        Ok(JumpAction::Scene(vec![
            AeroCommand::Workspace("1".into()),
            AeroCommand::Workspace("web".into())
        ]))
    );
    assert_eq!(plan_jump("scene", "[]", None), Err("empty scene".to_string()));
    let expected = serde_json::from_str::<Vec<String>>("not json").unwrap_err().to_string();
    assert_eq!(plan_jump("scene", "not json", None), Err(expected));
}

#[test]
fn jump_other_targets() {
    assert_eq!(
        plan_jump("window", "99", None),
        Ok(JumpAction::Aerospace(AeroCommand::FocusWindow("99".into())))
    );
    assert_eq!(plan_jump("url", "https://x.y", None), Ok(JumpAction::OpenUrl("https://x.y".into())));
    assert_eq!(plan_jump("command", "ls -l", None), Ok(JumpAction::Shell("ls -l".into())));
    assert_eq!(plan_jump("ftp", "x", None), Err("unknown jump type: ftp".to_string()));
}

#[test]
fn map_err_uses_display() {
    assert_eq!(map_err("boom"), "boom");
    assert_eq!(map_err(42), "42");
}

const CMD: u64 = 1 << 20;
const SHIFT: u64 = 1 << 17;
const CTRL: u64 = 1 << 18;
const OPT: u64 = 1 << 19;

#[test]
fn command_arrows_snap_vertically() {
    assert_eq!(vertical_snap(CMD, KEY_UP), some("up"));
    assert_eq!(vertical_snap(CMD, KEY_DOWN), some("down"));
    assert_eq!(vertical_snap(CMD | 0x100, 126), some("up"));
    assert_eq!(vertical_snap(CMD, 123), None);
    assert_eq!(vertical_snap(CMD | SHIFT, KEY_UP), None);
    assert_eq!(vertical_snap(CMD | CTRL, KEY_DOWN), None);
    assert_eq!(vertical_snap(CMD | OPT, KEY_UP), None);
    assert_eq!(vertical_snap(0, KEY_UP), None);
    assert_eq!(vertical_snap(CMD | (1 << 21), KEY_DOWN), some("down"));
}

#[test]
fn tray_menu_entries() {
    assert_eq!(menu_action("toggle"), Some(MenuAction::Toggle));
    assert_eq!(menu_action("settings"), Some(MenuAction::OpenSettings));
    assert_eq!(menu_action("quit"), Some(MenuAction::Quit));
    assert_eq!(menu_action("other"), None);
}

#[test]
fn monitor_fallback_order() {
    assert_eq!(pick_monitor(true, Some(1), Some(2), Some(3)), Some(1));
    assert_eq!(pick_monitor(false, Some(1), Some(2), Some(3)), Some(2));
    assert_eq!(pick_monitor(true, None, Some(2), Some(3)), Some(2));
    assert_eq!(pick_monitor(true, None, None, Some(3)), Some(3));
    assert_eq!(pick_monitor::<u8>(false, Some(1), None, None), None);
}
