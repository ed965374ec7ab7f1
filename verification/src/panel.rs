//! The rules of the corner-pinned panel: settings with their defaults, where
//! the panel sits in a monitor's work area, how the corner moves under the
//! arrow-key snapping, which global hotkeys are bound, and what a click on a
//! task's jump target does.

use vstd::prelude::*;
use crate::aerospace::{args_of, focus_scene, focus_window, focus_workspace, AeroCommand};
use crate::text::{is_ws, same_text, trim, trimmed, trimmed_empty_iff_all_whitespace};

verus! {

/// The summon/hide hotkey when none is set.
pub const DEFAULT_HOTKEY: &'static str = "CmdOrCtrl+Space";

/// The capture-scene hotkey when none is set.
pub const DEFAULT_CAPTURE_HOTKEY: &'static str = "CmdOrCtrl+Shift+Space";

/// The capture-focused-workspace hotkey when none is set.
pub const DEFAULT_CAPTURE_WS_HOTKEY: &'static str = "CmdOrCtrl+Alt+Space";

/// The corner when none is set.
pub const DEFAULT_CORNER: &'static str = "top-right";

/// The jump mode when none is set.
pub const DEFAULT_JUMP_MODE: &'static str = "workspace";

/// A stored setting, or the fallback when it is not set.
pub open spec fn setting_value(value: Option<String>, fallback: Seq<char>) -> Seq<char> {
    match value {
        Some(v) => v@,
        None => fallback,
    }
}

/// A stored setting, or the fallback when it is not set.
pub fn setting_or(value: Option<String>, fallback: &str) -> (r: String)
    ensures
        r@ == setting_value(value, fallback@),
{
    match value {
        Some(v) => v,
        None => fallback.to_owned(),
    }
}


/// The settings the panel starts with, each stored value or its default.
#[derive(Debug, Clone, PartialEq, Eq)]
pub struct Preferences {
    pub corner: String,
    pub hotkey: String,
    pub capture_hotkey: String,
    pub capture_ws_hotkey: String,
    pub jump_mode: String,
    pub auto_collapse: bool,
}

/// The start-up settings from the stored values of the keys `corner`,
/// `hotkey`, `capture_hotkey`, `capture_ws_hotkey`, `jump_mode` and
/// `auto_collapse`. `auto_collapse` is on only when stored as `true`.
pub fn preferences(
    corner: Option<String>,
    hotkey: Option<String>,
    capture_hotkey: Option<String>,
    capture_ws_hotkey: Option<String>,
    jump_mode: Option<String>,
    auto_collapse: Option<String>,
) -> (p: Preferences)
    ensures
        p.corner@ == setting_value(corner, DEFAULT_CORNER@),
        p.hotkey@ == setting_value(hotkey, DEFAULT_HOTKEY@),
        p.capture_hotkey@ == setting_value(capture_hotkey, DEFAULT_CAPTURE_HOTKEY@),
        p.capture_ws_hotkey@ == setting_value(capture_ws_hotkey, DEFAULT_CAPTURE_WS_HOTKEY@),
        p.jump_mode@ == setting_value(jump_mode, DEFAULT_JUMP_MODE@),
        p.auto_collapse == (auto_collapse matches Some(v) && v@ == "true"@),
{
    let auto = match auto_collapse {
        Some(v) => same_text(v.as_str(), "true"),
        None => false,
    };
    Preferences {
        corner: setting_or(corner, DEFAULT_CORNER),
        hotkey: setting_or(hotkey, DEFAULT_HOTKEY),
        capture_hotkey: setting_or(capture_hotkey, DEFAULT_CAPTURE_HOTKEY),
        capture_ws_hotkey: setting_or(capture_ws_hotkey, DEFAULT_CAPTURE_WS_HOTKEY),
        jump_mode: setting_or(jump_mode, DEFAULT_JUMP_MODE),
        auto_collapse: auto,
    }
}

/// `x` is a value of `i32`.
pub open spec fn fits_i32(x: int) -> bool {
    i32::MIN <= x <= i32::MAX
}

/// Where the panel's top-left corner goes to sit flush in `corner` of a
/// work area at (`ax`, `ay`) of size `aw` x `ah`, for a panel of size
/// `ww` x `wh`; any corner name but the three others means top-right.
pub open spec fn corner_target(
    corner: Seq<char>,
    ax: int,
    ay: int,
    aw: int,
    ah: int,
    ww: int,
    wh: int,
) -> (int, int) {
    if corner == "top-left"@ {
        (ax, ay)
    } else if corner == "bottom-left"@ {
        (ax, ay + ah - wh)
    } else if corner == "bottom-right"@ {
        (ax + aw - ww, ay + ah - wh)
    } else {
        (ax + aw - ww, ay)
    }
}

/// Every sum and difference taken for `corner` stays within `i32`.
pub open spec fn corner_fits(
    corner: Seq<char>,
    ax: int,
    ay: int,
    aw: int,
    ah: int,
    ww: int,
    wh: int,
) -> bool {
    let right = fits_i32(ax + aw) && fits_i32(ax + aw - ww);
    let bottom = fits_i32(ay + ah) && fits_i32(ay + ah - wh);
    if corner == "top-left"@ {
        true
    } else if corner == "bottom-left"@ {
        bottom
    } else if corner == "bottom-right"@ {
        right && bottom
    } else {
        right
    }
}

/// The position that pins the panel to `corner` of a monitor's work area
/// (which excludes the menu bar and Dock), flush against the edges. `None`
/// when the arithmetic leaves `i32`.
pub fn corner_position(
    corner: &str,
    area_x: i32,
    area_y: i32,
    area_width: i32,
    area_height: i32,
    window_width: i32,
    window_height: i32,
) -> (r: Option<(i32, i32)>)
    ensures
        r is Some <==> corner_fits(
            corner@,
            area_x as int,
            area_y as int,
            area_width as int,
            area_height as int,
            window_width as int,
            window_height as int,
        ),
        r matches Some(p) ==> (p.0 as int, p.1 as int) == corner_target(
            corner@,
            area_x as int,
            area_y as int,
            area_width as int,
            area_height as int,
            window_width as int,
            window_height as int,
        ),        r matches Some(p) ==> {
            let left = corner@ == "top-left"@ || corner@ == "bottom-left"@;
            let bottom = corner@ == "bottom-left"@ || corner@ == "bottom-right"@;
            &&& left ==> p.0 == area_x
            &&& !left ==> p.0 + window_width == area_x + area_width
            &&& bottom ==> p.1 + window_height == area_y + area_height
            &&& !bottom ==> p.1 == area_y
        },
        (fits_i32(area_x + area_width) && fits_i32(area_x + area_width - window_width) && fits_i32(
            area_y + area_height,
        ) && fits_i32(area_y + area_height - window_height)) ==> r is Some,
{
    proof {
        corner_decides_edges(
            corner@,
            area_x as int,
            area_y as int,
            area_width as int,
            area_height as int,
            window_width as int,
            window_height as int,
        );
    }
    let min = i32::MIN as i64;
    let max = i32::MAX as i64;
    let right = area_x as i64 + area_width as i64;
    let left_edge = right - window_width as i64;
    let bottom = area_y as i64 + area_height as i64;
    let top_edge = bottom - window_height as i64;
    let right_ok = min <= right && right <= max && min <= left_edge && left_edge <= max;
    let bottom_ok = min <= bottom && bottom <= max && min <= top_edge && top_edge <= max;
    if same_text(corner, "top-left") {
        Some((area_x, area_y))
    } else if same_text(corner, "bottom-left") {
        if bottom_ok {
            Some((area_x, top_edge as i32))
        } else {
            None
        }
    } else if same_text(corner, "bottom-right") {
        if right_ok && bottom_ok {
            Some((left_edge as i32, top_edge as i32))
        } else {
            None
        }
    } else {
        if right_ok {
            Some((left_edge as i32, area_y))
        } else {
            None
        }
    }
}

/// The monitor to pin the panel on. When summoning (`use_cursor`) it is the
/// monitor under the cursor, the "active" one; otherwise, or when no monitor
/// contains the cursor, the panel stays on the monitor it is on, and falls
/// back to the primary monitor.
pub fn pick_monitor<M>(
    use_cursor: bool,
    under_cursor: Option<M>,
    current: Option<M>,
    primary: Option<M>,
) -> (r: Option<M>)
    ensures
        r == (if use_cursor && under_cursor is Some {
            under_cursor
        } else if current is Some {
            current
        } else {
            primary
        }),
{
    let cursor_monitor = if use_cursor {
        under_cursor
    } else {
        None
    };
    match cursor_monitor {
        Some(m) => Some(m),
        None => match current {
            Some(m) => Some(m),
            None => primary,
        },
    }
}

/// `i` is the position of the first `'-'` in `s`.
pub open spec fn first_dash_at(s: Seq<char>, i: int) -> bool {
    0 <= i < s.len() && s[i] == '-' && forall|j: int| 0 <= j < i ==> s[j] != '-'
}

/// The vertical and horizontal halves of a corner name, split at its first
/// `'-'` as `str::split_once` does; a name without one counts as
/// `top-right`.
pub open spec fn corner_halves(s: Seq<char>) -> (Seq<char>, Seq<char>) {
    if exists|i: int| first_dash_at(s, i) {
        let i = choose|i: int| first_dash_at(s, i);
        (s.take(i), s.skip(i + 1))
    } else {
        ("top"@, "right"@)
    }
}

/// The corner that the arrow `dir` snaps to from `current`: left and right
/// pick the side, up and down pick top or bottom. `None` when `dir` is not
/// an arrow or the corner does not change.
pub open spec fn next_corner_spec(current: Seq<char>, dir: Seq<char>) -> Option<Seq<char>> {
    let (v, h) = corner_halves(current);
    let next = if dir == "left"@ {
        Some(v + "-left"@)
    } else if dir == "right"@ {
        Some(v + "-right"@)
    } else if dir == "up"@ {
        Some("top-"@ + h)
    } else if dir == "down"@ {
        Some("bottom-"@ + h)
    } else {
        None
    };
    match next {
        Some(n) => if n == current {
            None
        } else {
            Some(n)
        },
        None => None,
    }
}

/// The corner to move the panel to when the arrow `dir` is pressed in
/// corner `current` (see [`next_corner_spec`]); `None` when nothing moves.
pub fn next_corner(current: &str, dir: &str) -> (r: Option<String>)
    ensures
        match r {
            Some(n) => next_corner_spec(current@, dir@) == Some(n@),
            None => next_corner_spec(current@, dir@) is None,
        },
        r matches Some(n) ==> {
            &&& n@ != current@
            &&& dir@ == "up"@ ==> corner_halves(n@) == ("top"@, corner_halves(current@).1)
            &&& dir@ == "down"@ ==> corner_halves(n@) == ("bottom"@, corner_halves(current@).1)
            &&& dir@ == "left"@ ==> corner_halves(n@) == (corner_halves(current@).0, "left"@)
            &&& dir@ == "right"@ ==> corner_halves(n@) == (corner_halves(current@).0, "right"@)
        },
        (dir@ != "up"@ && dir@ != "down"@ && dir@ != "left"@ && dir@ != "right"@) ==> r is None,
{
    proof {
        arrows_move_along_one_axis(current@, dir@);
    }
    let n = current.unicode_len();
    let mut i: usize = 0;
    while i < n && current.get_char(i) != '-'
        invariant
            n == current@.len(),
            0 <= i <= n,
            forall|j: int| 0 <= j < i ==> current@[j] != '-',
        decreases n - i,
    {
        i = i + 1;
    }
    let (v, h) = if i < n {
        proof {
            assert(first_dash_at(current@, i as int));
            let k = choose|k: int| first_dash_at(current@, k);
            assert(k == i);
        }
        (current.substring_char(0, i).to_owned(), current.substring_char(i + 1, n).to_owned())
    } else {
        proof {
            assert(!exists|k: int| first_dash_at(current@, k));
        }
        (String::from_str("top"), String::from_str("right"))
    };
    proof {
        if i < n {
            assert(current@.take(i as int) =~= current@.subrange(0, i as int));
            assert(current@.skip(i + 1) =~= current@.subrange(i + 1, n as int));
        }
    }
    assert((v@, h@) == corner_halves(current@));
    let next = if same_text(dir, "left") {
        v.concat("-left")
    } else if same_text(dir, "right") {
        v.concat("-right")
    } else if same_text(dir, "up") {
        String::from_str("top-").concat(h.as_str())
    } else if same_text(dir, "down") {
        String::from_str("bottom-").concat(h.as_str())
    } else {
        return None;
    };
    if same_text(next.as_str(), current) {
        None
    } else {
        Some(next)
    }
}


/// The global hotkeys to bind: the summon toggle always, and each capture
/// hotkey only when its binding is not blank.
#[derive(Debug, Clone, PartialEq, Eq)]
pub struct HotkeyPlan {
    pub summon: String,
    pub capture_scene: Option<String>,
    pub capture_workspace: Option<String>,
}

/// A capture binding, or `None` when it is blank (blank disables it).
pub open spec fn capture_binding(b: Seq<char>) -> Option<Seq<char>> {
    if trimmed(b).len() == 0 {
        None
    } else {
        Some(b)
    }
}

/// An optional string by its view.
pub open spec fn opt_text(o: Option<String>) -> Option<Seq<char>> {
    match o {
        Some(s) => Some(s@),
        None => None,
    }
}

/// The hotkeys to register from the stored `hotkey`, `capture_hotkey` and
/// `capture_ws_hotkey` settings, with their defaults. A capture hotkey whose
/// binding is blank is skipped.
pub fn hotkey_plan(
    hotkey: Option<String>,
    capture_hotkey: Option<String>,
    capture_ws_hotkey: Option<String>,
) -> (p: HotkeyPlan)
    ensures
        p.summon@ == setting_value(hotkey, DEFAULT_HOTKEY@),
        opt_text(p.capture_scene) == capture_binding(
            setting_value(capture_hotkey, DEFAULT_CAPTURE_HOTKEY@),
        ),
        opt_text(p.capture_workspace) == capture_binding(
            setting_value(capture_ws_hotkey, DEFAULT_CAPTURE_WS_HOTKEY@),
        ),        p.capture_scene is None <==> forall|k: int|
            0 <= k < setting_value(capture_hotkey, DEFAULT_CAPTURE_HOTKEY@).len() ==> is_ws(
                #[trigger] setting_value(capture_hotkey, DEFAULT_CAPTURE_HOTKEY@)[k],
            ),
        p.capture_workspace is None <==> forall|k: int|
            0 <= k < setting_value(capture_ws_hotkey, DEFAULT_CAPTURE_WS_HOTKEY@).len() ==> is_ws(
                #[trigger] setting_value(capture_ws_hotkey, DEFAULT_CAPTURE_WS_HOTKEY@)[k],
            ),
{
    proof {
        trimmed_empty_iff_all_whitespace(setting_value(capture_hotkey, DEFAULT_CAPTURE_HOTKEY@));
        trimmed_empty_iff_all_whitespace(
            setting_value(capture_ws_hotkey, DEFAULT_CAPTURE_WS_HOTKEY@),
        );
    }
    let summon = setting_or(hotkey, DEFAULT_HOTKEY);
    let scene = setting_or(capture_hotkey, DEFAULT_CAPTURE_HOTKEY);
    let ws = setting_or(capture_ws_hotkey, DEFAULT_CAPTURE_WS_HOTKEY);
    let capture_scene = if trim(scene.as_str()).unicode_len() == 0 {
        None
    } else {
        Some(scene)
    };
    let capture_workspace = if trim(ws.as_str()).unicode_len() == 0 {
        None
    } else {
        Some(ws)
    };
    HotkeyPlan { summon, capture_scene, capture_workspace }
}

#[verifier::external_type_specification]
#[verifier::external_body]
pub struct ExJsonError(serde_json::Error);

/// What `serde_json::from_str::<Vec<String>>` returns for `text`: the list
/// of strings it reads, each by its view, or the error it reports.
pub uninterp spec fn json_string_list(text: Seq<char>) -> Result<Seq<Seq<char>>, serde_json::Error>;

/// Calls `serde_json::from_str::<Vec<String>>`. The contract names its
/// result, the list or the error; what JSON it accepts is not restated.
#[verifier::external_body]
fn parse_string_list(text: &str) -> (r: Result<Vec<String>, serde_json::Error>)
    ensures
        match r {
            Ok(v) => json_string_list(text@) == Ok::<Seq<Seq<char>>, serde_json::Error>(
                v.deep_view(),
            ),
            Err(e) => json_string_list(text@) == Err::<Seq<Seq<char>>, serde_json::Error>(e),
        },
{
    serde_json::from_str::<Vec<String>>(text)
}

/// What a click on a task's jump target does.
#[derive(Debug, Clone, PartialEq, Eq)]
pub enum JumpAction {
    /// Run one `aerospace` command.
    Aerospace(AeroCommand),
    /// Replay a scene: run each `aerospace` command in order (best-effort).
    Scene(Vec<AeroCommand>),
    /// Open a URL with the system opener.
    OpenUrl(String),
    /// Run a shell command line.
    Shell(String),
}

/// The error for a jump type that is not known.
pub open spec fn unknown_jump_message(jump_type: Seq<char>) -> Seq<char> {
    "unknown jump type: "@ + jump_type
}

/// Whether jumps summon workspaces: the stored `jump_mode` (default
/// `workspace`) is `summon`.
pub open spec fn summons(jump_mode: Option<String>) -> bool {
    setting_value(jump_mode, DEFAULT_JUMP_MODE@) == "summon"@
}

/// What a jump does, given the task's jump type and value and the stored
/// `jump_mode`: a workspace is focused (or summoned, in summon mode); a
/// scene is a JSON list of workspaces, replayed in order (summoning does not
/// apply, it would pull them all onto one screen), and a scene that does not
/// parse gives the parser error's `Display` text; a window is focused by
/// id; a URL is opened; a command is run by the shell.
pub fn plan_jump(jump_type: &str, jump_value: &str, jump_mode: Option<String>) -> (r: Result<
    JumpAction,
    String,
>)
    ensures
        jump_type@ == "workspace"@ ==> (r matches Ok(JumpAction::Aerospace(c)) && args_of(c) == (
        if summons(jump_mode) {
            seq!["summon-workspace"@, jump_value@]
        } else {
            seq!["workspace"@, jump_value@]
        })),
        jump_type@ == "scene"@ ==> match json_string_list(jump_value@) {
            Err(e) => r matches Err(m) && vstd::string::to_string_from_display_ensures::<
                serde_json::Error,
            >(&e, m),
            Ok(names) => if names.len() == 0 {
                r matches Err(e) && e@ == "empty scene"@
            } else {
                r matches Ok(JumpAction::Scene(cmds)) && cmds.len() == names.len() && forall|i: int|
                    0 <= i < names.len() ==> args_of(#[trigger] cmds[i]) == seq![
                        "workspace"@,
                        names[i],
                    ]
            },
        },
        jump_type@ == "window"@ ==> (r matches Ok(JumpAction::Aerospace(c)) && args_of(c) == seq![
            "focus"@,
            "--window-id"@,
            jump_value@,
        ]),
        jump_type@ == "url"@ ==> (r matches Ok(JumpAction::OpenUrl(u)) && u@ == jump_value@),
        jump_type@ == "command"@ ==> (r matches Ok(JumpAction::Shell(c)) && c@ == jump_value@),
        (jump_type@ != "workspace"@ && jump_type@ != "scene"@ && jump_type@ != "window"@
            && jump_type@ != "url"@ && jump_type@ != "command"@) ==> (r matches Err(e) && e@
            == unknown_jump_message(jump_type@)),
{
    proof {
        reveal_strlit("workspace");
        reveal_strlit("scene");
        reveal_strlit("window");
        reveal_strlit("url");
        reveal_strlit("command");
        assert("workspace"@.len() == 9);
        assert("scene"@.len() == 5);
        assert("window"@.len() == 6);
        assert("url"@.len() == 3);
        assert("command"@.len() == 7);
    }
    let summon = same_text(setting_or(jump_mode, DEFAULT_JUMP_MODE).as_str(), "summon");
    if same_text(jump_type, "workspace") {
        Ok(JumpAction::Aerospace(focus_workspace(jump_value, summon)))
    } else if same_text(jump_type, "scene") {
        match parse_string_list(jump_value) {
            Ok(names) => match focus_scene(&names) {
                Ok(cmds) => Ok(JumpAction::Scene(cmds)),
                Err(e) => Err(e),
            },
            Err(e) => Err(map_err(e)),
        }
    } else if same_text(jump_type, "window") {
        Ok(JumpAction::Aerospace(focus_window(jump_value)))
    } else if same_text(jump_type, "url") {
        Ok(JumpAction::OpenUrl(jump_value.to_owned()))
    } else if same_text(jump_type, "command") {
        Ok(JumpAction::Shell(jump_value.to_owned()))
    } else {
        Err(String::from_str("unknown jump type: ").concat(jump_type))
    }
}


/// An error as the message text that the user interface shows: its
/// `Display` rendering.
pub fn map_err<E: std::fmt::Display>(e: E) -> (s: String)
    ensures
        vstd::string::to_string_from_display_ensures::<E>(&e, s),
{
    e.to_string()
}


proof fn lemma_halves_at(s: Seq<char>, k: int)
    requires
        first_dash_at(s, k),
    ensures
        corner_halves(s) == (s.take(k), s.skip(k + 1)),
{
    let c = choose|i: int| first_dash_at(s, i);
    assert(first_dash_at(s, c));
    if c < k {
        assert(s[c] != '-');
    }
    if k < c {
        assert(s[k] != '-');
    }
    assert(c == k);
}

proof fn lemma_halves_first_dashless(s: Seq<char>)
    ensures
        forall|j: int| 0 <= j < corner_halves(s).0.len() ==> #[trigger] corner_halves(s).0[j] != '-',
{
    reveal_strlit("top");
    if exists|i: int| first_dash_at(s, i) {
        let k = choose|i: int| first_dash_at(s, i);
        lemma_halves_at(s, k);
    }
}

/// Snapping is idempotent: pressing the same arrow again right after it
/// moved the panel does not move it further.
pub proof fn same_arrow_twice_moves_once(current: Seq<char>, dir: Seq<char>)
    ensures
        next_corner_spec(current, dir) matches Some(n) ==> next_corner_spec(n, dir) is None,
{
    reveal_strlit("-left");
    reveal_strlit("-right");
    reveal_strlit("top-");
    reveal_strlit("bottom-");
    let (v, h) = corner_halves(current);
    lemma_halves_first_dashless(current);
    if let Some(n) = next_corner_spec(current, dir) {
        if dir == "left"@ || dir == "right"@ {
            assert(first_dash_at(n, v.len() as int));
            lemma_halves_at(n, v.len() as int);
            assert(n.take(v.len() as int) =~= v);
        } else if dir == "up"@ {
            assert(first_dash_at(n, 3));
            lemma_halves_at(n, 3);
            assert(n.skip(4) =~= h);
            assert(n.take(3) =~= "top"@) by {
                reveal_strlit("top");
            }
        } else if dir == "down"@ {
            assert(first_dash_at(n, 6));
            lemma_halves_at(n, 6);
            assert(n.skip(7) =~= h);
            assert(n.take(6) =~= "bottom"@) by {
                reveal_strlit("bottom");
            }
        }
    }
}

/// A panel no larger than the work area, pinned to any corner, lies inside
/// the work area and touches two of its edges.
pub proof fn pinned_panel_fits_work_area(
    corner: Seq<char>,
    ax: int,
    ay: int,
    aw: int,
    ah: int,
    ww: int,
    wh: int,
)
    requires
        0 <= ww <= aw,
        0 <= wh <= ah,
    ensures
        ({
            let (x, y) = corner_target(corner, ax, ay, aw, ah, ww, wh);
            &&& ax <= x && x + ww <= ax + aw
            &&& ay <= y && y + wh <= ay + ah
            &&& (x == ax || x + ww == ax + aw)
            &&& (y == ay || y + wh == ay + ah)
        }),
{
}


/// The Command key is held, and none of Shift, Control and Option, in a
/// key event's modifier flags (bits 20, 17, 18 and 19).
pub open spec fn command_only(flags: u64) -> bool {
    &&& flags & 0x10_0000 != 0
    &&& flags & 0x2_0000 == 0
    &&& flags & 0x4_0000 == 0
    &&& flags & 0x8_0000 == 0
}

/// The key code of the up arrow.
pub const KEY_UP: u16 = 126;

/// The key code of the down arrow.
pub const KEY_DOWN: u16 = 125;

/// The vertical snap that a key-down event asks for: Command with the up
/// or down arrow (and no other modifier) gives `up` or `down`; any other
/// event passes through (`None`).
pub fn vertical_snap(modifier_flags: u64, key_code: u16) -> (r: Option<String>)
    ensures
        r is Some <==> command_only(modifier_flags) && (key_code == KEY_UP || key_code == KEY_DOWN),
        r matches Some(d) ==> d@ == (if key_code == KEY_UP {
            "up"@
        } else {
            "down"@
        }),
{
    let f = modifier_flags & 0xffff_0000u64;
    let cmd_only = (f & 0x10_0000u64) != 0 && (f & (0x2_0000u64 | 0x4_0000u64 | 0x8_0000u64)) == 0;
    assert(cmd_only == command_only(modifier_flags)) by (bit_vector)
        requires
            f == modifier_flags & 0xffff_0000u64,
            cmd_only == ((f & 0x10_0000u64) != 0 && (f & (0x2_0000u64 | 0x4_0000u64
                | 0x8_0000u64)) == 0),
    ;
    if !cmd_only {
        return None;
    }
    if key_code == KEY_UP {
        Some(String::from_str("up"))
    } else if key_code == KEY_DOWN {
        Some(String::from_str("down"))
    } else {
        None
    }
}

/// An entry of the tray menu.
#[derive(Debug, Clone, Copy, PartialEq, Eq)]
pub enum MenuAction {
    /// "Show / Hide"
    Toggle,
    /// "Settings…"
    OpenSettings,
    /// "Quit"
    Quit,
}

/// The tray-menu entry with the given id (`toggle`, `settings`, `quit`);
/// `None` for any other id.
pub fn menu_action(id: &str) -> (r: Option<MenuAction>)
    ensures
        r == (if id@ == "toggle"@ {
            Some(MenuAction::Toggle)
        } else if id@ == "settings"@ {
            Some(MenuAction::OpenSettings)
        } else if id@ == "quit"@ {
            Some(MenuAction::Quit)
        } else {
            None
        }),
{
    if same_text(id, "toggle") {
        Some(MenuAction::Toggle)
    } else if same_text(id, "settings") {
        Some(MenuAction::OpenSettings)
    } else if same_text(id, "quit") {
        Some(MenuAction::Quit)
    } else {
        None
    }
}


/// Each arrow moves along one axis only: up and down set the vertical half
/// to `top` or `bottom` and keep the horizontal half; left and right set the
/// horizontal half to `left` or `right` and keep the vertical half. Only the
/// four arrows move the panel, and a move always changes the corner.
pub proof fn arrows_move_along_one_axis(current: Seq<char>, dir: Seq<char>)
    ensures
        next_corner_spec(current, dir) matches Some(n) ==> {
            &&& n != current
            &&& dir == "up"@ || dir == "down"@ || dir == "left"@ || dir == "right"@
            &&& dir == "up"@ ==> corner_halves(n) == ("top"@, corner_halves(current).1)
            &&& dir == "down"@ ==> corner_halves(n) == ("bottom"@, corner_halves(current).1)
            &&& dir == "left"@ ==> corner_halves(n) == (corner_halves(current).0, "left"@)
            &&& dir == "right"@ ==> corner_halves(n) == (corner_halves(current).0, "right"@)
        },
{
    reveal_strlit("-left");
    reveal_strlit("-right");
    reveal_strlit("top-");
    reveal_strlit("bottom-");
    reveal_strlit("left");
    reveal_strlit("right");
    reveal_strlit("up");
    reveal_strlit("down");
    reveal_strlit("top");
    reveal_strlit("bottom");
    assert("left"@.len() == 4);
    assert("right"@.len() == 5);
    assert("up"@.len() == 2);
    assert("down"@.len() == 4);
    assert("left"@ != "down"@) by {
        assert("left"@[0] != "down"@[0]);
    }
    let (v, h) = corner_halves(current);
    lemma_halves_first_dashless(current);
    if let Some(n) = next_corner_spec(current, dir) {
        if dir == "left"@ || dir == "right"@ {
            assert(first_dash_at(n, v.len() as int));
            lemma_halves_at(n, v.len() as int);
            assert(n.take(v.len() as int) =~= v);
            if dir == "left"@ {
                assert(n.skip(v.len() as int + 1) =~= "left"@);
            } else {
                assert(n.skip(v.len() as int + 1) =~= "right"@);
            }
        } else if dir == "up"@ {
            assert(first_dash_at(n, 3));
            lemma_halves_at(n, 3);
            assert(n.skip(4) =~= h);
            assert(n.take(3) =~= "top"@);
        } else if dir == "down"@ {
            assert(first_dash_at(n, 6));
            lemma_halves_at(n, 6);
            assert(n.skip(7) =~= h);
            assert(n.take(6) =~= "bottom"@);
        }
    }
}


/// Snapping on the four named corners `top-left`, `top-right`,
/// `bottom-left`, `bottom-right`: an arrow moves to the corner on that side
/// with the other half kept, and does nothing when already on that side.
pub proof fn snapping_between_named_corners(v: Seq<char>, h: Seq<char>, dir: Seq<char>)
    requires
        v == "top"@ || v == "bottom"@,
        h == "left"@ || h == "right"@,
    ensures
        ({
            let c = v + "-"@ + h;
            &&& dir == "up"@ ==> next_corner_spec(c, dir) == (if v == "top"@ {
                None
            } else {
                Some("top-"@ + h)
            })
            &&& dir == "down"@ ==> next_corner_spec(c, dir) == (if v == "bottom"@ {
                None
            } else {
                Some("bottom-"@ + h)
            })
            &&& dir == "left"@ ==> next_corner_spec(c, dir) == (if h == "left"@ {
                None
            } else {
                Some(v + "-left"@)
            })
            &&& dir == "right"@ ==> next_corner_spec(c, dir) == (if h == "right"@ {
                None
            } else {
                Some(v + "-right"@)
            })
        }),
{
    reveal_strlit("-");
    reveal_strlit("-left");
    reveal_strlit("-right");
    reveal_strlit("top-");
    reveal_strlit("bottom-");
    reveal_strlit("left");
    reveal_strlit("right");
    reveal_strlit("up");
    reveal_strlit("down");
    reveal_strlit("top");
    reveal_strlit("bottom");
    let c = v + "-"@ + h;
    assert(first_dash_at(c, v.len() as int));
    lemma_halves_at(c, v.len() as int);
    assert(c.take(v.len() as int) =~= v);
    assert(c.skip(v.len() as int + 1) =~= h);
    assert("top-"@ + h =~= "top"@ + "-"@ + h);
    assert("bottom-"@ + h =~= "bottom"@ + "-"@ + h);
    assert(v + "-left"@ =~= v + "-"@ + "left"@);
    assert(v + "-right"@ =~= v + "-"@ + "right"@);
    assert("top"@ != "bottom"@) by {
        assert("top"@.len() != "bottom"@.len());
    }
    assert("left"@ != "right"@) by {
        assert("left"@.len() != "right"@.len());
    }
    assert("left"@ != "up"@ && "left"@ != "down"@ && "right"@ != "up"@ && "right"@ != "down"@
        && "up"@ != "down"@) by {
        assert("left"@[0] != "down"@[0]);
    }
}


/// The named corner alone decides which edges the panel is flush with,
/// wherever the work area lies: the left corners touch the left edge and the
/// others the right edge; the bottom corners touch the bottom edge and the
/// others the top edge.
pub proof fn corner_decides_edges(
    corner: Seq<char>,
    ax: int,
    ay: int,
    aw: int,
    ah: int,
    ww: int,
    wh: int,
)
    ensures
        ({
            let (x, y) = corner_target(corner, ax, ay, aw, ah, ww, wh);
            let left = corner == "top-left"@ || corner == "bottom-left"@;
            let bottom = corner == "bottom-left"@ || corner == "bottom-right"@;
            &&& left ==> x == ax
            &&& !left ==> x + ww == ax + aw
            &&& bottom ==> y + wh == ay + ah
            &&& !bottom ==> y == ay
        }),
        (fits_i32(ax + aw) && fits_i32(ax + aw - ww) && fits_i32(ay + ah) && fits_i32(ay + ah - wh))
            ==> corner_fits(corner, ax, ay, aw, ah, ww, wh),
{
    reveal_strlit("top-left");
    reveal_strlit("bottom-left");
    reveal_strlit("bottom-right");
    assert("top-left"@.len() == 8);
    assert("bottom-left"@.len() == 11);
    assert("bottom-right"@.len() == 12);
}

} // verus!
