//! The bridge to the `aerospace` command-line tool: which subcommand each
//! request runs, how a finished invocation is read (including the distinct,
//! friendly errors for a missing tool and a disabled server), and how a
//! multi-monitor "scene" is captured and replayed.
//!
//! Spawning the process is left to the caller, which hands back a
//! [`RunOutcome`] for each [`AeroCommand`] it ran.

use vstd::prelude::*;
use crate::text::{lemma_trimmed_occurrence, contains, contains_text, nonblank_lines, nonblank_lines_of, occurs_at, trim, trimmed};

verus! {

/// Result of probing the aerospace CLI / server.
#[derive(Debug, Clone, PartialEq, Eq)]
pub struct AeroStatus {
    pub installed: bool,
    pub server_enabled: bool,
    pub message: Option<String>,
}

/// What became of one `aerospace` invocation.
#[derive(Debug, Clone, PartialEq, Eq)]
pub enum RunOutcome {
    /// The process ran to completion; `success` is its exit status.
    Exited { success: bool, stdout: Vec<u8>, stderr: Vec<u8> },
    /// No `aerospace` executable was found.
    NotFound,
    /// The process could not be started for another reason, described by `reason`.
    SpawnFailed { reason: String },
}

/// An `aerospace` subcommand with its arguments.
#[derive(Debug, Clone, PartialEq, Eq)]
pub enum AeroCommand {
    /// `list-workspaces --focused`
    ListFocused,
    /// `list-workspaces --all`
    ListAll,
    /// `list-workspaces --monitor all --visible`
    ListVisible,
    /// `workspace <name>`: show the workspace on its own monitor and focus it.
    Workspace(String),
    /// `summon-workspace <name>`: pull the workspace onto the current monitor.
    SummonWorkspace(String),
    /// `focus --window-id <id>`
    FocusWindow(String),
    /// `enable on`: turn the AeroSpace server on.
    Enable,
}

/// Every byte is ASCII (below 128).
pub open spec fn is_ascii_bytes(b: Seq<u8>) -> bool {
    forall|k: int| 0 <= k < b.len() ==> b[k] < 128
}

/// ASCII bytes read as the characters they encode.
pub open spec fn ascii_text(b: Seq<u8>) -> Seq<char> {
    b.map_values(|x: u8| x as char)
}

/// The output of a finished run, where it is all ASCII, decodes to the
/// characters its bytes encode; with this a caller can work out what a
/// concrete run reads as.
pub open spec fn decodes_plainly(o: RunOutcome) -> bool {
    o matches RunOutcome::Exited { stdout, stderr, .. } ==> {
        &&& is_ascii_bytes(stdout@) ==> lossy_utf8(stdout@) == ascii_text(stdout@)
        &&& is_ascii_bytes(stderr@) ==> lossy_utf8(stderr@) == ascii_text(stderr@)
    }
}

/// The text that `String::from_utf8_lossy` makes of `bytes`.
pub uninterp spec fn lossy_utf8(bytes: Seq<u8>) -> Seq<char>;

/// Calls `String::from_utf8_lossy` and takes the text out of the `Cow`. The
/// contract names the result and adds the one fact the documentation plainly
/// gives: bytes that are all ASCII (valid UTF-8) decode to the same characters.
#[verifier::external_body]
fn decode_lossy(bytes: &Vec<u8>) -> (s: String)
    ensures
        s@ == lossy_utf8(bytes@),
        is_ascii_bytes(bytes@) ==> s@ == ascii_text(bytes@),
{
    String::from_utf8_lossy(bytes.as_slice()).into_owned()
}

/// The marker by which `aerospace` reports a disabled server.
pub open spec fn disabled_marker() -> Seq<char> {
    "server is disabled"@
}

/// The error given when the server is disabled.
pub open spec fn disabled_message() -> Seq<char> {
    "AeroSpace server is disabled. Run `aerospace enable on`."@
}

/// The error given when the tool is missing.
pub open spec fn not_installed_message() -> Seq<char> {
    "AeroSpace is not installed."@
}

/// The error given when a failed run printed nothing useful on stderr.
pub open spec fn failed_message() -> Seq<char> {
    "aerospace command failed"@
}

/// The error given when the process could not be started.
pub open spec fn spawn_failed_message(reason: Seq<char>) -> Seq<char> {
    "failed to run aerospace: "@ + reason
}

/// A `Result` of strings, by the strings' views.
pub open spec fn result_view(r: Result<String, String>) -> Result<Seq<char>, Seq<char>> {
    match r {
        Ok(s) => Ok(s@),
        Err(e) => Err(e@),
    }
}

/// How a finished invocation reads: its stdout on success, else a message.
pub open spec fn command_result_spec(o: RunOutcome) -> Result<Seq<char>, Seq<char>> {
    match o {
        RunOutcome::Exited { success, stdout, stderr } => {
            let out = lossy_utf8(stdout@);
            let err = lossy_utf8(stderr@);
            if success {
                Ok(out)
            } else if contains_text(err, disabled_marker()) || contains_text(out, disabled_marker()) {
                Err(disabled_message())
            } else if trimmed(err).len() == 0 {
                Err(failed_message())
            } else {
                Err(trimmed(err))
            }
        },
        RunOutcome::NotFound => Err(not_installed_message()),
        RunOutcome::SpawnFailed { reason } => Err(spawn_failed_message(reason@)),
    }
}

/// The arguments that a command passes to `aerospace`.
pub open spec fn args_of(c: AeroCommand) -> Seq<Seq<char>> {
    match c {
        AeroCommand::ListFocused => seq!["list-workspaces"@, "--focused"@],
        AeroCommand::ListAll => seq!["list-workspaces"@, "--all"@],
        AeroCommand::ListVisible => seq!["list-workspaces"@, "--monitor"@, "all"@, "--visible"@],
        AeroCommand::Workspace(name) => seq!["workspace"@, name@],
        AeroCommand::SummonWorkspace(name) => seq!["summon-workspace"@, name@],
        AeroCommand::FocusWindow(id) => seq!["focus"@, "--window-id"@, id@],
        AeroCommand::Enable => seq!["enable"@, "on"@],
    }
}

impl AeroCommand {
    /// The argument list to run `aerospace` with.
    pub fn args(&self) -> (v: Vec<String>)
        ensures
            v.deep_view() == args_of(*self),
    {
        let mut v: Vec<String> = Vec::new();
        match self {
            AeroCommand::ListFocused => {
                v.push(String::from_str("list-workspaces"));
                v.push(String::from_str("--focused"));
            },
            AeroCommand::ListAll => {
                v.push(String::from_str("list-workspaces"));
                v.push(String::from_str("--all"));
            },
            AeroCommand::ListVisible => {
                v.push(String::from_str("list-workspaces"));
                v.push(String::from_str("--monitor"));
                v.push(String::from_str("all"));
                v.push(String::from_str("--visible"));
            },
            AeroCommand::Workspace(name) => {
                v.push(String::from_str("workspace"));
                v.push(name.clone());
            },
            AeroCommand::SummonWorkspace(name) => {
                v.push(String::from_str("summon-workspace"));
                v.push(name.clone());
            },
            AeroCommand::FocusWindow(id) => {
                v.push(String::from_str("focus"));
                v.push(String::from_str("--window-id"));
                v.push(id.clone());
            },
            AeroCommand::Enable => {
                v.push(String::from_str("enable"));
                v.push(String::from_str("on"));
            },
        }
        assert(v.deep_view() =~= args_of(*self));
        v
    }
}

/// Where the `aerospace` executable is looked for, in order: by name on the
/// process `PATH`, then at the standard Homebrew locations, so that a bundled
/// app that does not inherit the shell's `PATH` still reaches the CLI.
pub open spec fn executable_candidates() -> Seq<Seq<char>> {
    seq!["aerospace"@, "/opt/homebrew/bin/aerospace"@, "/usr/local/bin/aerospace"@]
}

/// The executable to try first.
pub fn first_executable() -> (p: String)
    ensures
        p@ == executable_candidates()[0],
{
    String::from_str("aerospace")
}

/// The executable to try after candidate number `attempt` (counting from 0
/// in [`executable_candidates`]) ended with `outcome`: the next candidate
/// when this one was not found and another remains, else `None`, and the
/// outcome stands.
pub fn next_executable(attempt: usize, outcome: &RunOutcome) -> (r: Option<String>)
    ensures
        match r {
            Some(p) => *outcome is NotFound && attempt + 1 < executable_candidates().len()
                && p@ == executable_candidates()[attempt + 1],
            None => !(*outcome is NotFound && attempt + 1 < executable_candidates().len()),
        },
{
    match outcome {
        RunOutcome::NotFound => {
            if attempt == 0 {
                Some(String::from_str("/opt/homebrew/bin/aerospace"))
            } else if attempt == 1 {
                Some(String::from_str("/usr/local/bin/aerospace"))
            } else {
                None
            }
        },
        _ => None,
    }
}

/// Reads a finished invocation: `Ok(stdout)` on success, otherwise an error
/// message, with a disabled server and a missing tool reported distinctly.
pub fn command_result(outcome: RunOutcome) -> (r: Result<String, String>)
    ensures
        decodes_plainly(outcome),
        result_view(r) == command_result_spec(outcome),
{
    match outcome {
        RunOutcome::Exited { success, stdout, stderr } => {
            let out = decode_lossy(&stdout);
            let err = decode_lossy(&stderr);
            if success {
                Ok(out)
            } else if contains(err.as_str(), "server is disabled") || contains(
                out.as_str(),
                "server is disabled",
            ) {
                Err(String::from_str("AeroSpace server is disabled. Run `aerospace enable on`."))
            } else {
                let t = trim(err.as_str());
                if t.unicode_len() == 0 {
                    Err(String::from_str("aerospace command failed"))
                } else {
                    Err(t)
                }
            }
        },
        RunOutcome::NotFound => Err(String::from_str("AeroSpace is not installed.")),
        RunOutcome::SpawnFailed { reason } => {
            let msg = String::from_str("failed to run aerospace: ");
            Err(msg.concat(reason.as_str()))
        },
    }
}


/// Reads an invocation whose output is not needed: `Ok(())` exactly when the
/// run succeeded, else the same error message as [`command_result`].
pub fn completion(outcome: RunOutcome) -> (r: Result<(), String>)
    ensures
        decodes_plainly(outcome),
        r is Ok <==> command_result_spec(outcome) is Ok,
        r matches Err(e) ==> command_result_spec(outcome) == Err::<Seq<char>, Seq<char>>(e@),
{
    match command_result(outcome) {
        Ok(_) => Ok(()),
        Err(e) => Err(e),
    }
}

/// The status that a probe with `list-workspaces --focused` reports.
pub open spec fn status_spec(probe: Result<Seq<char>, Seq<char>>) -> (bool, bool, Option<Seq<char>>) {
    match probe {
        Ok(_) => (true, true, None),
        Err(msg) => (!contains_text(msg, "not installed"@), false, Some(msg)),
    }
}

/// The status of the CLI and its server, from the outcome of the probe
/// command [`AeroCommand::ListFocused`]. A failed probe is reported with its
/// message; the tool counts as installed unless the message says otherwise.
pub fn status(probe: RunOutcome) -> (st: AeroStatus)
    ensures
        probe is NotFound ==> !st.installed && !st.server_enabled,
        probe matches RunOutcome::Exited { success, stderr, .. } ==> {
            &&& success ==> st.installed && st.server_enabled && st.message is None
            &&& !success ==> !st.server_enabled && st.message is Some
            &&& (!success && !contains_text(lossy_utf8(stderr@), "not installed"@)) ==> st.installed
        },
        decodes_plainly(probe),
        (st.installed, st.server_enabled, match st.message {
            Some(m) => Some(m@),
            None => None,
        }) == status_spec(command_result_spec(probe)),
{
    proof {
        probe_reports_install_state(probe);
    }
    match command_result(probe) {
        Ok(_) => AeroStatus { installed: true, server_enabled: true, message: None },
        Err(msg) => {
            let installed = !contains(msg.as_str(), "not installed");
            let server_enabled = false;
            AeroStatus { installed, server_enabled, message: Some(msg) }
        },
    }
}

/// All workspace names, one per non-blank output line of
/// [`AeroCommand::ListAll`], trimmed.
pub fn list_workspaces(listing: RunOutcome) -> (r: Result<Vec<String>, String>)
    ensures
        decodes_plainly(listing),
        match (r, command_result_spec(listing)) {
            (Ok(names), Ok(out)) => names.deep_view() == nonblank_lines(out),
            (Err(e), Err(msg)) => e@ == msg,
            _ => false,
        },
{
    match command_result(listing) {
        Ok(out) => Ok(nonblank_lines_of(out.as_str())),
        Err(e) => Err(e),
    }
}

/// The focused workspace: the trimmed output of [`AeroCommand::ListFocused`].
pub fn focused_workspace(probe: RunOutcome) -> (r: Result<String, String>)
    ensures
        decodes_plainly(probe),
        match (r, command_result_spec(probe)) {
            (Ok(name), Ok(out)) => name@ == trimmed(out),
            (Err(e), Err(msg)) => e@ == msg,
            _ => false,
        },
{
    match command_result(probe) {
        Ok(out) => Ok(trim(out.as_str())),
        Err(e) => Err(e),
    }
}

/// The command that jumps to workspace `name`: `summon-workspace` pulls it onto
/// the current monitor, `workspace` switches to it in place.
pub fn focus_workspace(name: &str, summon: bool) -> (c: AeroCommand)
    ensures
        summon ==> c is SummonWorkspace,
        !summon ==> c is Workspace,
        args_of(c) == (if summon {
            seq!["summon-workspace"@, name@]
        } else {
            seq!["workspace"@, name@]
        }),
{
    if summon {
        AeroCommand::SummonWorkspace(name.to_owned())
    } else {
        AeroCommand::Workspace(name.to_owned())
    }
}

/// The command that focuses the window with the given id.
pub fn focus_window(window_id: &str) -> (c: AeroCommand)
    ensures
        c is FocusWindow,
        args_of(c) == seq!["focus"@, "--window-id"@, window_id@],
{
    AeroCommand::FocusWindow(window_id.to_owned())
}

/// The command that turns the AeroSpace server on.
pub fn enable() -> (c: AeroCommand)
    ensures
        c is Enable,
        args_of(c) == seq!["enable"@, "on"@],
{
    AeroCommand::Enable
}


/// The names in order of first appearance, each once.
pub open spec fn dedup(s: Seq<Seq<char>>) -> Seq<Seq<char>>
    decreases s.len(),
{
    if s.len() == 0 {
        s
    } else {
        let d = dedup(s.drop_last());
        if d.contains(s.last()) {
            d
        } else {
            d.push(s.last())
        }
    }
}

/// The names with `focused`, where it occurs, moved to the end.
pub open spec fn focus_last(s: Seq<Seq<char>>, focused: Option<Seq<char>>) -> Seq<Seq<char>> {
    match focused {
        Some(f) => if s.contains(f) {
            s.remove(s.index_of(f)).push(f)
        } else {
            s
        },
        None => s,
    }
}

/// The replay order of a scene: the visible workspaces, each once, in the
/// order listed, ending on the focused one.
pub open spec fn scene_spec(lines: Seq<Seq<char>>, focused: Option<Seq<char>>) -> Seq<Seq<char>> {
    focus_last(dedup(lines), focused)
}

/// Everything that `dedup` keeps is in its input and occurs once; everything
/// in its input is kept.
pub proof fn lemma_dedup(s: Seq<Seq<char>>)
    ensures
        dedup(s).no_duplicates(),
        forall|x: Seq<char>| dedup(s).contains(x) <==> s.contains(x),
        dedup(s).len() <= s.len(),
    decreases s.len(),
{
    if s.len() > 0 {
        let t = s.drop_last();
        lemma_dedup(t);
        assert forall|x: Seq<char>| t.contains(x) implies s.contains(x) by {
            let k = choose|k: int| 0 <= k < t.len() && t[k] == x;
            assert(s[k] == x);
        }
        assert forall|x: Seq<char>| s.contains(x) implies (t.contains(x) || x == s.last()) by {
            let k = choose|k: int| 0 <= k < s.len() && s[k] == x;
            if k < s.len() - 1 {
                assert(t[k] == x);
            }
        }
        let d = dedup(t);
        if !d.contains(s.last()) {
            assert(d.push(s.last()).no_duplicates()) by {
                let e = d.push(s.last());
                assert forall|i: int, j: int|
                    0 <= i < e.len() && 0 <= j < e.len() && i != j implies e[i] != e[j] by {
                    if i == d.len() as int {
                        assert(e[j] == d[j]);
                    } else if j == d.len() as int {
                        assert(e[i] == d[i]);
                    }
                }
            }
            assert forall|x: Seq<char>| d.push(s.last()).contains(x) <==> s.contains(x) by {
                if d.push(s.last()).contains(x) {
                    let k = choose|k: int| 0 <= k < d.len() + 1 && d.push(s.last())[k] == x;
                    if k < d.len() {
                        assert(d.contains(x));
                    }
                }
                if s.contains(x) {
                    if x == s.last() {
                        assert(d.push(s.last())[d.len() as int] == x);
                    } else {
                        assert(d.contains(x));
                        let k = choose|k: int| 0 <= k < d.len() && d[k] == x;
                        assert(d.push(s.last())[k] == x);
                    }
                }
            }
        }
    }
}

/// Moving the focused name to the end keeps the names and their uniqueness,
/// and the focused name, when present, comes last.
pub proof fn lemma_focus_last(s: Seq<Seq<char>>, focused: Option<Seq<char>>)
    requires
        s.no_duplicates(),
    ensures
        focus_last(s, focused).no_duplicates(),
        focus_last(s, focused).len() == s.len(),
        forall|x: Seq<char>| focus_last(s, focused).contains(x) <==> s.contains(x),
        focused matches Some(f) ==> (s.contains(f) ==> focus_last(s, focused).last() == f),
{
    if let Some(f) = focused {
        if s.contains(f) {
            let p = s.index_of(f);
            let r = s.remove(p);
            s.remove_ensures(p);
            let e = r.push(f);
            assert forall|i: int, j: int|
                0 <= i < e.len() && 0 <= j < e.len() && i != j implies e[i] != e[j] by {
                let si = if i < p { i } else if i < e.len() - 1 { i + 1 } else { p };
                let sj = if j < p { j } else if j < e.len() - 1 { j + 1 } else { p };
                assert(e[i] == s[si]);
                assert(e[j] == s[sj]);
            }
            assert forall|x: Seq<char>| e.contains(x) <==> s.contains(x) by {
                if e.contains(x) {
                    let k = choose|k: int| 0 <= k < e.len() && e[k] == x;
                    let sk = if k < p { k } else if k < e.len() - 1 { k + 1 } else { p };
                    assert(s[sk] == x);
                }
                if s.contains(x) {
                    let k = choose|k: int| 0 <= k < s.len() && s[k] == x;
                    let ek = if k < p { k } else if k > p { k - 1 } else { e.len() - 1 };
                    assert(e[ek] == x);
                }
            }
        }
    }
}

/// Whether `v` holds a string equal to `x`.
fn holds(v: &Vec<String>, x: &String) -> (b: bool)
    ensures
        b == v.deep_view().contains(x@),
{
    let mut k: usize = 0;
    while k < v.len()
        invariant
            0 <= k <= v.len(),
            forall|j: int| 0 <= j < k ==> v.deep_view()[j] != x@,
        decreases v.len() - k,
    {
        if v[k] == *x {
            assert(v.deep_view()[k as int] == x@);
            return true;
        }
        k = k + 1;
    }
    false
}

/// The replay order of a scene from the listed visible workspaces and the
/// focused one: duplicates dropped (one workspace per monitor) keeping the
/// first, order kept, and the focused workspace, if listed, moved to the end
/// so that replaying the scene leaves keyboard focus where it was.
pub fn scene_order(names: Vec<String>, focused: Option<String>) -> (r: Vec<String>)
    ensures
        r.deep_view() == scene_spec(names.deep_view(), match focused {
            Some(f) => Some(f@),
            None => None,
        }),
{
    let ghost all = names.deep_view();
    let mut out: Vec<String> = Vec::new();
    let mut i: usize = 0;
    assert(all.take(0) =~= Seq::<Seq<char>>::empty());
    while i < names.len()
        invariant
            0 <= i <= names.len(),
            all == names.deep_view(),
            out.deep_view() == dedup(all.take(i as int)),
        decreases names.len() - i,
    {
        assert(all.take(i + 1).drop_last() =~= all.take(i as int));
        assert(all.take(i + 1).last() == names[i as int]@);
        if !holds(&out, &names[i]) {
            out.push(names[i].clone());
            assert(out.deep_view() =~= dedup(all.take(i as int)).push(names[i as int]@));
        }
        i = i + 1;
    }
    assert(all.take(names.len() as int) =~= all);
    let ghost d = out.deep_view();
    proof {
        lemma_dedup(all);
    }
    if let Some(f) = focused {
        let mut p: usize = 0;
        while p < out.len()
            invariant
                0 <= p <= out.len(),
                d == out.deep_view(),
                d == dedup(all),
                all == names.deep_view(),
                focused == Some(f),
                d.no_duplicates(),
                forall|j: int| 0 <= j < p ==> d[j] != f@,
            decreases out.len() - p,
        {
            if out[p] == f {
                proof {
                    assert(d[p as int] == f@);
                    assert(d.contains(f@));
                    let q = d.index_of(f@);
                    assert(d[q] == f@);
                    assert(q == p);
                }
                let moved = out.remove(p);
                out.push(moved);
                assert(out.deep_view() =~= d.remove(p as int).push(f@));
                assert(focus_last(d, Some(f@)) == d.remove(p as int).push(f@));
                assert(scene_spec(all, Some(f@)) == focus_last(d, Some(f@)));
                return out;
            }
            p = p + 1;
        }
        assert(!d.contains(f@));
    }
    out
}

/// The scene to capture: the visible workspaces listed by
/// [`AeroCommand::ListVisible`], in replay order (see [`scene_order`]),
/// ending on the focused workspace when `focused` (the result of
/// [`focused_workspace`]) names one of them.
pub fn visible_scene(listing: RunOutcome, focused: Result<String, String>) -> (r: Result<
    Vec<String>,
    String,
>)
    ensures
        decodes_plainly(listing),
        match (r, command_result_spec(listing)) {
            (Ok(names), Ok(out)) => names.deep_view() == scene_spec(
                nonblank_lines(out),
                match focused {
                    Ok(f) => Some(f@),
                    Err(_) => None,
                },
            ),
            (Err(e), Err(msg)) => e@ == msg,
            _ => false,
        },
{
    match command_result(listing) {
        Ok(out) => {
            let names = nonblank_lines_of(out.as_str());
            let f = match focused {
                Ok(f) => Some(f),
                Err(_) => None,
            };
            Ok(scene_order(names, f))
        },
        Err(e) => Err(e),
    }
}

/// The commands that restore a scene: `workspace <name>` for each name in
/// order, so that the last one receives keyboard focus. An empty scene is an
/// error.
pub fn focus_scene(names: &Vec<String>) -> (r: Result<Vec<AeroCommand>, String>)
    ensures
        names.len() == 0 <==> r is Err,
        r matches Err(e) ==> e@ == "empty scene"@,
        r matches Ok(cmds) ==> cmds.len() == names.len() && forall|i: int|
            0 <= i < names.len() ==> (#[trigger] cmds[i]) is Workspace && args_of(cmds[i]) == seq![
                "workspace"@,
                names[i]@,
            ],
{
    if names.len() == 0 {
        return Err(String::from_str("empty scene"));
    }
    let mut cmds: Vec<AeroCommand> = Vec::new();
    let mut i: usize = 0;
    while i < names.len()
        invariant
            0 <= i <= names.len(),
            cmds.len() == i,
            forall|j: int|
                0 <= j < i ==> (#[trigger] cmds[j]) is Workspace && args_of(cmds[j]) == seq![
                    "workspace"@,
                    names[j]@,
                ],
        decreases names.len() - i,
    {
        cmds.push(focus_workspace(names[i].as_str(), false));
        i = i + 1;
    }
    Ok(cmds)
}

/// The result of replaying a scene, from the outcomes of the commands of
/// [`focus_scene`] in order. Each workspace is best-effort: a workspace that
/// has vanished does not abort the rest, and the last outcome decides.
pub fn scene_result(outcomes: Vec<RunOutcome>) -> (r: Result<(), String>)
    requires
        outcomes.len() > 0,
    ensures
        decodes_plainly(outcomes@.last()),
        r is Ok <==> command_result_spec(outcomes@.last()) is Ok,
        r matches Err(e) ==> command_result_spec(outcomes@.last()) == Err::<Seq<char>, Seq<char>>(
            e@,
        ),
{
    let mut outcomes = outcomes;
    let last = outcomes.pop().unwrap();
    completion(last)
}


/// A captured scene holds each listed workspace exactly once and nothing
/// else, and ends on the focused workspace whenever that one is listed, so
/// that replaying it leaves keyboard focus where it was.
pub proof fn scene_laws(lines: Seq<Seq<char>>, focused: Option<Seq<char>>)
    ensures
        scene_spec(lines, focused).no_duplicates(),
        forall|x: Seq<char>| scene_spec(lines, focused).contains(x) <==> lines.contains(x),
        focused matches Some(f) ==> (lines.contains(f) ==> scene_spec(lines, focused).last() == f),
{
    lemma_dedup(lines);
    lemma_focus_last(dedup(lines), focused);
}

/// Replaying a scene ends on its last workspace: the final command of
/// [`focus_scene`] focuses the scene's last name.
pub proof fn scene_replay_ends_on_last(names: Seq<Seq<char>>, cmds: Seq<AeroCommand>)
    requires
        names.len() > 0,
        cmds.len() == names.len(),
        forall|i: int| 0 <= i < names.len() ==> args_of(#[trigger] cmds[i]) == seq!["workspace"@, names[i]],
    ensures
        args_of(cmds.last()) == seq!["workspace"@, names.last()],
{
    assert(args_of(cmds[cmds.len() - 1]) == seq!["workspace"@, names[names.len() - 1]]);
}


/// Text without the letter `t` cannot hold "not installed".
proof fn lemma_no_t_no_not_installed(hay: Seq<char>)
    requires
        forall|j: int| 0 <= j < hay.len() ==> hay[j] != 't',
    ensures
        !contains_text(hay, "not installed"@),
{
    reveal_strlit("not installed");
    assert forall|i: int| !occurs_at(hay, "not installed"@, i) by {
        if occurs_at(hay, "not installed"@, i) {
            assert(hay.subrange(i, i + 13)[2] == "not installed"@[2]);
            assert(hay[i + 2] == 't');
        }
    }
}

proof fn lemma_fixed_messages_not_missing()
    ensures
        !contains_text(failed_message(), "not installed"@),
        !contains_text(disabled_message(), "not installed"@),
        contains_text(not_installed_message(), "not installed"@),
{
    reveal_strlit("aerospace command failed");
    reveal_strlit("AeroSpace server is disabled. Run `aerospace enable on`.");
    reveal_strlit("AeroSpace is not installed.");
    reveal_strlit("not installed");
    let f = failed_message();
    assert forall|j: int| 0 <= j < f.len() implies f[j] != 't' by {
        assert(f.len() == 24);
            if j == 0 {
            } else if j == 1 {
            } else if j == 2 {
            } else if j == 3 {
            } else if j == 4 {
            } else if j == 5 {
            } else if j == 6 {
            } else if j == 7 {
            } else if j == 8 {
            } else if j == 9 {
            } else if j == 10 {
            } else if j == 11 {
            } else if j == 12 {
            } else if j == 13 {
            } else if j == 14 {
            } else if j == 15 {
            } else if j == 16 {
            } else if j == 17 {
            } else if j == 18 {
            } else if j == 19 {
            } else if j == 20 {
            } else if j == 21 {
            } else if j == 22 {
            } else if j == 23 {
            }
    }
    lemma_no_t_no_not_installed(f);
    let d = disabled_message();
    assert forall|j: int| 0 <= j < d.len() implies d[j] != 't' by {
        assert(d.len() == 56);
            if j == 0 {
            } else if j == 1 {
            } else if j == 2 {
            } else if j == 3 {
            } else if j == 4 {
            } else if j == 5 {
            } else if j == 6 {
            } else if j == 7 {
            } else if j == 8 {
            } else if j == 9 {
            } else if j == 10 {
            } else if j == 11 {
            } else if j == 12 {
            } else if j == 13 {
            } else if j == 14 {
            } else if j == 15 {
            } else if j == 16 {
            } else if j == 17 {
            } else if j == 18 {
            } else if j == 19 {
            } else if j == 20 {
            } else if j == 21 {
            } else if j == 22 {
            } else if j == 23 {
            } else if j == 24 {
            } else if j == 25 {
            } else if j == 26 {
            } else if j == 27 {
            } else if j == 28 {
            } else if j == 29 {
            } else if j == 30 {
            } else if j == 31 {
            } else if j == 32 {
            } else if j == 33 {
            } else if j == 34 {
            } else if j == 35 {
            } else if j == 36 {
            } else if j == 37 {
            } else if j == 38 {
            } else if j == 39 {
            } else if j == 40 {
            } else if j == 41 {
            } else if j == 42 {
            } else if j == 43 {
            } else if j == 44 {
            } else if j == 45 {
            } else if j == 46 {
            } else if j == 47 {
            } else if j == 48 {
            } else if j == 49 {
            } else if j == 50 {
            } else if j == 51 {
            } else if j == 52 {
            } else if j == 53 {
            } else if j == 54 {
            } else if j == 55 {
            }
    }
    lemma_no_t_no_not_installed(d);
    let n = not_installed_message();
    assert(n.subrange(13, 26) =~= "not installed"@);
    assert(occurs_at(n, "not installed"@, 13));
}


/// What a probe reports about the install: a missing executable means not
/// installed; a probe that ran and succeeded means installed with the server
/// on; a probe that ran and failed means the server is not usable, yet the
/// tool counts as installed unless its error output itself says "not
/// installed".
pub proof fn probe_reports_install_state(o: RunOutcome)
    ensures
        ({
            let (installed, enabled, message) = status_spec(command_result_spec(o));
            &&& o is NotFound ==> !installed && !enabled && message is Some
            &&& o matches RunOutcome::Exited { success, stderr, .. } ==> {
                &&& success ==> installed && enabled && message is None
                &&& !success ==> !enabled && message is Some
                &&& (!success && !contains_text(lossy_utf8(stderr@), "not installed"@)) ==> installed
            }
        }),
{
    lemma_fixed_messages_not_missing();
    if let RunOutcome::Exited { success, stdout, stderr } = o {
        lemma_trimmed_occurrence(lossy_utf8(stderr@), "not installed"@);
    }
}

} // verus!
