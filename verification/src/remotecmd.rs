//! The remote command lines the one-shot executor dispatches for the tmux
//! surface: each builder quotes exactly what the matching call quotes and
//! leaves alone what it leaves alone (pre-quoted targets, raw shell
//! commands).
use crate::digits::dec_digits;
use crate::digits::u32_to_dec;
use crate::escape::escape_arg;
use crate::escape::shell_escaped;
use vstd::prelude::*;

verus! {

/// The remote session listing command, fields separated by `|`.
pub fn list_sessions_command() -> (r: String)
    ensures
        r@ == ("tmux list-sessions -F \"#S|#{session_windows}|#{?session_attached,1,0}\"")@,
{
    "tmux list-sessions -F \"#S|#{session_windows}|#{?session_attached,1,0}\"".to_owned()
}

/// The remote window listing command for one session, fields separated by
/// `|`.
pub fn list_windows_command(session: &str) -> (r: String)
    ensures
        r@ == ("tmux list-windows -t ")@ + shell_escaped(session@) + (
        " -F '#{window_index}|#{window_id}|#{window_name}|#{?window_active,1,0}|#{window_panes}'")@,
{
    let mut out: String = "tmux list-windows -t ".to_owned();
    let e = escape_arg(session);
    out.append(e.as_str());
    out.append(
        " -F '#{window_index}|#{window_id}|#{window_name}|#{?window_active,1,0}|#{window_panes}'",
    );
    out
}

/// The probe that asks one window for its real name.
pub fn window_name_probe_command(target: &str) -> (r: String)
    ensures
        r@ == ("tmux display-message -p -t ")@ + shell_escaped(target@) + (
        " -F '#{window_name}'")@,
{
    let mut out: String = "tmux display-message -p -t ".to_owned();
    let e = escape_arg(target);
    out.append(e.as_str());
    out.append(" -F '#{window_name}'");
    out
}

/// The target a remote pane command addresses: the window id when one is
/// known, else the quoted session and the window index.
pub fn remote_window_target(session: &str, index: u32, window_id: Option<&str>) -> (r: String)
    ensures
        r@ == (match window_id {
            Some(id) => id@,
            None => shell_escaped(session@) + seq![':'] + dec_digits(index as nat),
        }),
{
    match window_id {
        Some(id) => id.to_owned(),
        None => {
            proof {
                reveal_strlit(":");
                assert((":")@ =~= seq![':']);
            }
            let mut out = escape_arg(session);
            out.append(":");
            let digits = u32_to_dec(index);
            out.append(digits.as_str());
            out
        },
    }
}

/// The capture command for one pane: the last `lines` lines, escapes kept,
/// wrapped lines joined. The target is taken as it is: it is a window id or
/// already quoted.
pub fn capture_pane_command(target: &str, lines: u32) -> (r: String)
    ensures
        r@ == ("tmux capture-pane -p -t ")@ + target@ + (" -S -")@ + dec_digits(lines as nat) + (
        " -e -J")@,
{
    let mut out: String = "tmux capture-pane -p -t ".to_owned();
    out.append(target);
    out.append(" -S -");
    let digits = u32_to_dec(lines);
    out.append(digits.as_str());
    out.append(" -e -J");
    out
}

/// The command that creates a window in a session, printing the new
/// window's id; an optional name is quoted, an optional shell command is
/// appended as it is.
pub fn new_window_command(session: &str, name: Option<&str>, cmd: Option<&str>) -> (r: String)
    ensures
        r@ == ("tmux new-window -P -F '#{window_id}' -t ")@ + shell_escaped(session@) + (
        match name {
            Some(n) => (" -n ")@ + shell_escaped(n@),
            None => Seq::<char>::empty(),
        }) + (match cmd {
            Some(c) => seq![' '] + c@,
            None => Seq::<char>::empty(),
        }),
{
    proof {
        reveal_strlit(" ");
        assert((" ")@ =~= seq![' ']);
    }
    let mut out: String = "tmux new-window -P -F '#{window_id}' -t ".to_owned();
    let e = escape_arg(session);
    out.append(e.as_str());
    match name {
        Some(n) => {
            out.append(" -n ");
            let en = escape_arg(n);
            out.append(en.as_str());
        },
        None => {},
    }
    match cmd {
        Some(c) => {
            out.append(" ");
            out.append(c);
        },
        None => {},
    }
    out
}

/// The single remote command of a snapshot: the window listing, a marker
/// line, then the capture of one pane — the active one when no index is
/// given — so that one round trip fetches both.
pub fn snapshot_command(
    session: &str,
    window_index: Option<u32>,
    window_id: Option<&str>,
    lines: u32,
) -> (r: String)
    ensures
        r@ == ("tmux list-windows -t ")@ + shell_escaped(session@) + (
        " -F '#{window_index}|#{window_id}|#{window_name}|#{?window_active,1,0}|#{window_panes}' && printf '\\n__ARC_SPLIT__\\n' && tmux capture-pane -p -t ")@
            + (match window_id {
            Some(id) => id@,
            None => (match window_index {
                Some(i) => shell_escaped(session@) + seq![':'] + dec_digits(i as nat),
                None => shell_escaped(session@) + seq![':'],
            }),
        }) + (" -S -")@ + dec_digits(lines as nat) + (" -e -J")@,
{
    proof {
        reveal_strlit(":");
        assert((":")@ =~= seq![':']);
    }
    let mut out: String = "tmux list-windows -t ".to_owned();
    let e = escape_arg(session);
    out.append(e.as_str());
    out.append(
        " -F '#{window_index}|#{window_id}|#{window_name}|#{?window_active,1,0}|#{window_panes}' && printf '\\n__ARC_SPLIT__\\n' && tmux capture-pane -p -t ",
    );
    match window_id {
        Some(id) => {
            out.append(id);
        },
        None => {
            let es = escape_arg(session);
            out.append(es.as_str());
            out.append(":");
            match window_index {
                Some(i) => {
                    let digits = u32_to_dec(i);
                    out.append(digits.as_str());
                },
                None => {},
            }
        },
    }
    out.append(" -S -");
    let digits = u32_to_dec(lines);
    out.append(digits.as_str());
    out.append(" -e -J");
    out
}

/// The command that switches automatic renaming off for a window, addressed
/// by its id or target as it is.
pub fn automatic_rename_off_command(target: &str) -> (r: String)
    ensures
        r@ == ("tmux set-window-option -t ")@ + target@ + (" automatic-rename off")@,
{
    let mut out: String = "tmux set-window-option -t ".to_owned();
    out.append(target);
    out.append(" automatic-rename off");
    out
}

/// The command that kills one window, addressed as it is.
pub fn kill_window_command(target: &str) -> (r: String)
    ensures
        r@ == ("tmux kill-window -t ")@ + target@,
{
    let mut out: String = "tmux kill-window -t ".to_owned();
    out.append(target);
    out
}

/// The command that renames one window, the new name quoted.
pub fn rename_window_command(target: &str, new_name: &str) -> (r: String)
    ensures
        r@ == ("tmux rename-window -t ")@ + target@ + seq![' '] + shell_escaped(new_name@),
{
    proof {
        reveal_strlit(" ");
        assert((" ")@ =~= seq![' ']);
    }
    let mut out: String = "tmux rename-window -t ".to_owned();
    out.append(target);
    out.append(" ");
    let e = escape_arg(new_name);
    out.append(e.as_str());
    out
}

/// The command that starts the remote tmux server.
pub fn start_server_command() -> (r: String)
    ensures
        r@ == ("tmux start-server")@,
{
    "tmux start-server".to_owned()
}

/// The command that creates a detached session, its name quoted.
pub fn new_session_command(session: &str) -> (r: String)
    ensures
        r@ == ("tmux new-session -d -s ")@ + shell_escaped(session@),
{
    let mut out: String = "tmux new-session -d -s ".to_owned();
    let e = escape_arg(session);
    out.append(e.as_str());
    out
}

/// The command that renames a session, both names quoted.
pub fn rename_session_command(session: &str, new_name: &str) -> (r: String)
    ensures
        r@ == ("tmux rename-session -t ")@ + shell_escaped(session@) + seq![' '] + shell_escaped(
            new_name@,
        ),
{
    proof {
        reveal_strlit(" ");
        assert((" ")@ =~= seq![' ']);
    }
    let mut out: String = "tmux rename-session -t ".to_owned();
    let e = escape_arg(session);
    out.append(e.as_str());
    out.append(" ");
    let en = escape_arg(new_name);
    out.append(en.as_str());
    out
}

/// The command that kills a session, its name quoted.
pub fn kill_session_command(session: &str) -> (r: String)
    ensures
        r@ == ("tmux kill-session -t ")@ + shell_escaped(session@),
{
    let mut out: String = "tmux kill-session -t ".to_owned();
    let e = escape_arg(session);
    out.append(e.as_str());
    out
}

/// The liveness probe of the remote side: who am I, and which tmux, never
/// failing the shell.
pub fn ping_command() -> (r: String)
    ensures
        r@ == ("whoami && tmux -V || true")@,
{
    "whoami && tmux -V || true".to_owned()
}

} // verus!
