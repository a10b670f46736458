//! Construction of tmux invocations: the `send-keys` argument lists, their
//! rendering as remote shell lines, the control-mode attach command, the
//! login-shell wrapper, and the small window helpers of the listings.
use crate::digits::dec_digits;
use crate::digits::parse_u32;
use crate::digits::spec_parse_u32;
use crate::digits::u32_to_dec;
use crate::escape::escape_arg;
use crate::escape::shell_escaped;
use crate::textutil::trim_str;
use crate::textutil::trimmed_of;
use vstd::prelude::*;

verus! {

/// One tmux invocation, as its argument list.
#[derive(Debug, Clone, PartialEq, Eq)]
pub struct TmuxCommand {
    pub args: Vec<String>,
}

/// One window of a tmux session as the listing reports it.
#[derive(Debug, Clone, PartialEq, Eq)]
pub struct TmuxWindow {
    pub index: u32,
    pub id: String,
    pub name: String,
    pub active: bool,
    pub panes: u32,
}

/// One tmux session as the listing reports it.
#[derive(Debug, Clone, PartialEq, Eq)]
pub struct TmuxSession {
    pub name: String,
    pub windows: u32,
    pub attached: bool,
}

/// The arguments of a `send-keys` that types `keys` literally at `target`.
pub open spec fn send_keys_literal_args(target: Seq<char>, keys: Seq<char>) -> Seq<Seq<char>> {
    seq!["send-keys"@, "-t"@, target, "-l"@, keys]
}

/// The arguments of a `send-keys` that presses Enter at `target`.
pub open spec fn send_keys_enter_args(target: Seq<char>) -> Seq<Seq<char>> {
    seq!["send-keys"@, "-t"@, target, "Enter"@]
}

/// Build the `send-keys` invocations that type `keys` literally at `target`,
/// followed, when asked, by one that presses Enter.
pub fn build_tmux_send_keys_commands(target: &str, keys: &str, with_enter: bool) -> (r: Vec<
    TmuxCommand,
>)
    ensures
        r@.len() == (if with_enter {
            2int
        } else {
            1int
        }),
        r@[0].args.deep_view() == send_keys_literal_args(target@, keys@),
        with_enter ==> r@[1].args.deep_view() == send_keys_enter_args(target@),
{
    let mut first_args: Vec<String> = Vec::new();
    first_args.push("send-keys".to_owned());
    first_args.push("-t".to_owned());
    first_args.push(target.to_owned());
    first_args.push("-l".to_owned());
    first_args.push(keys.to_owned());
    proof {
        assert(first_args.deep_view() =~= send_keys_literal_args(target@, keys@));
    }
    let mut r: Vec<TmuxCommand> = Vec::new();
    r.push(TmuxCommand { args: first_args });
    if with_enter {
        let mut second_args: Vec<String> = Vec::new();
        second_args.push("send-keys".to_owned());
        second_args.push("-t".to_owned());
        second_args.push(target.to_owned());
        second_args.push("Enter".to_owned());
        proof {
            assert(second_args.deep_view() =~= send_keys_enter_args(target@));
        }
        r.push(TmuxCommand { args: second_args });
    }
    r
}

/// The escaped arguments, joined by single spaces.
pub open spec fn joined_escaped(args: Seq<Seq<char>>) -> Seq<char>
    decreases args.len(),
{
    if args.len() == 0 {
        Seq::empty()
    } else if args.len() == 1 {
        shell_escaped(args[0])
    } else {
        joined_escaped(args.drop_last()) + seq![' '] + shell_escaped(args.last())
    }
}

/// The line that runs one tmux invocation on the remote shell.
pub open spec fn remote_tmux_line(args: Seq<Seq<char>>) -> Seq<char> {
    "tmux "@ + joined_escaped(args)
}

/// Render one tmux invocation as a remote shell line: `tmux`, then each
/// argument quoted for the shell, separated by spaces.
pub fn format_remote_tmux_command(command: &TmuxCommand) -> (r: String)
    ensures
        r@ == remote_tmux_line(command.args.deep_view()),
{
    proof {
        reveal_strlit(" ");
        assert((" ")@ =~= seq![' ']);
    }
    let mut out: String = "tmux ".to_owned();
    let n: usize = command.args.len();
    let mut i: usize = 0;
    while i < n
        invariant
            0 <= i <= n,
            n == command.args@.len(),
            (" ")@ == seq![' '],
            out@ == "tmux "@ + joined_escaped(command.args.deep_view().take(i as int)),
        decreases n - i,
    {
        if i > 0 {
            out.append(" ");
        }
        let e = escape_arg(command.args[i].as_str());
        out.append(e.as_str());
        proof {
            let dv = command.args.deep_view();
            assert(dv.take(i as int + 1).drop_last() =~= dv.take(i as int));
            assert(dv.take(i as int + 1).last() == dv[i as int]);
            assert(dv[i as int] == command.args@[i as int]@);
            if i == 0 {
                assert(joined_escaped(dv.take(1)) == shell_escaped(dv[0]));
                assert(out@ =~= "tmux "@ + joined_escaped(dv.take(1)));
            } else {
                assert(out@ =~= "tmux "@ + joined_escaped(dv.take(i as int + 1)));
            }
        }
        i = i + 1;
    }
    proof {
        assert(command.args.deep_view().take(n as int) =~= command.args.deep_view());
    }
    out
}

/// The remote command that attaches one tmux session in control mode.
pub open spec fn attach_line(session: Seq<char>) -> Seq<char> {
    "tmux -CC attach-session -t "@ + shell_escaped(session)
}

/// Build the remote command that attaches `session` in control mode, the
/// session name quoted for the shell.
pub fn attach_command(session: &str) -> (r: String)
    ensures
        r@ == attach_line(session@),
{
    let mut out: String = "tmux -CC attach-session -t ".to_owned();
    let e = escape_arg(session);
    out.append(e.as_str());
    out
}

/// The fixed prelude a one-shot remote command runs behind: a scrubbed
/// environment, then the login profile.
pub open spec fn remote_prelude() -> Seq<char> {
    "unset BASH_ENV TMUX PROMPT_COMMAND PS1; if [ -f /etc/profile ]; then source /etc/profile; fi"@
}

/// The login-shell line that runs a raw remote command behind the prelude.
pub open spec fn login_shell_line(raw: Seq<char>) -> Seq<char> {
    "bash -lc "@ + shell_escaped(remote_prelude() + "; "@ + raw)
}

/// Wrap a raw remote command to run under a login bash, the prelude chained
/// before it and the whole quoted for the shell.
pub fn wrap_login_shell(raw: &str) -> (r: String)
    ensures
        r@ == login_shell_line(raw@),
{
    let mut chained: String =
        "unset BASH_ENV TMUX PROMPT_COMMAND PS1; if [ -f /etc/profile ]; then source /etc/profile; fi".to_owned();
    chained.append("; ");
    chained.append(raw);
    let mut out: String = "bash -lc ".to_owned();
    let e = escape_arg(chained.as_str());
    out.append(e.as_str());
    out
}

/// Whether a window name is a placeholder the listing should replace: blank,
/// or just the window's own index.
pub fn is_placeholder_name(name: &str, index: u32) -> (r: bool)
    ensures
        r == ({
            let t = trimmed_of(name@);
            t.len() == 0 || spec_parse_u32(t) == Some(index)
        }),
{
    let t = trim_str(name);
    if t.unicode_len() == 0 {
        true
    } else {
        match parse_u32(t) {
            Some(n) => n == index,
            None => false,
        }
    }
}

/// The pane target of a window: its id when it has one, else
/// `session:index`.
pub fn tmux_target(session: &str, window: &TmuxWindow) -> (r: String)
    ensures
        r@ == ({
            let t = trimmed_of(window.id@);
            if t.len() > 0 {
                t
            } else {
                session@ + seq![':'] + dec_digits(window.index as nat)
            }
        }),
{
    let t = trim_str(window.id.as_str());
    if t.unicode_len() > 0 {
        t.to_owned()
    } else {
        proof {
            reveal_strlit(":");
            assert((":")@ =~= seq![':']);
        }
        let mut r = session.to_owned();
        r.append(":");
        let digits = u32_to_dec(window.index);
        r.append(digits.as_str());
        r
    }
}

/// The id a window without one is given: `session:index`.
pub open spec fn filled_id(w: TmuxWindow, session: Seq<char>) -> Seq<char> {
    if trimmed_of(w.id@).len() == 0 {
        session + seq![':'] + dec_digits(w.index as nat)
    } else {
        w.id@
    }
}

/// Whether one window of the result is the matching input window with its
/// blank id filled in and everything else kept.
pub open spec fn window_id_filled(w2: TmuxWindow, w: TmuxWindow, session: Seq<char>) -> bool {
    &&& w2.index == w.index
    &&& w2.name == w.name
    &&& w2.active == w.active
    &&& w2.panes == w.panes
    &&& w2.id@ == filled_id(w, session)
}

/// Give every window with a blank id the synthetic id `session:index`,
/// leaving everything else as it is.
pub fn ensure_window_ids(session: &str, windows: &mut Vec<TmuxWindow>)
    ensures
        final(windows)@.len() == old(windows)@.len(),
        forall|i: int|
            0 <= i < old(windows)@.len() ==> window_id_filled(
                #[trigger] final(windows)@[i],
                old(windows)@[i],
                session@,
            ),
{
    let ghost orig = windows@;
    let n: usize = windows.len();
    let mut i: usize = 0;
    while i < n
        invariant
            0 <= i <= n,
            windows@.len() == n,
            orig.len() == n,
            forall|j: int|
                0 <= j < i ==> window_id_filled(#[trigger] windows@[j], orig[j], session@),
            forall|j: int| i <= j < n ==> #[trigger] windows@[j] == orig[j],
        decreases n - i,
    {
        let needs_id: bool = {
            let t = trim_str(windows[i].id.as_str());
            t.unicode_len() == 0
        };
        if needs_id {
            let ghost pre = windows@;
            let mut e = windows.remove(i);
            proof {
                reveal_strlit(":");
                assert((":")@ =~= seq![':']);
            }
            let mut id = session.to_owned();
            id.append(":");
            let digits = u32_to_dec(e.index);
            id.append(digits.as_str());
            e.id = id;
            windows.insert(i, e);
            proof {
                assert(windows@ =~= pre.update(i as int, e));
            }
        }
        i = i + 1;
    }
}

} // verus!
