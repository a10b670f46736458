use remote_mux::digits::parse_u32;
use remote_mux::digits::u32_to_dec;
use remote_mux::listing::hydrated_name;
use remote_mux::listing::parse_session_line;
use remote_mux::listing::parse_window_line;
use remote_mux::listing::split_fields;
use remote_mux::remotecmd::capture_pane_command;
use remote_mux::remotecmd::kill_session_command;
use remote_mux::remotecmd::kill_window_command;
use remote_mux::remotecmd::list_sessions_command;
use remote_mux::remotecmd::list_windows_command;
use remote_mux::remotecmd::new_session_command;
use remote_mux::remotecmd::new_window_command;
use remote_mux::remotecmd::ping_command;
use remote_mux::remotecmd::remote_window_target;
use remote_mux::remotecmd::rename_session_command;
use remote_mux::remotecmd::rename_window_command;
use remote_mux::remotecmd::window_name_probe_command;
use remote_mux::tmuxcmd::attach_command;
use remote_mux::tmuxcmd::build_tmux_send_keys_commands;
use remote_mux::tmuxcmd::ensure_window_ids;
use remote_mux::tmuxcmd::format_remote_tmux_command;
use remote_mux::tmuxcmd::is_placeholder_name;
use remote_mux::tmuxcmd::tmux_target;
use remote_mux::tmuxcmd::wrap_login_shell;
use remote_mux::tmuxcmd::TmuxCommand;
use remote_mux::tmuxcmd::TmuxWindow;
use remote_mux::validate::python_version_line;

#[test]
fn build_commands_include_enter_when_requested() {
    let commands = build_tmux_send_keys_commands("arc:0", "ls -la", true);
    assert_eq!(
        commands,
        vec![
            TmuxCommand {
                args: vec![
                    "send-keys".into(),
                    "-t".into(),
                    "arc:0".into(),
                    "-l".into(),
                    "ls -la".into(),
                ],
            },
            TmuxCommand {
                args: vec![
                    "send-keys".into(),
                    "-t".into(),
                    "arc:0".into(),
                    "Enter".into(),
                ],
            },
        ]
    );
}

#[test]
fn build_commands_omit_enter_when_not_requested() {
    let commands = build_tmux_send_keys_commands("arc:1", "whoami", false);
    assert_eq!(
        commands,
        vec![TmuxCommand {
            args: vec![
                "send-keys".into(),
                "-t".into(),
                "arc:1".into(),
                "-l".into(),
                "whoami".into(),
            ],
        }]
    );
}

#[test]
fn remote_format_escapes_arguments() {
    let commands = build_tmux_send_keys_commands("pane @1", "echo 'hi'", true);
    let literal = format_remote_tmux_command(&commands[0]);
    let enter = format_remote_tmux_command(&commands[1]);
    assert_eq!(literal, "tmux send-keys -t 'pane @1' -l 'echo '\\''hi'\\'''");
    assert_eq!(enter, "tmux send-keys -t 'pane @1' Enter");
}

#[test]
fn format_handles_empty_argument_list() {
    let command = TmuxCommand { args: vec![] };
    assert_eq!(format_remote_tmux_command(&command), "tmux ");
}

#[test]
fn attach_command_quotes_session() {
    assert_eq!(attach_command("work"), "tmux -CC attach-session -t work");
    assert_eq!(
        attach_command("my session"),
        "tmux -CC attach-session -t 'my session'"
    );
}

#[test]
fn wrap_login_shell_quotes_whole_chain() {
    let wrapped = wrap_login_shell("tmux start-server");
    assert_eq!(
        wrapped,
        "bash -lc 'unset BASH_ENV TMUX PROMPT_COMMAND PS1; if [ -f /etc/profile ]; \
         then source /etc/profile; fi; tmux start-server'"
    );
}

#[test]
fn placeholder_names_are_blank_or_own_index() {
    assert!(is_placeholder_name("", 4));
    assert!(is_placeholder_name("   ", 4));
    assert!(is_placeholder_name(" 4 ", 4));
    assert!(is_placeholder_name("+4", 4));
    assert!(!is_placeholder_name("5", 4));
    assert!(!is_placeholder_name("logs", 4));
}

#[test]
fn target_prefers_trimmed_id() {
    let with_id = TmuxWindow {
        index: 3,
        id: " @7 ".into(),
        name: "logs".into(),
        active: false,
        panes: 1,
    };
    assert_eq!(tmux_target("work", &with_id), "@7");
    let without_id = TmuxWindow {
        index: 3,
        id: "  ".into(),
        name: "logs".into(),
        active: false,
        panes: 1,
    };
    assert_eq!(tmux_target("work", &without_id), "work:3");
}

#[test]
fn ensure_window_ids_fills_blanks_only() {
    let mut windows = vec![
        TmuxWindow {
            index: 0,
            id: "@1".into(),
            name: "a".into(),
            active: true,
            panes: 2,
        },
        TmuxWindow {
            index: 1,
            id: "".into(),
            name: "b".into(),
            active: false,
            panes: 1,
        },
    ];
    ensure_window_ids("arc", &mut windows);
    assert_eq!(windows[0].id, "@1");
    assert_eq!(windows[1].id, "arc:1");
    assert_eq!(windows[1].name, "b");
}

#[test]
fn decimal_rendering_and_parsing() {
    assert_eq!(u32_to_dec(0), "0");
    assert_eq!(u32_to_dec(22), "22");
    assert_eq!(u32_to_dec(65535), "65535");
    assert_eq!(u32_to_dec(4294967295), "4294967295");
    assert_eq!(parse_u32("0"), Some(0));
    assert_eq!(parse_u32("+17"), Some(17));
    assert_eq!(parse_u32("4294967295"), Some(4294967295));
    assert_eq!(parse_u32("4294967296"), None);
    assert_eq!(parse_u32(""), None);
    assert_eq!(parse_u32("+"), None);
    assert_eq!(parse_u32("1a"), None);
    assert_eq!(parse_u32(" 1"), None);
}

#[test]
fn split_fields_keeps_empty_segments() {
    let fields = split_fields("a|b|c");
    assert_eq!(fields, vec!["a", "b", "c"]);
    assert_eq!(split_fields(""), vec![""]);
    assert_eq!(split_fields("x|"), vec!["x", ""]);
    assert_eq!(split_fields("|x"), vec!["", "x"]);
}

#[test]
fn window_line_parses_fields_and_defaults() {
    let w = parse_window_line("2|@5|build\r|1|3");
    assert_eq!(w.index, 2);
    assert_eq!(w.id, "@5");
    assert_eq!(w.name, "build");
    assert!(w.active);
    assert_eq!(w.panes, 3);
    let d = parse_window_line("oops");
    assert_eq!(d.index, 0);
    assert_eq!(d.id, "");
    assert_eq!(d.name, "");
    assert!(!d.active);
    assert_eq!(d.panes, 1);
}

#[test]
fn session_line_parses_fields_and_defaults() {
    let s = parse_session_line("work|4|1");
    assert_eq!(s.name, "work");
    assert_eq!(s.windows, 4);
    assert!(s.attached);
    let d = parse_session_line("idle|zero|0");
    assert_eq!(d.name, "idle");
    assert_eq!(d.windows, 0);
    assert!(!d.attached);
}

#[test]
fn remote_commands_quote_what_the_shell_needs() {
    assert_eq!(
        list_sessions_command(),
        "tmux list-sessions -F \"#S|#{session_windows}|#{?session_attached,1,0}\""
    );
    assert_eq!(
        list_windows_command("my session"),
        "tmux list-windows -t 'my session' -F \
         '#{window_index}|#{window_id}|#{window_name}|#{?window_active,1,0}|#{window_panes}'"
    );
    assert_eq!(
        window_name_probe_command("work:0"),
        "tmux display-message -p -t 'work:0' -F '#{window_name}'"
    );
    assert_eq!(
        capture_pane_command("@3", 200),
        "tmux capture-pane -p -t @3 -S -200 -e -J"
    );
    assert_eq!(remote_window_target("my session", 2, None), "'my session':2");
    assert_eq!(remote_window_target("work", 2, Some("@9")), "@9");
    assert_eq!(
        new_window_command("work", Some("logs"), Some("top")),
        "tmux new-window -P -F '#{window_id}' -t work -n logs top"
    );
    assert_eq!(
        new_window_command("work", None, None),
        "tmux new-window -P -F '#{window_id}' -t work"
    );
    assert_eq!(kill_window_command("work:1"), "tmux kill-window -t work:1");
    assert_eq!(
        rename_window_command("work:1", "new name"),
        "tmux rename-window -t work:1 'new name'"
    );
    assert_eq!(new_session_command("a b"), "tmux new-session -d -s 'a b'");
    assert_eq!(
        rename_session_command("old", "new one"),
        "tmux rename-session -t old 'new one'"
    );
    assert_eq!(kill_session_command("work"), "tmux kill-session -t work");
    assert_eq!(ping_command(), "whoami && tmux -V || true");
}

#[test]
fn snapshot_runs_listing_marker_and_capture() {
    let cmd = remote_mux::remotecmd::snapshot_command("work", Some(1), None, 200);
    assert_eq!(
        cmd,
        "tmux list-windows -t work -F \
         '#{window_index}|#{window_id}|#{window_name}|#{?window_active,1,0}|#{window_panes}' \
         && printf '\\n__ARC_SPLIT__\\n' && tmux capture-pane -p -t work:1 -S -200 -e -J"
    );
    let by_id = remote_mux::remotecmd::snapshot_command("work", Some(1), Some("@4"), 50);
    assert!(by_id.ends_with("tmux capture-pane -p -t @4 -S -50 -e -J"));
    let active = remote_mux::remotecmd::snapshot_command("work", None, None, 50);
    assert!(active.ends_with("tmux capture-pane -p -t work: -S -50 -e -J"));
}

#[test]
fn marker_split_takes_first_occurrence() {
    let split = remote_mux::listing::split_once_at("alpha\n__ARC_SPLIT__\nbeta", "\n__ARC_SPLIT__\n");
    assert_eq!(split, Some(("alpha".to_string(), "beta".to_string())));
    let twice = remote_mux::listing::split_once_at("a|b|c", "|");
    assert_eq!(twice, Some(("a".to_string(), "b|c".to_string())));
    assert_eq!(remote_mux::listing::split_once_at("plain", "|"), None);
}

#[test]
fn python_version_reads_either_stream() {
    assert_eq!(
        python_version_line("Python 3.11.4\n", ""),
        Some("Python 3.11.4".to_string())
    );
    assert_eq!(
        python_version_line("", "Python 2.7.18\r\n"),
        Some("Python 2.7.18".to_string())
    );
    assert_eq!(python_version_line("not python", ""), None);
    assert_eq!(python_version_line("", ""), None);
}

#[test]
fn probe_output_replaces_placeholder_only_when_clean() {
    assert_eq!(hydrated_name(0, "build\r\n"), Some("build".to_string()));
    assert_eq!(hydrated_name(0, "  spaced  \n"), Some("spaced".to_string()));
    assert_eq!(hydrated_name(0, "\r\n"), None);
    assert_eq!(hydrated_name(1, "build\n"), None);
}
