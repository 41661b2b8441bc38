use taurus::backup::Game;
use taurus::bridge::{
    chat_targets, collect_frame, escape_formatting, find_game, find_rcon, gen_pipe, pipe_path,
    poll_round, read_line, replace_formatting, set_lines, update_messages, Bridge, Host, Session,
};
use taurus::config::Rcon;

fn s(text: &str) -> String {
    text.to_string()
}

fn game(chat_bridge: Option<bool>) -> Game {
    Game {
        file_path: Some(s("/srv/world")),
        backup_path: None,
        backup_interval: None,
        backup_keep: None,
        hourly_slots: None,
        daily_slots: None,
        weekly_slots: None,
        monthly_slots: None,
        in_game_cmd: None,
        chat_bridge,
    }
}

fn session(name: &str, game: Option<Game>, rcon: bool) -> Session {
    Session {
        name: s(name),
        description: None,
        host: s("tmux"),
        game,
        rcon: if rcon { Some(Rcon { ip: None, port: 25575, password: s("pw") }) } else { None },
    }
}

fn bridge(name: &str, line: usize, enabled: Option<bool>, state: bool) -> Bridge {
    Bridge { name: s(name), line, enabled, state }
}

#[test]
fn chat_classification() {
    let mut b = bridge("srv1", 0, Some(true), true);
    let log = vec![s("[12:34:56] [Server thread/INFO]: <alice> hello")];
    let poll = update_messages(&mut b, &log);
    assert_eq!(poll.message, Some(s("[srv1] <alice> hello\n")));
    assert!(!poll.reset);
    assert_eq!(b.line, 1);
    assert!(b.state);
    let frame = collect_frame(&vec![poll.message.unwrap()]);
    assert_eq!(frame, Some(s("MSG [srv1] <alice> hello")));
}

#[test]
fn lines_already_read_are_not_read_again() {
    let mut b = bridge("srv1", 1, Some(true), true);
    let log = vec![
        s("[12:34:56] [Server thread/INFO]: <alice> hello"),
        s("[12:34:57] [Server thread/INFO]: <bob> hi"),
    ];
    let poll = update_messages(&mut b, &log);
    assert_eq!(poll.message, Some(s("[srv1] <bob> hi\n")));
    assert_eq!(b.line, 2);
    let again = update_messages(&mut b, &log);
    assert_eq!(again.message, None);
    assert_eq!(b.line, 2);
}

#[test]
fn a_shorter_log_leaves_the_count() {
    let mut b = bridge("srv1", 5, Some(true), true);
    let log = vec![s("[12:34:56] [Server thread/INFO]: <alice> hello")];
    let poll = update_messages(&mut b, &log);
    assert_eq!(poll.message, None);
    assert!(!poll.reset);
    assert_eq!(b.line, 5);
}

#[test]
fn joining_and_leaving_are_relayed() {
    let mut b = bridge("srv1", 0, Some(true), true);
    let log = vec![
        s("[01:02:03] [Server thread/INFO]: alice joined the game"),
        s("[01:02:04] [Server thread/INFO]: Bob the Builder left the game"),
    ];
    let poll = update_messages(&mut b, &log);
    assert_eq!(
        poll.message,
        Some(s("[srv1] alice joined the game\n[srv1] Bob the Builder left the game\n"))
    );
}

#[test]
fn other_lines_are_not_relayed() {
    let mut b = bridge("srv1", 0, Some(true), true);
    let log = vec![
        s("[01:02:03] [Server thread/INFO]: Saving the game (this may take a moment!)"),
        s("[01:02:03] [Server thread/WARN]: <alice> hello"),
        s("[1:02:03] [Server thread/INFO]: <alice> hello"),
        s("<alice> hello"),
        s("[01:02:03] [Server thread/INFO]: alice joined the game again"),
        s(""),
    ];
    let poll = update_messages(&mut b, &log);
    assert_eq!(poll.message, None);
    assert_eq!(b.line, 6);
}

#[test]
fn player_lists_are_relayed_as_they_are() {
    let mut b = bridge("srv1", 0, Some(true), true);
    let log =
        vec![s("[01:02:03] [Server thread/INFO]: There are 2 of a max of 20 players online: a, b")];
    let poll = update_messages(&mut b, &log);
    assert_eq!(poll.message, Some(s("There are 2 of a max of 20 players online: a, b")));
    let mut c = bridge("srv1", 0, Some(true), true);
    let log = vec![s("[01:02:03] [Server thread/INFO]: alice has made the advancement [Stone Age]")];
    let poll = update_messages(&mut c, &log);
    assert_eq!(poll.message, Some(s("alice has made the advancement [Stone Age]")));
    let mut d = bridge("srv1", 0, Some(true), true);
    let log = vec![s("[01:02:03] [Server thread/INFO]: There are many of a max of 20 players online:")];
    assert_eq!(update_messages(&mut d, &log).message, None);
}

#[test]
fn stopping_and_starting() {
    let mut b = bridge("srv1", 0, Some(true), true);
    let log = vec![s("[01:02:03] [Server thread/INFO]: Stopping the server")];
    let poll = update_messages(&mut b, &log);
    assert_eq!(poll.message, None);
    assert!(!b.state);
    let log = vec![
        s("[01:02:03] [Server thread/INFO]: Stopping the server"),
        s("not a server line"),
    ];
    update_messages(&mut b, &log);
    assert!(!b.state);
    let log = vec![
        s("[01:02:03] [Server thread/INFO]: Stopping the server"),
        s("not a server line"),
        s("[01:03:00] [Server thread/INFO]: Starting minecraft server version 1.20"),
    ];
    let poll = update_messages(&mut b, &log);
    assert!(b.state);
    assert_eq!(poll.message, None);
    assert_eq!(b.line, 3);
}

#[test]
fn a_waiting_bridge_drops_lines() {
    let mut b = bridge("srv1", 0, Some(false), false);
    let log = vec![s("[12:34:56] [Server thread/INFO]: <alice> hello")];
    let poll = update_messages(&mut b, &log);
    assert_eq!(poll.message, None);
    assert!(!b.state);
    assert_eq!(b.enabled, Some(false));
    assert_eq!(b.line, 1);
}

#[test]
fn a_disabled_bridge_reads_nothing() {
    let mut b = bridge("srv1", 0, None, false);
    let log = vec![s("[12:34:56] [Server thread/INFO]: <alice> hello")];
    let poll = update_messages(&mut b, &log);
    assert_eq!(poll.message, None);
    assert!(!poll.reset);
    assert_eq!(b.line, 0);
    assert!(!b.state);
}

#[test]
fn pipe_reset() {
    let mut b = bridge("srv1", 0, Some(true), true);
    let log: Vec<String> = (0..8001).map(|i| format!("benign line {i}")).collect();
    let poll = update_messages(&mut b, &log);
    assert!(poll.reset);
    assert_eq!(b.line, 0);
    assert_eq!(poll.message, None);
}

#[test]
fn no_reset_at_the_limit() {
    let mut b = bridge("srv1", 0, Some(true), true);
    let log: Vec<String> = (0..8000).map(|i| format!("benign line {i}")).collect();
    let poll = update_messages(&mut b, &log);
    assert!(!poll.reset);
    assert_eq!(b.line, 8000);
}

#[test]
fn the_count_never_falls_without_a_reset() {
    let mut b = bridge("srv1", 0, Some(true), true);
    let mut log: Vec<String> = Vec::new();
    let mut last = 0;
    for round in 0..5 {
        for k in 0..round {
            log.push(format!("line {round} {k}"));
        }
        let poll = update_messages(&mut b, &log);
        assert!(!poll.reset);
        assert!(b.line >= last);
        assert_eq!(b.line, log.len());
        last = b.line;
    }
}

#[test]
fn read_line_takes_the_verdict_on_chat() {
    let mut b = bridge("srv1", 3, Some(true), false);
    let out = read_line(&mut b, "[12:34:56] [Server thread/INFO]: <alice> hello", true);
    assert_eq!(out, "[srv1] <alice> hello\n");
    assert!(b.state);
    assert_eq!(b.line, 3);
    let out = read_line(&mut b, "[12:34:56] [Server thread/INFO]: <alice> hello", false);
    assert_eq!(out, "");
    let out = read_line(&mut b, "short", true);
    assert_eq!(out, "[srv1] \n");
    let out = read_line(&mut b, "[12:34:56] [Server thread/INFO]: Stopping the server now", false);
    assert_eq!(out, "");
    assert!(!b.state);
}

#[test]
fn colour_codes_are_stripped() {
    assert_eq!(replace_formatting("\u{a7}ahello\u{a7}r world"), "hello world");
    assert_eq!(replace_formatting("abc\u{a7}"), "abc\u{a7}");
    assert_eq!(replace_formatting("a\u{a7}\nb"), "a\u{a7}\nb");
    assert_eq!(replace_formatting("\u{a7}\u{a7}\u{a7}x"), "");
    assert_eq!(replace_formatting("\u{a7}\u{a7}x"), "x");
    assert_eq!(replace_formatting("plain"), "plain");
}

#[test]
fn chat_is_escaped_for_the_clients() {
    assert_eq!(
        replace_formatting("\u{a7}6[srv]\u{a7}r a_b \"q\"\rz  \n"),
        "[srv] a\\_b \\\"q\\\"\\rz"
    );
    assert_eq!(escape_formatting("a_b \t\n"), "a\\_b");
    assert_eq!(escape_formatting("line one\nline two\n"), "line one\nline two");
    assert_eq!(escape_formatting("   "), "");
    assert_eq!(escape_formatting("x\u{3000}\u{2003}"), "x");
}

#[test]
fn frames_need_more_than_three_characters() {
    assert_eq!(collect_frame(&vec![]), None);
    assert_eq!(collect_frame(&vec![s("abc")]), None);
    assert_eq!(collect_frame(&vec![s("a"), s("b")]), None);
    assert_eq!(collect_frame(&vec![s("abcd")]), Some(s("MSG abcd")));
    assert_eq!(collect_frame(&vec![s("a"), s("bc")]), Some(s("MSG a\nbc")));
    assert_eq!(
        collect_frame(&vec![s("[a] <x> \u{a7}chi\n"), s("[b] <y> yo_\n")]),
        Some(s("MSG [a] <x> hi\n\n[b] <y> yo\\_"))
    );
}

#[test]
fn clear_formatting_writes_for_the_console() {
    assert_eq!(Session::clear_formatting("hello"), Some(s("hello")));
    assert_eq!(Session::clear_formatting("a\\b"), Some(s("ab")));
    assert_eq!(Session::clear_formatting("{x} \"y\"\n\r"), Some(s("{{x}} \\\"y\\\"\\n\\r")));
    assert_eq!(Session::clear_formatting(""), None);
    assert_eq!(Session::clear_formatting("\\\\"), None);
}

#[test]
fn chat_becomes_console_commands() {
    let srv2 = session("srv2", Some(game(Some(true))), false);
    assert_eq!(
        srv2.send_chat("MSG [srv1] <alice> hello", false),
        vec![s("tellraw @a { \"text\": \"[srv1] <alice> hello\" }")]
    );
    assert_eq!(
        srv2.send_chat("MSG [srv1] <a> one\n[srv3] <b> {two}\r\n\n[srv1] <c> \"three\"\n", false),
        vec![
            s("tellraw @a { \"text\": \"[srv1] <a> one\" }"),
            s("tellraw @a { \"text\": \"[srv3] <b> {{two}}\" }"),
            s("tellraw @a { \"text\": \"[srv1] <c> \\\"three\\\"\" }"),
        ]
    );
    assert_eq!(srv2.send_chat("", false), Vec::<String>::new());
    assert_eq!(
        srv2.send_chat("plain words", false),
        vec![s("tellraw @a { \"text\": \"plain words\" }")]
    );
}

#[test]
fn no_session_hears_its_own_chat() {
    let srv1 = session("srv1", Some(game(Some(true))), false);
    assert_eq!(srv1.send_chat("MSG [srv1] <alice> hello", false), Vec::<String>::new());
    assert_eq!(
        srv1.send_chat("MSG [srv1] <alice> hello\n[srv2] <bob> hi", false),
        vec![s("tellraw @a { \"text\": \"[srv2] <bob> hi\" }")]
    );
    let plain = session("lobby", None, false);
    assert_eq!(plain.send_chat("MSG [srv1] <alice> hello", false), Vec::<String>::new());
    assert_eq!(
        plain.send_chat("no sender", false),
        vec![s("tellraw @a { \"text\": \"no sender\" }")]
    );
}

#[test]
fn links_become_click_events() {
    let srv2 = session("srv2", Some(game(Some(true))), false);
    assert_eq!(
        srv2.send_chat("https://e.org/x.png look at this", true),
        vec![s(
            "tellraw @a { \"text\": \" look at this\", \"clickEvent\":{ \"action\": \"open_url\", \"value\": \"https://e.org/x.png\"} }"
        )]
    );
    assert_eq!(
        srv2.send_chat("https://e.org/x.png", true),
        vec![s(
            "tellraw @a { \"text\": \"attachment\", \"clickEvent\":{ \"action\": \"open_url\", \"value\": \"https://e.org/x.png\"} }"
        )]
    );
    assert_eq!(srv2.send_chat("   ", true), Vec::<String>::new());
}

#[test]
fn pipes_and_keys() {
    assert_eq!(pipe_path("srv1"), "/tmp/srv1-taurus");
    assert_eq!(
        gen_pipe("srv1"),
        vec![s("pipe-pane"), s("-t"), s("srv1"), s("cat > /tmp/srv1-taurus")]
    );
    assert_eq!(
        Session::send_command("srv1", "say hi"),
        vec![s("send-keys"), s("-t"), s("srv1"), s("say hi"), s("Enter")]
    );
}

#[test]
fn lines_of_a_log_are_counted() {
    assert_eq!(set_lines(None), 0);
    assert_eq!(set_lines(Some("")), 0);
    assert_eq!(set_lines(Some("a")), 1);
    assert_eq!(set_lines(Some("a\n")), 1);
    assert_eq!(set_lines(Some("a\nb")), 2);
    assert_eq!(set_lines(Some("a\r\n\nb\n")), 3);
    assert_eq!(set_lines(Some("\n")), 1);
}

#[test]
fn bridges_start_behind_the_log() {
    let on = session("a", Some(game(Some(true))), false);
    let b = Bridge::new(&on, 12).unwrap();
    assert_eq!(b.name, "a");
    assert_eq!(b.line, 12);
    assert_eq!(b.enabled, Some(true));
    assert!(b.state);
    let waiting = session("b", Some(game(Some(false))), false);
    let b = Bridge::new(&waiting, 0).unwrap();
    assert_eq!(b.enabled, Some(false));
    assert!(!b.state);
    let off = session("c", Some(game(None)), false);
    let b = Bridge::new(&off, 0).unwrap();
    assert_eq!(b.enabled, None);
    assert!(!b.state);
    assert!(Bridge::new(&session("d", None, false), 3).is_none());
}

#[test]
fn hosts() {
    let mut a = session("a", None, false);
    assert_eq!(a.host_kind(), Host::Tmux);
    a.host = s("  tmux\n");
    assert_eq!(a.host_kind(), Host::Tmux);
    a.host = s("docker");
    assert_eq!(a.host_kind(), Host::Other);
    a.host = s("tm ux");
    assert_eq!(a.host_kind(), Host::Other);
}

#[test]
fn sessions_are_found_by_name() {
    let sessions = vec![
        session("a", Some(game(None)), true),
        session("b", None, true),
        session("c", Some(game(None)), false),
        session("a", Some(game(None)), false),
    ];
    assert_eq!(find_game(&sessions, "a"), Some(3));
    assert_eq!(find_game(&sessions, "b"), None);
    assert_eq!(find_game(&sessions, "c"), Some(2));
    assert_eq!(find_game(&sessions, "d"), None);
    assert_eq!(find_rcon(&sessions, "a"), Some(0));
    assert_eq!(find_rcon(&sessions, "b"), Some(1));
    assert_eq!(find_rcon(&sessions, "c"), None);
}

#[test]
fn chat_goes_to_sessions_whose_server_is_up() {
    let sessions = vec![
        session("a", Some(game(Some(true))), false),
        session("b", Some(game(Some(true))), false),
        session("c", Some(game(Some(false))), false),
        session("d", None, false),
        session("e", Some(game(Some(true))), false),
    ];
    let bridges = vec![
        bridge("a", 0, Some(true), true),
        bridge("b", 0, Some(true), false),
        bridge("c", 0, Some(false), true),
        bridge("d", 0, None, true),
    ];
    assert_eq!(chat_targets(&sessions, &bridges), vec![0]);
    assert_eq!(chat_targets(&sessions, &vec![]), Vec::<usize>::new());
}

#[test]
fn a_round_gives_one_frame() {
    let mut bridges = vec![
        bridge("a", 0, Some(true), true),
        bridge("b", 1, Some(true), true),
        bridge("c", 0, None, false),
        bridge("d", 0, Some(true), true),
        bridge("e", 0, Some(true), true),
    ];
    let logs = vec![
        Some(vec![s("[12:34:56] [Server thread/INFO]: <alice> hello")]),
        Some(vec![
            s("[12:34:56] [Server thread/INFO]: <old> news"),
            s("[12:34:57] [Server thread/INFO]: bob joined the game"),
        ]),
        Some(vec![s("[12:34:56] [Server thread/INFO]: <carol> unheard")]),
        None,
    ];
    let round = poll_round(&mut bridges, &logs);
    assert_eq!(round.frame, Some(s("MSG [a] <alice> hello\n\n[b] bob joined the game")));
    assert_eq!(round.resets, Vec::<usize>::new());
    let lines: Vec<usize> = bridges.iter().map(|b| b.line).collect();
    assert_eq!(lines, vec![1, 2, 0, 0, 0]);
    let again = poll_round(&mut bridges, &logs);
    assert_eq!(again.frame, None);
    let lines: Vec<usize> = bridges.iter().map(|b| b.line).collect();
    assert_eq!(lines, vec![1, 2, 0, 0, 0]);
}

#[test]
fn a_round_names_the_outgrown_logs() {
    let long: Vec<String> = (0..8001).map(|i| format!("benign line {i}")).collect();
    let mut bridges = vec![
        bridge("a", 0, Some(true), true),
        bridge("b", 8000, Some(true), true),
        bridge("c", 9000, Some(false), false),
        bridge("d", 0, None, true),
        bridge("e", 3, Some(true), true),
    ];
    let logs = vec![Some(long.clone()), Some(long.clone()), Some(vec![]), Some(long), Some(vec![])];
    let round = poll_round(&mut bridges, &logs);
    assert_eq!(round.frame, None);
    assert_eq!(round.resets, vec![0, 1, 2]);
    let lines: Vec<usize> = bridges.iter().map(|b| b.line).collect();
    assert_eq!(lines, vec![0, 0, 0, 0, 3]);
    let none = poll_round(&mut vec![], &vec![]);
    assert_eq!(none.frame, None);
    assert_eq!(none.resets, Vec::<usize>::new());
}
