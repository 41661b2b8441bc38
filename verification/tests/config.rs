use taurus::args::{parse_args, CliAction};
use taurus::backup::Game;
use taurus::bridge::Session;
use taurus::config::{check_sessions, reload, Config, ConfigError, Rcon, Script, SessionError};
use taurus::decimal::{push_decimal, push_padded, push_signed_decimal, read_i32, read_u8};
use taurus::order::{le, sort};
use taurus::text::{
    contains, find, has_prefix, joined, removed, split, split_lines, split_words, to_chars, trimmed,
    trimmed_end,
};

fn s(text: &str) -> String {
    text.to_string()
}

fn chars(text: &str) -> Vec<char> {
    text.chars().collect()
}

fn config() -> Config {
    Config {
        ws_ip: s("127.0.0.1"),
        ws_port: 7500,
        ws_password: s("pw"),
        webserver_location: None,
        webserver_prefix: None,
        backup_location: s("/var/backups"),
        scripts: None,
        restart_script: None,
        recompile_directory: None,
    }
}

fn game() -> Game {
    Game {
        file_path: None,
        backup_path: None,
        backup_interval: None,
        backup_keep: None,
        hourly_slots: None,
        daily_slots: None,
        weekly_slots: None,
        monthly_slots: None,
        in_game_cmd: None,
        chat_bridge: None,
    }
}

fn session(name: &str, game: Option<Game>, rcon: bool) -> Session {
    Session {
        name: s(name),
        description: None,
        host: s("tmux"),
        game,
        rcon: if rcon { Some(Rcon { ip: None, port: 25575, password: s("pw") }) } else { None },
    }
}

#[test]
fn a_sound_configuration() {
    assert_eq!(config().validate(), Ok(()));
    assert_eq!(config().octets(), Some((127, 0, 0, 1)));
    assert_eq!(config().bind_address(), Some(((127, 0, 0, 1), 7500)));
    let mut c = config();
    c.ws_ip = s("0.+10.255.007");
    c.ws_port = 65535;
    c.backup_location = s("/");
    assert_eq!(c.bind_address(), Some(((0, 10, 255, 7), 65535)));
    c.ws_port = 1;
    assert_eq!(c.validate(), Ok(()));
}

#[test]
fn bad_addresses() {
    for ip in ["", "127.0.0", "1.2.3.4.5", "256.0.0.1", "a.b.c.d", "1.2.3.", "1.2.3.-4", "1..3.4",
        " 1.2.3.4", "1.2.3.4 ", "localhost"]
    {
        let mut c = config();
        c.ws_ip = s(ip);
        assert_eq!(c.validate(), Err(ConfigError::BadAddress));
        assert_eq!(c.octets(), None);
        assert_eq!(c.bind_address(), None);
    }
}

#[test]
fn bad_ports() {
    for port in [0, 65536, u64::MAX] {
        let mut c = config();
        c.ws_port = port;
        assert_eq!(c.validate(), Err(ConfigError::BadPort));
        assert_eq!(c.bind_address(), None);
    }
}

#[test]
fn relative_backup_directories() {
    for dir in ["", "backups", "./backups", " /var"] {
        let mut c = config();
        c.backup_location = s(dir);
        assert_eq!(c.validate(), Err(ConfigError::RelativeBackupLocation));
    }
}

#[test]
fn the_first_fault_is_named() {
    let mut c = config();
    c.ws_ip = s("nowhere");
    c.ws_port = 0;
    c.backup_location = s("");
    assert_eq!(c.validate(), Err(ConfigError::BadAddress));
    c.ws_ip = s("10.0.0.1");
    assert_eq!(c.validate(), Err(ConfigError::BadPort));
}

#[test]
fn duplicate_sessions_are_rejected() {
    let sessions = vec![session("a", None, false), session("b", None, false)];
    assert_eq!(check_sessions(&sessions), Ok(()));
    assert_eq!(check_sessions(&vec![]), Ok(()));
    let sessions = vec![
        session("a", None, false),
        session("b", None, false),
        session("a", None, true),
        session("b", None, true),
    ];
    assert_eq!(check_sessions(&sessions), Err(SessionError::DuplicateName(2)));
}

#[test]
fn mixed_backup_modes_are_rejected() {
    let mut interval = game();
    interval.backup_interval = Some(5);
    interval.backup_keep = Some(10);
    let mut slotted = game();
    slotted.hourly_slots = Some(2);
    slotted.monthly_slots = Some(1);
    let mut mixed = game();
    mixed.daily_slots = Some(1);
    mixed.backup_keep = Some(10);
    let sessions = vec![session("a", Some(interval.clone()), false), session("b", Some(slotted), false)];
    assert_eq!(check_sessions(&sessions), Ok(()));
    let sessions = vec![session("a", Some(interval), false), session("b", Some(mixed.clone()), false)];
    assert_eq!(check_sessions(&sessions), Err(SessionError::MixedBackupModes(1)));
    let sessions = vec![session("a", Some(mixed), false), session("a", None, false)];
    assert_eq!(check_sessions(&sessions), Err(SessionError::MixedBackupModes(0)));
}

#[test]
fn a_reload_swaps_the_whole_set() {
    let mut current = vec![session("a", None, false), session("b", None, false)];
    assert!(reload(&mut current, Some(vec![session("c", None, true)])));
    assert_eq!(current.len(), 1);
    assert_eq!(current[0].name, "c");
    assert!(current[0].rcon.is_some());
    assert!(reload(&mut current, Some(vec![])));
    assert!(current.is_empty());
}

#[test]
fn a_failed_reload_keeps_the_set() {
    let mut current = vec![session("a", None, false)];
    assert!(!reload(&mut current, None));
    assert_eq!(current.len(), 1);
    assert_eq!(current[0].name, "a");
    let twice = vec![session("x", None, false), session("x", None, false)];
    assert!(!reload(&mut current, Some(twice)));
    assert_eq!(current.len(), 1);
    assert_eq!(current[0].name, "a");
}

#[test]
fn rcon_endpoints() {
    let local = Rcon { ip: None, port: 25575, password: s("pw") };
    assert_eq!(local.host(), "localhost");
    assert_eq!(local.port_text(), "25575");
    let far = Rcon { ip: Some(s("10.0.0.7")), port: 0, password: s("pw") };
    assert_eq!(far.host(), "10.0.0.7");
    assert_eq!(far.port_text(), "0");
    let top = Rcon { ip: None, port: 65535, password: s("pw") };
    assert_eq!(top.port_text(), "65535");
}

#[test]
fn scripts_are_planned() {
    let sessions = vec![
        session("a", None, true),
        session("b", None, true),
        session("a", None, false),
        session("a", None, true),
    ];
    let script = Script {
        description: s("say hello"),
        interval: Some(60),
        start_unix: None,
        shell_cmd: Some(s("  echo  hello world ")),
        session_name: Some(s("a")),
        rcon_cmd: Some(s("say hello")),
    };
    let plan = script.run(&sessions);
    assert_eq!(plan.consoles, vec![0, 3]);
    assert_eq!(plan.shell, Some(vec![s("echo"), s("hello"), s("world")]));
    let quiet = Script {
        description: s("nothing"),
        interval: None,
        start_unix: None,
        shell_cmd: Some(s("   ")),
        session_name: Some(s("a")),
        rcon_cmd: None,
    };
    let plan = quiet.run(&sessions);
    assert_eq!(plan.consoles, Vec::<usize>::new());
    assert_eq!(plan.shell, None);
    let nameless = Script {
        description: s("nothing"),
        interval: None,
        start_unix: None,
        shell_cmd: None,
        session_name: None,
        rcon_cmd: Some(s("list")),
    };
    let plan = nameless.run(&sessions);
    assert_eq!(plan.consoles, Vec::<usize>::new());
    assert_eq!(plan.shell, None);
}

fn args(list: &[&str]) -> Vec<String> {
    list.iter().map(|a| a.to_string()).collect()
}

#[test]
fn the_command_line() {
    assert_eq!(parse_args(&args(&[])), CliAction::Serve);
    assert_eq!(parse_args(&args(&["taurus"])), CliAction::Serve);
    assert_eq!(parse_args(&args(&["help"])), CliAction::Serve);
    assert_eq!(parse_args(&args(&["taurus", "help"])), CliAction::Help);
    assert_eq!(parse_args(&args(&["taurus", "check"])), CliAction::Check);
    assert_eq!(parse_args(&args(&["taurus", "check", "help"])), CliAction::Check);
    assert_eq!(parse_args(&args(&["taurus", "what", "help"])), CliAction::Help);
    assert_eq!(parse_args(&args(&["taurus", "what", "ever"])), CliAction::Serve);
}

#[test]
fn the_backup_command() {
    assert_eq!(parse_args(&args(&["taurus", "backup", "ls"])), CliAction::BackupList);
    assert_eq!(parse_args(&args(&["taurus", "backup", "rm", "all"])), CliAction::BackupRemoveAll);
    assert_eq!(
        parse_args(&args(&["taurus", "backup", "rm", "a.tar.gz"])),
        CliAction::BackupRemove(s("a.tar.gz"))
    );
    assert_eq!(parse_args(&args(&["taurus", "backup"])), CliAction::BackupUsage);
    assert_eq!(parse_args(&args(&["taurus", "backup", "rm"])), CliAction::BackupUsage);
    assert_eq!(parse_args(&args(&["taurus", "backup", "mv", "a"])), CliAction::BackupUsage);
    assert_eq!(parse_args(&args(&["taurus", "x", "backup", "ls", "help"])), CliAction::BackupList);
}

#[test]
fn numbers_are_read() {
    assert_eq!(read_i32(&chars("0")), Some(0));
    assert_eq!(read_i32(&chars("-0")), Some(0));
    assert_eq!(read_i32(&chars("+7")), Some(7));
    assert_eq!(read_i32(&chars("0042")), Some(42));
    assert_eq!(read_i32(&chars("2147483647")), Some(i32::MAX));
    assert_eq!(read_i32(&chars("-2147483648")), Some(i32::MIN));
    assert_eq!(read_i32(&chars("2147483648")), None);
    assert_eq!(read_i32(&chars("-2147483649")), None);
    assert_eq!(read_i32(&chars("99999999999999999999999999")), None);
    for bad in ["", "-", "+", "1 ", " 1", "1a", "--1", "+-1", "1.0", "\u{661}"] {
        assert_eq!(read_i32(&chars(bad)), None);
    }
    assert_eq!(read_u8(&chars("255")), Some(255));
    assert_eq!(read_u8(&chars("+0")), Some(0));
    assert_eq!(read_u8(&chars("256")), None);
    assert_eq!(read_u8(&chars("-0")), None);
    assert_eq!(read_u8(&chars("")), None);
}

#[test]
fn numbers_are_written() {
    let mut out = chars("n=");
    push_decimal(&mut out, 1203);
    push_signed_decimal(&mut out, -45);
    push_signed_decimal(&mut out, i64::MIN);
    push_signed_decimal(&mut out, 0);
    assert_eq!(out, chars("n=1203-45-92233720368547758080"));
    let mut out = Vec::new();
    push_padded(&mut out, &chars("7"), 3, '0');
    push_padded(&mut out, &chars("1234"), 3, '0');
    push_padded(&mut out, &chars(""), 2, '*');
    assert_eq!(out, chars("0071234**"));
}

#[test]
fn texts_are_cut() {
    assert_eq!(to_chars("h\u{e9}llo"), chars("h\u{e9}llo"));
    assert_eq!(split_words(&chars("  a bc\t\nd  "), false), vec![chars("a"), chars("bc"), chars("d")]);
    assert_eq!(split_words(&chars("a\u{a0}b\u{b}c"), false), vec![chars("a"), chars("b"), chars("c")]);
    assert_eq!(split_words(&chars("a\u{a0}b\u{b}c d"), true), vec![chars("a\u{a0}b\u{b}c"), chars("d")]);
    assert_eq!(split_words(&chars(""), false), Vec::<Vec<char>>::new());
    assert_eq!(split(&chars("a..b."), '.'), vec![chars("a"), chars(""), chars("b"), chars("")]);
    assert_eq!(split(&chars(""), '.'), vec![chars("")]);
    assert_eq!(split_lines(&chars("a\r\nb\n\nc\r")), vec![chars("a"), chars("b"), chars(""), chars("c\r")]);
    assert_eq!(joined(&vec![chars("a"), chars(""), chars("b")], ", "), chars("a, , b"));
    assert_eq!(joined(&vec![], ", "), chars(""));
    assert_eq!(trimmed_end(&chars(" a b \t\u{2028}")), chars(" a b"));
    assert_eq!(trimmed(&chars("\n a b \t")), chars("a b"));
    assert_eq!(trimmed(&chars(" \n ")), chars(""));
    assert_eq!(find(&chars("abcabc"), 'c'), 2);
    assert_eq!(find(&chars("abc"), 'x'), 3);
    assert!(has_prefix(&chars("abc"), &chars("ab")));
    assert!(has_prefix(&chars("abc"), &chars("")));
    assert!(!has_prefix(&chars("ab"), &chars("abc")));
    assert!(contains(&chars("x.tar.gz"), &chars("tar.gz")));
    assert!(contains(&chars("abc"), &chars("")));
    assert!(!contains(&chars("tar.g"), &chars("tar.gz")));
    assert_eq!(removed(&chars("MSG aMSG MSG b MSG"), &chars("MSG ")), chars("ab MSG"));
    assert_eq!(removed(&chars("aaa"), &chars("aa")), chars("a"));
    assert_eq!(removed(&chars("abc"), &chars("")), chars("abc"));
}

#[test]
fn texts_are_ordered() {
    assert!(le(&chars(""), &chars("")));
    assert!(le(&chars(""), &chars("a")));
    assert!(!le(&chars("a"), &chars("")));
    assert!(le(&chars("a"), &chars("ab")));
    assert!(le(&chars("Z"), &chars("a")));
    assert!(!le(&chars("b"), &chars("a")));
    assert!(le(&chars("a10"), &chars("a2")));
    assert!(le(&chars("z"), &chars("\u{e9}")));
    assert_eq!(
        sort(&vec![chars("b"), chars("a"), chars(""), chars("ab"), chars("a"), chars("B")]),
        vec![chars(""), chars("B"), chars("a"), chars("a"), chars("ab"), chars("b")]
    );
    assert_eq!(sort(&vec![]), Vec::<Vec<char>>::new());
}
