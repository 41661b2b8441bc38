use taurus::backup::{
    backup_locations, delete_backups_older_than, list_backups, name_archive, Archive, BackupPlan,
    BackupSlot, CopyKind, CopyOutcome, CopyPlan, Dimension, FileEntry, Game, Moment, Prune,
    Schedule, Tier,
};
use taurus::bridge::Session;
use taurus::config::Config;
use taurus::next_tick;
use taurus::utils::{Disk, DiskUsage, Sys};

fn s(text: &str) -> String {
    text.to_string()
}

fn game() -> Game {
    Game {
        file_path: Some(s("/srv/world")),
        backup_path: None,
        backup_interval: None,
        backup_keep: None,
        hourly_slots: None,
        daily_slots: None,
        weekly_slots: None,
        monthly_slots: None,
        in_game_cmd: None,
        chat_bridge: None,
    }
}

fn healthy() -> Sys {
    Sys { disks: vec![], load_per_core: 100, ram_used: 1, ram_total: 10, uptime: 60 }
}

fn config() -> Config {
    Config {
        ws_ip: s("127.0.0.1"),
        ws_port: 7500,
        ws_password: s("pw"),
        webserver_location: Some(s("/var/www")),
        webserver_prefix: Some(s("https://example.org/files")),
        backup_location: s("/var/backups"),
        scripts: None,
        restart_script: None,
        recompile_directory: None,
    }
}

fn slot(name: &str, age_seconds: u64) -> BackupSlot {
    BackupSlot::new(s(name), age_seconds)
}

#[test]
fn the_clock_wraps() {
    assert_eq!(next_tick(0), 1);
    assert_eq!(next_tick(41), 42);
    assert_eq!(next_tick(u64::MAX), 0);
}

#[test]
fn slotted_or_not() {
    assert!(!game().is_slotted_backups());
    let mut g = game();
    g.backup_interval = Some(5);
    g.backup_keep = Some(10);
    assert!(!g.is_slotted_backups());
    for k in 0..4 {
        let mut g = game();
        match k {
            0 => g.hourly_slots = Some(1),
            1 => g.daily_slots = Some(0),
            2 => g.weekly_slots = Some(2),
            _ => g.monthly_slots = Some(3),
        }
        assert!(g.is_slotted_backups());
    }
}

#[test]
fn interval_backup() {
    let mut g = game();
    g.backup_interval = Some(5);
    g.backup_keep = Some(10);
    let mut clock = 0;
    let mut backups = Vec::new();
    let mut prunes = Vec::new();
    for _ in 0..11 {
        clock = next_tick(clock);
        let schedule = g.perform_scheduled_backups(clock, false);
        if schedule.backup {
            backups.push(clock);
        }
        if schedule.prune != Prune::Nothing {
            prunes.push((clock, schedule.prune));
        }
    }
    assert_eq!(clock, 11);
    assert_eq!(backups, vec![5, 10]);
    assert_eq!(prunes, vec![(5, Prune::OlderThan(10)), (10, Prune::OlderThan(10))]);
    let listing = vec![
        Archive { name: s("srv1_2024-01-01_00_00_00.tar.gz"), age: Some(11) },
        Archive { name: s("srv1_2024-01-01_00_00_05.tar.gz"), age: Some(10) },
        Archive { name: s("srv1_2024-01-01_00_00_10.tar.gz"), age: Some(0) },
    ];
    assert_eq!(
        delete_backups_older_than("srv1", 10, &listing),
        vec![s("srv1_2024-01-01_00_00_00.tar.gz")]
    );
}

#[test]
fn interval_without_keeping_time_prunes_nothing() {
    let mut g = game();
    g.backup_interval = Some(3);
    assert_eq!(g.perform_scheduled_backups(2, false), Schedule { backup: false, prune: Prune::Nothing });
    assert_eq!(g.perform_scheduled_backups(3, false), Schedule { backup: true, prune: Prune::Nothing });
    assert_eq!(g.perform_scheduled_backups(0, false), Schedule { backup: true, prune: Prune::Nothing });
}

#[test]
fn no_schedule_no_backup() {
    let g = game();
    for clock in [0, 1, 3600, 86400] {
        assert_eq!(
            g.perform_scheduled_backups(clock, false),
            Schedule { backup: false, prune: Prune::Nothing }
        );
    }
    let mut zero = game();
    zero.backup_interval = Some(0);
    zero.backup_keep = Some(5);
    assert_eq!(
        zero.perform_scheduled_backups(7, false),
        Schedule { backup: false, prune: Prune::Nothing }
    );
}

#[test]
fn a_backup_in_flight_suppresses_the_next() {
    let mut g = game();
    g.backup_interval = Some(5);
    g.backup_keep = Some(10);
    assert_eq!(
        g.perform_scheduled_backups(10, true),
        Schedule { backup: false, prune: Prune::OlderThan(10) }
    );
    let mut h = game();
    h.hourly_slots = Some(2);
    assert_eq!(h.perform_scheduled_backups(3600, true), Schedule { backup: false, prune: Prune::Slotted });
    assert_eq!(h.perform_scheduled_backups(3600, false), Schedule { backup: true, prune: Prune::Slotted });
}

#[test]
fn slotted_backups_follow_the_tiers() {
    let mut g = game();
    g.hourly_slots = Some(2);
    g.backup_interval = Some(7);
    g.backup_keep = Some(1);
    assert_eq!(g.perform_slotted_backups(1), None);
    assert_eq!(g.perform_slotted_backups(3599), None);
    assert_eq!(g.perform_slotted_backups(3600), Some(Tier::Hourly));
    assert_eq!(g.perform_slotted_backups(7200), Some(Tier::Hourly));
    assert_eq!(g.perform_slotted_backups(86400), Some(Tier::Daily));
    assert_eq!(g.perform_slotted_backups(604800), Some(Tier::Weekly));
    assert_eq!(g.perform_slotted_backups(18144000), Some(Tier::Monthly));
    assert_eq!(g.perform_slotted_backups(36288000), Some(Tier::Monthly));
    assert_eq!(g.perform_slotted_backups(1209600), Some(Tier::Weekly));
    assert_eq!(g.perform_slotted_backups(0), Some(Tier::Monthly));
    assert_eq!(g.perform_scheduled_backups(7, false), Schedule { backup: false, prune: Prune::Slotted });
    assert_eq!(g.perform_scheduled_backups(3600, false), Schedule { backup: true, prune: Prune::Slotted });
}

#[test]
fn ages_fall_into_tiers() {
    assert_eq!(slot("a", 0).elapsed_time, 0);
    assert_eq!(slot("a", 1799).elapsed_time, 0);
    assert_eq!(slot("a", 1800).elapsed_time, 1);
    assert_eq!(slot("a", 0).tier(), Tier::Hourly);
    assert_eq!(slot("a", 86399).tier(), Tier::Hourly);
    assert_eq!(slot("a", 86400).tier(), Tier::Daily);
    assert_eq!(slot("a", 604799).tier(), Tier::Daily);
    assert_eq!(slot("a", 604800).tier(), Tier::Weekly);
    assert_eq!(slot("a", 18143999).tier(), Tier::Weekly);
    assert_eq!(slot("a", 18144000).tier(), Tier::Monthly);
    assert_eq!(slot("a", u64::MAX).tier(), Tier::Monthly);
}

#[test]
fn slotted_pruning() {
    let mut g = game();
    g.hourly_slots = Some(2);
    g.daily_slots = Some(1);
    let backups = vec![
        slot("srv1_half", 1800),
        slot("srv1_one_and_a_half", 5400),
        slot("srv1_twenty_three", 23 * 3600),
        slot("srv1_twenty_five", 25 * 3600),
        slot("srv1_forty_nine", 49 * 3600),
    ];
    assert_eq!(
        g.delete_slotted_backups("srv1", &backups),
        vec![s("srv1_twenty_three"), s("srv1_forty_nine")]
    );
    let shuffled = vec![
        slot("srv1_forty_nine", 49 * 3600),
        slot("srv1_twenty_three", 23 * 3600),
        slot("srv1_half", 1800),
        slot("srv1_twenty_five", 25 * 3600),
        slot("srv1_one_and_a_half", 5400),
    ];
    assert_eq!(
        g.delete_slotted_backups("srv1", &shuffled),
        vec![s("srv1_forty_nine"), s("srv1_twenty_three")]
    );
}

#[test]
fn slotted_pruning_leaves_other_sessions_alone() {
    let mut g = game();
    g.hourly_slots = Some(1);
    let backups = vec![
        slot("srv2_a", 0),
        slot("srv1_b", 1800),
        slot("srv1", 0),
        slot("srv10_c", 0),
        slot("srv1_d", 3600),
        slot("srv1_e", 8 * 86400),
        slot("srv1_f", 400 * 86400),
    ];
    assert_eq!(
        g.delete_slotted_backups("srv1", &backups),
        vec![s("srv1_d"), s("srv1_e"), s("srv1_f")]
    );
    assert_eq!(g.delete_slotted_backups("srv1", &vec![]), Vec::<String>::new());
}

#[test]
fn as_old_archives_are_kept_in_the_order_of_the_listing() {
    let mut g = game();
    g.weekly_slots = Some(2);
    let backups = vec![
        slot("s_a", 10 * 86400),
        slot("s_b", 10 * 86400),
        slot("s_c", 10 * 86400),
        slot("s_d", 9 * 86400),
    ];
    assert_eq!(g.delete_slotted_backups("s", &backups), vec![s("s_b"), s("s_c")]);
}

#[test]
fn the_kept_archives_fit_the_slots() {
    let mut g = game();
    g.hourly_slots = Some(3);
    g.daily_slots = Some(2);
    g.weekly_slots = Some(1);
    g.monthly_slots = Some(1);
    let mut backups = Vec::new();
    for k in 0..200u64 {
        backups.push(slot(&format!("w_{k}"), k * 3 * 3600 + (k % 7) * 86400 * 30));
    }
    let gone = g.delete_slotted_backups("w", &backups);
    assert!(backups.len() - gone.len() <= 3 + 2 + 1 + 1);
    assert_eq!(backups.len() - gone.len(), 5);
}

#[test]
fn old_archives_go() {
    let listing = vec![
        Archive { name: s("srv1_a"), age: Some(100) },
        Archive { name: s("srv1_b"), age: Some(101) },
        Archive { name: s("srv1_c"), age: None },
        Archive { name: s("srv2_d"), age: Some(1000) },
        Archive { name: s("srv1"), age: Some(1000) },
        Archive { name: s("srv1_"), age: Some(u64::MAX) },
    ];
    assert_eq!(delete_backups_older_than("srv1", 100, &listing), vec![s("srv1_b"), s("srv1_")]);
    assert_eq!(delete_backups_older_than("srv1", u64::MAX, &listing), Vec::<String>::new());
    assert_eq!(delete_backups_older_than("srv2", 0, &listing), vec![s("srv2_d")]);
}

#[test]
fn interval_archives_stay_within_their_bound() {
    let interval = 5u64;
    let keep = 12u64;
    let mut g = game();
    g.backup_interval = Some(interval);
    g.backup_keep = Some(keep);
    let mut made: Vec<u64> = Vec::new();
    let mut clock = 0;
    for _ in 0..200 {
        clock = next_tick(clock);
        let schedule = g.perform_scheduled_backups(clock, false);
        if schedule.backup {
            made.push(clock);
        }
        if let Prune::OlderThan(limit) = schedule.prune {
            let listing: Vec<Archive> = made
                .iter()
                .map(|t| Archive { name: format!("srv1_{t}"), age: Some(clock - t) })
                .collect();
            let gone = delete_backups_older_than("srv1", limit, &listing);
            made.retain(|t| !gone.contains(&format!("srv1_{t}")));
        }
        assert!(made.len() as u64 <= (keep + interval - 1) / interval + 1);
    }
    assert_eq!(made, vec![190, 195, 200]);
}

#[test]
fn sizes_for_people() {
    assert_eq!(Game::bytes_to_human(0), "0 B");
    assert_eq!(Game::bytes_to_human(999), "999 B");
    assert_eq!(Game::bytes_to_human(1000), "1.00 KiB");
    assert_eq!(Game::bytes_to_human(1500), "1.50 KiB");
    assert_eq!(Game::bytes_to_human(1005), "1.00 KiB");
    assert_eq!(Game::bytes_to_human(1015), "1.02 KiB");
    assert_eq!(Game::bytes_to_human(1234), "1.23 KiB");
    assert_eq!(Game::bytes_to_human(999_999), "1000.00 KiB");
    assert_eq!(Game::bytes_to_human(1_000_000), "1.00 MiB");
    assert_eq!(Game::bytes_to_human(12_345_678), "12.35 MiB");
    assert_eq!(Game::bytes_to_human(1_073_741_823), "1073.74 MiB");
    assert_eq!(Game::bytes_to_human(1_073_741_824), "1.00 GiB");
    assert_eq!(Game::bytes_to_human(1_610_612_736), "1.50 GiB");
    assert_eq!(Game::bytes_to_human(9 * 134_217_728), "1.12 GiB");
    assert_eq!(Game::bytes_to_human(u64::MAX), "17179869184.00 GiB");
}

#[test]
fn archives_are_named_by_the_moment() {
    let at = Moment { year: 2024, month: 3, day: 5, hour: 7, minute: 8, second: 9 };
    assert_eq!(name_archive("srv1", &at), "srv1_2024-03-05_07_08_09.tar.gz");
    let at = Moment { year: 987, month: 12, day: 31, hour: 23, minute: 59, second: 59 };
    assert_eq!(name_archive("a b", &at), "a b_0987-12-31_23_59_59.tar.gz");
    let at = Moment { year: -5, month: 1, day: 1, hour: 0, minute: 0, second: 0 };
    assert_eq!(name_archive("", &at), "_00-5-01-01_00_00_00.tar.gz");
    let at = Moment { year: 12345, month: 100, day: 1, hour: 0, minute: 0, second: 0 };
    assert_eq!(name_archive("x", &at), "x_12345-100-01_00_00_00.tar.gz");
}

#[test]
fn backups_are_refused_or_planned() {
    let at = Moment { year: 2024, month: 3, day: 5, hour: 7, minute: 8, second: 9 };
    let g = game();
    match g.backup(&healthy(), "srv1", "/var/backups", &at) {
        BackupPlan::Run(job) => {
            assert_eq!(job.source, "/srv/world");
            assert_eq!(job.dest, "/var/backups");
            assert_eq!(job.archive, "srv1_2024-03-05_07_08_09.tar.gz");
        }
        BackupPlan::Refused(reason) => panic!("refused: {reason}"),
    }
    let plan = g.backup(&healthy(), "srv1", "/var/backups", &at);
    assert_eq!(plan.message(true), "starting new backup");
    assert_eq!(plan.message(false), "Backup location does not exists");

    let mut sick = healthy();
    sick.ram_used = 9;
    let plan = g.backup(&sick, "srv1", "/var/backups", &at);
    assert!(matches!(plan, BackupPlan::Refused(_)));
    assert_eq!(plan.message(true), "Backup aborted due to system constraints");

    let mut nowhere = game();
    nowhere.file_path = None;
    let plan = nowhere.backup(&sick, "srv1", "/var/backups", &at);
    assert!(matches!(plan, BackupPlan::Refused(_)));
    assert_eq!(plan.message(true), "Unable to reach file path");
}

#[test]
fn a_new_archive_shows_in_the_listing_until_it_is_removed() {
    let at = Moment { year: 2024, month: 3, day: 5, hour: 7, minute: 8, second: 9 };
    let archive = name_archive("srv1", &at);
    let mut entries = vec![FileEntry { name: s("srv1_2023-01-01_00_00_00.tar.gz"), size: 10 }];
    assert!(!list_backups(&entries).contains(&archive));
    entries.push(FileEntry { name: archive.clone(), size: 2048 });
    let listing = list_backups(&entries);
    assert_eq!(
        listing,
        "srv1_2023-01-01_00_00_00.tar.gz (10 B)\nsrv1_2024-03-05_07_08_09.tar.gz (2.05 KiB)"
    );
    entries.retain(|e| e.name != archive);
    assert!(!list_backups(&entries).contains(&archive));
}

#[test]
fn listings_are_sorted_and_hold_archives_only() {
    let entries = vec![
        FileEntry { name: s("b_1.tar.gz"), size: 1 },
        FileEntry { name: s("world"), size: 4096 },
        FileEntry { name: s("a_2.tar.gz"), size: 1_000_000 },
        FileEntry { name: s("B_3.tar.gz"), size: 3 },
        FileEntry { name: s("a_10.tar.gz.part"), size: 0 },
        FileEntry { name: s("tar.g"), size: 0 },
        FileEntry { name: s("\u{e9}_4.tar.gz"), size: 5 },
    ];
    assert_eq!(
        list_backups(&entries),
        "B_3.tar.gz (3 B)\na_10.tar.gz.part (0 B)\na_2.tar.gz (1.00 MiB)\nb_1.tar.gz (1 B)\n\u{e9}_4.tar.gz (5 B)"
    );
    assert_eq!(list_backups(&vec![]), "");
}

#[test]
fn structures_are_listed() {
    let g = game();
    let entries = vec![
        FileEntry { name: s("tower.nbt"), size: 1500 },
        FileEntry { name: s("castle.nbt"), size: 20 },
        FileEntry { name: s("castle"), size: 7 },
    ];
    assert_eq!(
        g.list_structures(Some(&entries)),
        "castle (7 B)\ncastle.nbt (20 B)\ntower.nbt (1.50 KiB)"
    );
    assert_eq!(g.list_structures(Some(&vec![])), "");
    assert_eq!(g.list_structures(None), "Unable to access structure folder");
    let mut nowhere = game();
    nowhere.file_path = None;
    assert_eq!(nowhere.list_structures(Some(&entries)), "no configured file path");
    assert_eq!(nowhere.list_structures(None), "no configured file path");
}

#[test]
fn each_backup_directory_is_read_once() {
    let mut own = game();
    own.backup_path = Some(s("/mnt/own"));
    let mut same = game();
    same.backup_path = Some(s("/var/backups"));
    let session = |name: &str, game: Option<Game>| Session {
        name: s(name),
        description: None,
        host: s("tmux"),
        game,
        rcon: None,
    };
    let sessions = vec![
        session("a", Some(game())),
        session("b", Some(own.clone())),
        session("c", None),
        session("d", Some(same)),
        session("e", Some(own)),
    ];
    assert_eq!(backup_locations(&sessions, "/var/backups"), vec![s("/var/backups"), s("/mnt/own")]);
    assert_eq!(backup_locations(&vec![], "/var/backups"), Vec::<String>::new());
}

#[test]
fn archives_go_to_the_games_own_directory() {
    assert_eq!(game().backup_dir("/var/backups"), "/var/backups");
    let mut own = game();
    own.backup_path = Some(s("/mnt/own"));
    assert_eq!(own.backup_dir("/var/backups"), "/mnt/own");
}

#[test]
fn regions_are_copied_for_the_web_server() {
    let g = game();
    match g.copy_region(&config(), Dimension::Overworld, 0, 0) {
        CopyPlan::Run(job) => {
            assert_eq!(job.kind, CopyKind::Region);
            assert_eq!(job.from, "/srv/world/region/r.0.0.mca");
            assert_eq!(job.to_dir, "/var/www/region");
            assert_eq!(job.url, "https://example.org/files/region/r.0.0.mca");
            assert_eq!(job.message(CopyOutcome::Copied), "https://example.org/files/region/r.0.0.mca");
            assert_eq!(job.message(CopyOutcome::Missing), "Region does not exists");
            assert_eq!(job.message(CopyOutcome::Failed), "Failed to copy region into webserver folder");
            assert_eq!(job.message(CopyOutcome::NoFolder), "Unable to create region folder");
        }
        CopyPlan::Refused(reason) => panic!("refused: {reason}"),
    }
    match g.copy_region(&config(), Dimension::Nether, -3, 12) {
        CopyPlan::Run(job) => {
            assert_eq!(job.from, "/srv/world/DIM-1/region/r.-3.12.mca");
            assert_eq!(job.url, "https://example.org/files/region/r.-3.12.mca");
        }
        CopyPlan::Refused(reason) => panic!("refused: {reason}"),
    }
    match g.copy_region(&config(), Dimension::End, i32::MIN, i32::MAX) {
        CopyPlan::Run(job) => {
            assert_eq!(job.from, "/srv/world/DIM1/region/r.-2147483648.2147483647.mca");
        }
        CopyPlan::Refused(reason) => panic!("refused: {reason}"),
    }
}

#[test]
fn structures_are_copied_for_the_web_server() {
    let g = game();
    match g.copy_structure(&config(), "castle.nbt") {
        CopyPlan::Run(job) => {
            assert_eq!(job.kind, CopyKind::Structure);
            assert_eq!(job.from, "/srv/world/structure/castle.nbt");
            assert_eq!(job.to_dir, "/var/www/structure");
            assert_eq!(job.url, "https://example.org/files/structure/castle.nbt");
            assert_eq!(job.message(CopyOutcome::Missing), "Structure does not exists");
            assert_eq!(
                job.message(CopyOutcome::Failed),
                "Failed to copy structure into webserver folder"
            );
            assert_eq!(job.message(CopyOutcome::NoFolder), "Unable to create region folder");
        }
        CopyPlan::Refused(reason) => panic!("refused: {reason}"),
    }
}

#[test]
fn nothing_is_copied_without_a_web_server() {
    let refused = |plan: CopyPlan| match plan {
        CopyPlan::Refused(reason) => reason,
        CopyPlan::Run(_) => panic!("planned"),
    };
    let mut c = config();
    c.webserver_location = None;
    assert_eq!(refused(game().copy_region(&c, Dimension::End, 1, 1)), "webserver not configured");
    assert_eq!(refused(game().copy_structure(&c, "x")), "webserver not configured");
    let mut c = config();
    c.webserver_prefix = None;
    assert_eq!(refused(game().copy_region(&c, Dimension::End, 1, 1)), "webserver not configured");
    let mut g = game();
    g.file_path = None;
    assert_eq!(refused(g.copy_region(&config(), Dimension::End, 1, 1)), "webserver not configured");
    assert_eq!(refused(g.copy_structure(&config(), "x")), "webserver not configured");
}

#[test]
fn the_verdict_on_the_host() {
    assert!(!healthy().sys_health_check());
    let mut ram = healthy();
    ram.ram_used = 85;
    ram.ram_total = 100;
    assert!(!ram.sys_health_check());
    ram.ram_used = 86;
    assert!(ram.sys_health_check());
    let mut load = healthy();
    load.load_per_core = 800;
    assert!(!load.sys_health_check());
    load.load_per_core = 801;
    assert!(load.sys_health_check());
    let gib = 1_073_741_824u64;
    let mut disk = healthy();
    disk.disks = vec![
        Disk { total: 5 * gib, available: 0, removable: false },
        Disk { total: 100 * gib, available: 0, removable: true },
        Disk { total: 100 * gib, available: 15 * gib, removable: false },
    ];
    assert!(!disk.sys_health_check());
    assert_eq!(disk.check_disk(), None);
    disk.disks.push(Disk { total: 100 * gib, available: 15 * gib - 1, removable: false });
    disk.disks.push(Disk { total: 100 * gib, available: 0, removable: false });
    assert!(disk.sys_health_check());
    assert_eq!(disk.check_disk(), Some(3));
    let mut empty = healthy();
    empty.ram_total = 0;
    empty.ram_used = 0;
    assert!(!empty.sys_health_check());
    let mut full = healthy();
    full.ram_used = u64::MAX;
    full.ram_total = u64::MAX;
    assert!(full.sys_health_check());
}

#[test]
fn monitored_disks_are_reported() {
    let gib = 1_073_741_824u64;
    let mut sys = healthy();
    sys.disks = vec![
        Disk { total: 10 * gib, available: 4 * gib, removable: false },
        Disk { total: 10 * gib - 1, available: 0, removable: false },
        Disk { total: 64 * gib, available: 0, removable: true },
        Disk { total: 30 * gib, available: 40 * gib, removable: false },
        Disk { total: 3 * 10 * gib, available: 2 * 10 * gib, removable: false },
    ];
    assert_eq!(
        sys.disk_info(),
        vec![
            DiskUsage { used: 6 * gib, total: 10 * gib, used_permille: 600 },
            DiskUsage { used: 0, total: 30 * gib, used_permille: 0 },
            DiskUsage { used: 10 * gib, total: 30 * gib, used_permille: 333 },
        ]
    );
    assert_eq!(sys.uptime(), 60);
    assert_eq!(sys.get_ram(), (1, 10));
}
