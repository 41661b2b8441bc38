//! Scheduled backups: when one is due, what it is called, and which of the
//! archives that exist are to go.
use vstd::prelude::*;
use crate::bridge::Session;
use crate::config::Config;
use crate::decimal::{
    decimal, digit_char, digit_of, pad_left, push_decimal, push_padded, push_signed_decimal,
    signed_decimal,
};
use crate::order::{sort, sorted_lines};
use crate::text::{
    char_views, contains, from_chars, has_prefix, join, joined, occurs_in, push_str, str_eq,
    to_chars, views,
};
use crate::utils::Sys;

verus! {

/// The width of one age bucket, in seconds: half an hour.
pub const SLOTTED_BACKUP_EPSILON: u64 = 1800;

/// Seconds between two hourly backups.
pub const HOUR: u64 = 3600;

/// Seconds between two daily backups.
pub const DAY: u64 = 86400;

/// Seconds between two weekly backups.
pub const WEEK: u64 = 604800;

/// Seconds between two monthly backups: thirty weeks.
pub const MONTH: u64 = 18144000;

/// What a session says of the game server that it runs.
#[derive(Clone, Debug)]
pub struct Game {
    /// The directory of the world.
    pub file_path: Option<String>,
    /// Where this session's archives go, in place of the manager's directory.
    pub backup_path: Option<String>,
    /// Seconds between two backups.
    pub backup_interval: Option<u64>,
    /// Seconds that an archive is kept.
    pub backup_keep: Option<u64>,
    pub hourly_slots: Option<u64>,
    pub daily_slots: Option<u64>,
    pub weekly_slots: Option<u64>,
    pub monthly_slots: Option<u64>,
    pub in_game_cmd: Option<bool>,
    pub chat_bridge: Option<bool>,
}

/// The four tiers of slotted retention, from the youngest archives to the oldest.
#[derive(Clone, Copy, Debug, PartialEq, Eq, Structural)]
pub enum Tier {
    Hourly,
    Daily,
    Weekly,
    Monthly,
}

/// An archive in a backup directory, by its age.
#[derive(Clone, Debug)]
pub struct BackupSlot {
    /// The file's name.
    pub name: String,
    /// How many half hours have passed since the archive was made.
    pub elapsed_time: u64,
}

/// A file in a backup directory, as the directory lists it.
#[derive(Clone, Debug)]
pub struct Archive {
    /// The file's name.
    pub name: String,
    /// Seconds since the file was made; `None` where that cannot be read.
    pub age: Option<u64>,
}

/// What is to be removed from a backup directory after a tick.
#[derive(Clone, Copy, Debug, PartialEq, Eq, Structural)]
pub enum Prune {
    /// Nothing is removed.
    Nothing,
    /// Archives older than this many seconds go.
    OlderThan(u64),
    /// Each tier keeps its youngest archives, as many as it has slots.
    Slotted,
}

/// What one tick of the clock asks for.
#[derive(Clone, Copy, Debug, PartialEq, Eq, Structural)]
pub struct Schedule {
    /// Whether a backup is to be started.
    pub backup: bool,
    /// What is to be removed, after the backup where there is one.
    pub prune: Prune,
}

/// The tier whose turn it is at `clock`: the coarsest whose period divides it.
pub open spec fn due_tier(clock: u64) -> Option<Tier> {
    if clock % MONTH == 0 {
        Some(Tier::Monthly)
    } else if clock % WEEK == 0 {
        Some(Tier::Weekly)
    } else if clock % DAY == 0 {
        Some(Tier::Daily)
    } else if clock % HOUR == 0 {
        Some(Tier::Hourly)
    } else {
        None
    }
}

/// The tier that an archive of the given age falls in: the first day is
/// hourly, the rest of the first week daily, the rest of the first thirty
/// weeks weekly, and what is older monthly.
pub open spec fn tier_of(elapsed_time: u64) -> Tier {
    if elapsed_time < DAY / SLOTTED_BACKUP_EPSILON {
        Tier::Hourly
    } else if elapsed_time < WEEK / SLOTTED_BACKUP_EPSILON {
        Tier::Daily
    } else if elapsed_time < MONTH / SLOTTED_BACKUP_EPSILON {
        Tier::Weekly
    } else {
        Tier::Monthly
    }
}

/// Whether a file of this name is an archive of the session: the name begins
/// with the session's name and an underscore.
pub open spec fn belongs_to(file: Seq<char>, session: Seq<char>) -> bool {
    (session + seq!['_']).is_prefix_of(file)
}

/// Whether the archive at `j` is of the session, falls in the tier of the
/// archive at `i`, and is kept before it: it is younger, or as old and listed
/// earlier.
pub open spec fn kept_before(backups: Seq<BackupSlot>, session: Seq<char>, j: int, i: int) -> bool {
    &&& belongs_to(backups[j].name@, session)
    &&& tier_of(backups[j].elapsed_time) == tier_of(backups[i].elapsed_time)
    &&& (backups[j].elapsed_time < backups[i].elapsed_time || (backups[j].elapsed_time
        == backups[i].elapsed_time && j < i))
}

/// How many of the first `n` archives are kept before the archive at `i`.
pub open spec fn rank_among(backups: Seq<BackupSlot>, session: Seq<char>, i: int, n: int) -> nat
    decreases n,
{
    if n <= 0 {
        0
    } else {
        rank_among(backups, session, i, n - 1) + if kept_before(backups, session, n - 1, i) {
            1nat
        } else {
            0nat
        }
    }
}

/// The place of the archive at `i` in its tier, counted from the youngest.
pub open spec fn rank(backups: Seq<BackupSlot>, session: Seq<char>, i: int) -> nat {
    rank_among(backups, session, i, backups.len() as int)
}

/// The files of `listing` that are removed when everything of the session
/// older than `time` seconds goes: those of the session whose age can be read
/// and exceeds `time`, in the order of the listing.
pub open spec fn older_than(listing: Seq<Archive>, session: Seq<char>, time: u64) -> Seq<Seq<char>>
    decreases listing.len(),
{
    if listing.len() == 0 {
        Seq::empty()
    } else {
        let before = older_than(listing.drop_last(), session, time);
        let last = listing.last();
        if belongs_to(last.name@, session) && last.age is Some && last.age->0 > time {
            before.push(last.name@)
        } else {
            before
        }
    }
}

fn is_of_session(file: &str, prefix: &Vec<char>) -> (r: bool)
    ensures
        r == prefix@.is_prefix_of(file@),
{
    let f = to_chars(file);
    has_prefix(&f, prefix)
}

fn session_prefix(session: &str) -> (prefix: Vec<char>)
    ensures
        prefix@ == session@ + seq!['_'],
{
    let mut prefix = to_chars(session);
    prefix.push('_');
    prefix
}

/// Names the archives of the session `name` that are older than `time`
/// seconds. A file whose age cannot be read stays.
pub fn delete_backups_older_than(name: &str, time: u64, listing: &Vec<Archive>) -> (out: Vec<
    String,
>)
    ensures
        views(out@) == older_than(listing@, name@, time),
{
    let prefix = session_prefix(name);
    let mut out: Vec<String> = Vec::new();
    let mut i: usize = 0;
    while i < listing.len()
        invariant
            i <= listing.len(),
            prefix@ == name@ + seq!['_'],
            views(out@) == older_than(listing@.take(i as int), name@, time),
        decreases listing.len() - i,
    {
        assert(listing@.take(i + 1).drop_last() == listing@.take(i as int));
        let entry = &listing[i];
        let old = match entry.age {
            Some(age) => age > time,
            None => false,
        };
        if old && is_of_session(entry.name.as_str(), &prefix) {
            let ghost before = views(out@);
            out.push(entry.name.clone());
            assert(views(out@) =~= before.push(entry.name@));
        }
        i += 1;
    }
    assert(listing@.take(listing.len() as int) == listing@);
    out
}

impl BackupSlot {
    /// The slot of an archive that was made `age` seconds ago.
    pub fn new(name: String, age: u64) -> (slot: BackupSlot)
        ensures
            slot.name == name,
            slot.elapsed_time == age / SLOTTED_BACKUP_EPSILON,
    {
        BackupSlot { name, elapsed_time: age / SLOTTED_BACKUP_EPSILON }
    }

    /// The tier that the archive falls in.
    pub fn tier(&self) -> (t: Tier)
        ensures
            t == tier_of(self.elapsed_time),
    {
        if self.elapsed_time < DAY / SLOTTED_BACKUP_EPSILON {
            Tier::Hourly
        } else if self.elapsed_time < WEEK / SLOTTED_BACKUP_EPSILON {
            Tier::Daily
        } else if self.elapsed_time < MONTH / SLOTTED_BACKUP_EPSILON {
            Tier::Weekly
        } else {
            Tier::Monthly
        }
    }
}

impl Game {
    /// How many archives the tier keeps: its slot count, none where it has no
    /// count.
    pub open spec fn slots(&self, tier: Tier) -> nat {
        let count = match tier {
            Tier::Hourly => self.hourly_slots,
            Tier::Daily => self.daily_slots,
            Tier::Weekly => self.weekly_slots,
            Tier::Monthly => self.monthly_slots,
        };
        match count {
            Some(n) => n as nat,
            None => 0,
        }
    }

    /// Whether the archive at `i` is of the session and stays: fewer archives
    /// are kept before it than its tier has slots.
    pub open spec fn keeps(&self, backups: Seq<BackupSlot>, session: Seq<char>, i: int) -> bool {
        belongs_to(backups[i].name@, session) && rank(backups, session, i) < self.slots(
            tier_of(backups[i].elapsed_time),
        )
    }

    /// The names of the archives among the first `n` that are of the session
    /// and do not stay, in the order of the listing.
    pub open spec fn overflow(&self, backups: Seq<BackupSlot>, session: Seq<char>, n: int) -> Seq<
        Seq<char>,
    >
        decreases n,
    {
        if n <= 0 {
            Seq::empty()
        } else {
            let before = self.overflow(backups, session, n - 1);
            if belongs_to(backups[n - 1].name@, session) && !self.keeps(backups, session, n - 1) {
                before.push(backups[n - 1].name@)
            } else {
                before
            }
        }
    }

    /// Whether any tier has a slot count: the session's backups are slotted.
    pub fn is_slotted_backups(&self) -> (r: bool)
        ensures
            r == (self.hourly_slots is Some || self.daily_slots is Some || self.weekly_slots
                is Some || self.monthly_slots is Some),
    {
        self.hourly_slots.is_some() || self.daily_slots.is_some() || self.weekly_slots.is_some()
            || self.monthly_slots.is_some()
    }

    fn slot_count(&self, tier: Tier) -> (n: u64)
        ensures
            n == self.slots(tier),
    {
        let count = match tier {
            Tier::Hourly => self.hourly_slots,
            Tier::Daily => self.daily_slots,
            Tier::Weekly => self.weekly_slots,
            Tier::Monthly => self.monthly_slots,
        };
        match count {
            Some(n) => n,
            None => 0,
        }
    }

    /// The tier whose turn it is to take a backup at `clock`, if any: the
    /// first of monthly, weekly, daily and hourly whose period divides the
    /// clock.
    pub fn perform_slotted_backups(&self, clock: u64) -> (tier: Option<Tier>)
        ensures
            tier == due_tier(clock),
    {
        if clock % MONTH == 0 {
            Some(Tier::Monthly)
        } else if clock % WEEK == 0 {
            Some(Tier::Weekly)
        } else if clock % DAY == 0 {
            Some(Tier::Daily)
        } else if clock % HOUR == 0 {
            Some(Tier::Hourly)
        } else {
            None
        }
    }

    /// Whether the session's schedule asks for a backup at `clock`.
    pub open spec fn due(&self, clock: u64) -> bool {
        if self.hourly_slots is Some || self.daily_slots is Some || self.weekly_slots is Some
            || self.monthly_slots is Some {
            due_tier(clock) is Some
        } else {
            match self.backup_interval {
                Some(interval) => interval > 0 && clock % interval == 0,
                None => false,
            }
        }
    }

    /// What the session's schedule asks for once `clock` is due.
    pub open spec fn prune_at(&self, clock: u64) -> Prune {
        if self.hourly_slots is Some || self.daily_slots is Some || self.weekly_slots is Some
            || self.monthly_slots is Some {
            Prune::Slotted
        } else if self.due(clock) && self.backup_keep is Some {
            Prune::OlderThan(self.backup_keep->0)
        } else {
            Prune::Nothing
        }
    }

    /// Decides what one tick of the clock asks of this session. With slot
    /// counts the interval and the keeping time are not looked at: a backup
    /// is due when a tier's period divides the clock, and the tiers are
    /// pruned at every tick. Without them a backup is due when the interval
    /// divides the clock, and is followed by the removal of what is older
    /// than the keeping time. A backup that is due is not started while the
    /// one before it is `in_flight`.
    pub fn perform_scheduled_backups(&self, clock: u64, in_flight: bool) -> (s: Schedule)
        ensures
            s.backup == (self.due(clock) && !in_flight),
            s.prune == self.prune_at(clock),
    {
        if self.is_slotted_backups() {
            let due = self.perform_slotted_backups(clock).is_some();
            return Schedule { backup: due && !in_flight, prune: Prune::Slotted };
        }
        let due = match self.backup_interval {
            Some(interval) => interval > 0 && clock % interval == 0,
            None => false,
        };
        let prune = match self.backup_keep {
            Some(keep) => if due {
                Prune::OlderThan(keep)
            } else {
                Prune::Nothing
            },
            None => Prune::Nothing,
        };
        Schedule { backup: due && !in_flight, prune }
    }

    /// Names the archives of the session `name` that slotted retention
    /// removes. Each archive of the session falls in one tier by its age; a
    /// tier keeps its youngest archives, as many as it has slots, and the
    /// rest of it goes. Files of other sessions are not touched.
    pub fn delete_slotted_backups(&self, name: &str, backups: &Vec<BackupSlot>) -> (out: Vec<
        String,
    >)
        ensures
            views(out@) == self.overflow(backups@, name@, backups@.len() as int),
    {
        let prefix = session_prefix(name);
        let n = backups.len();
        let mut of_session: Vec<bool> = Vec::new();
        let mut k: usize = 0;
        while k < n
            invariant
                k <= n,
                n == backups.len(),
                prefix@ == name@ + seq!['_'],
                of_session.len() == k,
                forall|j: int| 0 <= j < k ==> of_session@[j] == belongs_to(backups@[j].name@, name@),
            decreases n - k,
        {
            of_session.push(is_of_session(backups[k].name.as_str(), &prefix));
            k += 1;
        }
        let mut out: Vec<String> = Vec::new();
        let mut i: usize = 0;
        while i < n
            invariant
                i <= n,
                n == backups.len(),
                of_session.len() == n,
                forall|j: int| 0 <= j < n ==> of_session@[j] == belongs_to(backups@[j].name@, name@),
                views(out@) == self.overflow(backups@, name@, i as int),
            decreases n - i,
        {
            if of_session[i] {
                let tier = backups[i].tier();
                let age = backups[i].elapsed_time;
                let limit = self.slot_count(tier);
                // Count the archives kept before this one, up to the limit.
                let mut before: u64 = 0;
                let mut j: usize = 0;
                while j < n
                    invariant
                        j <= n,
                        i < n,
                        n == backups.len(),
                        of_session.len() == n,
                        forall|j: int|
                            0 <= j < n ==> of_session@[j] == belongs_to(backups@[j].name@, name@),
                        tier == tier_of(backups@[i as int].elapsed_time),
                        age == backups@[i as int].elapsed_time,
                        before == rank_among(backups@, name@, i as int, j as int),
                        before <= j,
                    decreases n - j,
                {
                    if of_session[j] && backups[j].tier() == tier {
                        let other = backups[j].elapsed_time;
                        if other < age || (other == age && j < i) {
                            before += 1;
                        }
                    }
                    j += 1;
                }
                if before >= limit {
                    out.push(backups[i].name.clone());
                }
            }
            i += 1;
        }
        out
    }
}

/// The bytes of one GiB.
pub const GIB: u64 = 1073741824;

/// A file of a directory, as the directory lists it.
#[derive(Clone, Debug)]
pub struct FileEntry {
    pub name: String,
    /// Its size in bytes.
    pub size: u64,
}

/// `bytes` in hundredths of `unit`, rounded to the nearest; a half goes to
/// the even neighbour.
pub open spec fn hundredths(bytes: nat, unit: nat) -> nat {
    let whole = bytes * 100 / unit;
    let rest = bytes * 100 % unit;
    if 2 * rest > unit || (2 * rest == unit && whole % 2 == 1) {
        whole + 1
    } else {
        whole
    }
}

/// A number of hundredths written with two decimal places.
pub open spec fn two_places(h: nat) -> Seq<char> {
    decimal(h / 100) + seq!['.', digit_char((h / 10 % 10) as int), digit_char((h % 10) as int)]
}

/// A size as people read it: in GiB from 2^30 bytes on, in units of a million
/// bytes from a million on, in units of a thousand bytes from a thousand on,
/// each with two decimal places, and in bytes below that.
pub open spec fn human_size(bytes: u64) -> Seq<char> {
    if bytes >= GIB {
        two_places(hundredths(bytes as nat, GIB as nat)) + " GiB"@
    } else if bytes >= 1000000 {
        two_places(hundredths(bytes as nat, 1000000)) + " MiB"@
    } else if bytes >= 1000 {
        two_places(hundredths(bytes as nat, 1000)) + " KiB"@
    } else {
        decimal(bytes as nat) + " B"@
    }
}

/// The line of a listing for one file: its name, and its size in brackets.
pub open spec fn entry_line(entry: FileEntry) -> Seq<char> {
    entry.name@ + " ("@ + human_size(entry.size) + ")"@
}

/// The lines of a listing: one for each file.
pub open spec fn entry_lines(entries: Seq<FileEntry>) -> Seq<Seq<char>> {
    Seq::new(entries.len(), |i: int| entry_line(entries[i]))
}

/// The files that are archives: those whose name holds `tar.gz`.
pub open spec fn archives_among(entries: Seq<FileEntry>) -> Seq<FileEntry>
    decreases entries.len(),
{
    if entries.len() == 0 {
        Seq::empty()
    } else {
        let before = archives_among(entries.drop_last());
        if occurs_in("tar.gz"@, entries.last().name@) {
            before.push(entries.last())
        } else {
            before
        }
    }
}

/// A listing as one text: its lines in the order of strings, one below the
/// other.
pub open spec fn listing_text(entries: Seq<FileEntry>) -> Seq<char> {
    join(sorted_lines(entry_lines(entries)), "\n"@)
}

fn push_two_places(out: &mut Vec<char>, bytes: u64, unit: u64)
    requires
        unit > 0,
    ensures
        final(out)@ == old(out)@ + two_places(hundredths(bytes as nat, unit as nat)),
{
    let scaled: u128 = (bytes as u128) * 100;
    let whole: u128 = scaled / (unit as u128);
    let rest: u128 = scaled % (unit as u128);
    let h: u128 = if 2 * rest > unit as u128 || (2 * rest == unit as u128 && whole % 2 == 1) {
        whole + 1
    } else {
        whole
    };
    push_decimal(out, h / 100);
    out.push('.');
    out.push(digit_of((h / 10 % 10) as u8));
    out.push(digit_of((h % 10) as u8));
}

fn push_human(out: &mut Vec<char>, bytes: u64)
    ensures
        final(out)@ == old(out)@ + human_size(bytes),
{
    if bytes >= GIB {
        push_two_places(out, bytes, GIB);
        push_str(out, " GiB");
    } else if bytes >= 1000000 {
        push_two_places(out, bytes, 1000000);
        push_str(out, " MiB");
    } else if bytes >= 1000 {
        push_two_places(out, bytes, 1000);
        push_str(out, " KiB");
    } else {
        push_decimal(out, bytes as u128);
        push_str(out, " B");
    }
}

fn line_of(entry: &FileEntry) -> (line: Vec<char>)
    ensures
        line@ == entry_line(*entry),
{
    let mut line: Vec<char> = Vec::new();
    push_str(&mut line, entry.name.as_str());
    push_str(&mut line, " (");
    push_human(&mut line, entry.size);
    push_str(&mut line, ")");
    line
}

/// Lists the archives among `entries`, the files of all backup directories:
/// the files whose name holds `tar.gz`, each with its size, in the order of
/// strings.
pub fn list_backups(entries: &Vec<FileEntry>) -> (r: String)
    ensures
        r@ == listing_text(archives_among(entries@)),
{
    let mut lines: Vec<Vec<char>> = Vec::new();
    let pat = to_chars("tar.gz");
    let mut i: usize = 0;
    while i < entries.len()
        invariant
            i <= entries.len(),
            pat@ == "tar.gz"@,
            char_views(lines@) == entry_lines(archives_among(entries@.take(i as int))),
        decreases entries.len() - i,
    {
        assert(entries@.take(i + 1).drop_last() == entries@.take(i as int));
        let name = to_chars(entries[i].name.as_str());
        if contains(&name, &pat) {
            let ghost before = char_views(lines@);
            let ghost kept = archives_among(entries@.take(i as int));
            lines.push(line_of(&entries[i]));
            assert(char_views(lines@) =~= before.push(entry_line(entries@[i as int])));
            assert(entry_lines(kept.push(entries@[i as int])) =~= entry_lines(kept).push(
                entry_line(entries@[i as int]),
            ));
        }
        i += 1;
    }
    assert(entries@.take(entries.len() as int) == entries@);
    let sorted = sort(&lines);
    let out = joined(&sorted, "\n");
    from_chars(&out)
}

/// The directory that the session's archives go to: its own, or the manager's.
pub open spec fn location_of(session: Session, default: Seq<char>) -> Seq<char> {
    match session.game {
        Some(game) => match game.backup_path {
            Some(path) => path@,
            None => default,
        },
        None => default,
    }
}

/// The backup directories of the sessions, each once, in the order in which
/// the sessions first name them.
pub open spec fn locations_of(sessions: Seq<Session>, default: Seq<char>) -> Seq<Seq<char>>
    decreases sessions.len(),
{
    if sessions.len() == 0 {
        Seq::empty()
    } else {
        let before = locations_of(sessions.drop_last(), default);
        let dir = location_of(sessions.last(), default);
        if before.contains(dir) {
            before
        } else {
            before.push(dir)
        }
    }
}

fn holds(list: &Vec<String>, item: &str) -> (r: bool)
    ensures
        r == views(list@).contains(item@),
{
    let mut i: usize = 0;
    while i < list.len()
        invariant
            i <= list.len(),
            forall|k: int| 0 <= k < i ==> list@[k]@ != item@,
        decreases list.len() - i,
    {
        if str_eq(list[i].as_str(), item) {
            assert(views(list@)[i as int] == item@);
            return true;
        }
        i += 1;
    }
    assert forall|k: int| 0 <= k < views(list@).len() implies views(list@)[k] != item@ by {
    }
    false
}

/// The backup directories that a listing of all archives has to read: that
/// of each session, and none of them twice.
pub fn backup_locations(sessions: &Vec<Session>, default: &str) -> (out: Vec<String>)
    ensures
        views(out@) == locations_of(sessions@, default@),
{
    let mut out: Vec<String> = Vec::new();
    let mut i: usize = 0;
    while i < sessions.len()
        invariant
            i <= sessions.len(),
            views(out@) == locations_of(sessions@.take(i as int), default@),
        decreases sessions.len() - i,
    {
        assert(sessions@.take(i + 1).drop_last() == sessions@.take(i as int));
        let dir: &str = match &sessions[i].game {
            Some(game) => match &game.backup_path {
                Some(path) => path.as_str(),
                None => default,
            },
            None => default,
        };
        if !holds(&out, dir) {
            out.push(dir.to_owned());
        }
        i += 1;
    }
    assert(sessions@.take(sessions.len() as int) == sessions@);
    out
}

/// A moment of the local calendar.
#[derive(Clone, Copy, Debug, PartialEq, Eq, Structural)]
pub struct Moment {
    pub year: i32,
    pub month: u32,
    pub day: u32,
    pub hour: u32,
    pub minute: u32,
    pub second: u32,
}

/// A number in at least two digits.
pub open spec fn two_digits(n: u32) -> Seq<char> {
    pad_left(decimal(n as nat), 2, '0')
}

/// The name of the archive that a backup of `session` started at `at` makes:
/// the session, the date and the time, each part filled with zeros to its
/// width.
pub open spec fn archive_name(session: Seq<char>, at: Moment) -> Seq<char> {
    session + seq!['_'] + pad_left(signed_decimal(at.year as int), 4, '0') + seq!['-']
        + two_digits(at.month) + seq!['-'] + two_digits(at.day) + seq!['_'] + two_digits(at.hour)
        + seq!['_'] + two_digits(at.minute) + seq!['_'] + two_digits(at.second) + ".tar.gz"@
}

fn push_two_digits(out: &mut Vec<char>, n: u32)
    ensures
        final(out)@ == old(out)@ + two_digits(n),
{
    let mut digits: Vec<char> = Vec::new();
    push_decimal(&mut digits, n as u128);
    push_padded(out, &digits, 2, '0');
}

/// Names the archive of a backup of `session` that starts at `at`.
pub fn name_archive(session: &str, at: &Moment) -> (r: String)
    ensures
        r@ == archive_name(session@, *at),
{
    let mut out: Vec<char> = Vec::new();
    push_str(&mut out, session);
    out.push('_');
    let mut year: Vec<char> = Vec::new();
    push_signed_decimal(&mut year, at.year as i64);
    push_padded(&mut out, &year, 4, '0');
    out.push('-');
    push_two_digits(&mut out, at.month);
    out.push('-');
    push_two_digits(&mut out, at.day);
    out.push('_');
    push_two_digits(&mut out, at.hour);
    out.push('_');
    push_two_digits(&mut out, at.minute);
    out.push('_');
    push_two_digits(&mut out, at.second);
    push_str(&mut out, ".tar.gz");
    from_chars(&out)
}

/// What a backup has to do: copy the world into the backup directory, and
/// pack the copy into the archive there.
#[derive(Clone, Debug)]
pub struct BackupJob {
    /// The directory of the world.
    pub source: String,
    /// The backup directory.
    pub dest: String,
    /// The name of the archive.
    pub archive: String,
}

/// Whether a backup is started.
#[derive(Clone, Debug)]
pub enum BackupPlan {
    /// It is not, for the reason given.
    Refused(String),
    /// It is.
    Run(BackupJob),
}

impl BackupPlan {
    /// What the one who asked for the backup is told. `source_ready` says
    /// whether the directory of the world is there, or could be made.
    pub fn message(&self, source_ready: bool) -> (r: String)
        ensures
            r@ == match *self {
                BackupPlan::Refused(reason) => reason@,
                BackupPlan::Run(_) => if source_ready {
                    "starting new backup"@
                } else {
                    "Backup location does not exists"@
                },
            },
    {
        match self {
            BackupPlan::Refused(reason) => reason.clone(),
            BackupPlan::Run(_) => if source_ready {
                "starting new backup".to_owned()
            } else {
                "Backup location does not exists".to_owned()
            },
        }
    }
}

/// The three dimensions of a world.
#[derive(Clone, Copy, Debug, PartialEq, Eq, Structural)]
pub enum Dimension {
    Overworld,
    Nether,
    End,
}

/// What is copied for the web server.
#[derive(Clone, Copy, Debug, PartialEq, Eq, Structural)]
pub enum CopyKind {
    Region,
    Structure,
}

/// How a copy for the web server ended.
#[derive(Clone, Copy, Debug, PartialEq, Eq, Structural)]
pub enum CopyOutcome {
    /// The folder to copy into is not there and could not be made.
    NoFolder,
    /// The file to copy is not there.
    Missing,
    /// The copy failed.
    Failed,
    /// The file was copied.
    Copied,
}

/// A copy of one file for the web server.
#[derive(Clone, Debug)]
pub struct CopyJob {
    pub kind: CopyKind,
    /// The file to copy.
    pub from: String,
    /// The folder to copy it into.
    pub to_dir: String,
    /// Where the web server then offers it.
    pub url: String,
}

/// Whether a file is copied for the web server.
#[derive(Clone, Debug)]
pub enum CopyPlan {
    /// It is not, for the reason given.
    Refused(String),
    /// It is.
    Run(CopyJob),
}

/// The name of the file of the region at `x` and `z`.
pub open spec fn region_file(x: i32, z: i32) -> Seq<char> {
    "r."@ + signed_decimal(x as int) + seq!['.'] + signed_decimal(z as int) + ".mca"@
}

/// Where the regions of a dimension lie below the directory of the world.
pub open spec fn region_folder(dimension: Dimension) -> Seq<char> {
    match dimension {
        Dimension::Overworld => "/region/"@,
        Dimension::Nether => "/DIM-1/region/"@,
        Dimension::End => "/DIM1/region/"@,
    }
}

impl CopyJob {
    /// What the one who asked for the copy is told.
    pub fn message(&self, outcome: CopyOutcome) -> (r: String)
        ensures
            r@ == match outcome {
                CopyOutcome::NoFolder => "Unable to create region folder"@,
                CopyOutcome::Missing => match self.kind {
                    CopyKind::Region => "Region does not exists"@,
                    CopyKind::Structure => "Structure does not exists"@,
                },
                CopyOutcome::Failed => match self.kind {
                    CopyKind::Region => "Failed to copy region into webserver folder"@,
                    CopyKind::Structure => "Failed to copy structure into webserver folder"@,
                },
                CopyOutcome::Copied => self.url@,
            },
    {
        match outcome {
            CopyOutcome::NoFolder => "Unable to create region folder".to_owned(),
            CopyOutcome::Missing => match self.kind {
                CopyKind::Region => "Region does not exists".to_owned(),
                CopyKind::Structure => "Structure does not exists".to_owned(),
            },
            CopyOutcome::Failed => match self.kind {
                CopyKind::Region => "Failed to copy region into webserver folder".to_owned(),
                CopyKind::Structure => "Failed to copy structure into webserver folder".to_owned(),
            },
            CopyOutcome::Copied => self.url.clone(),
        }
    }
}

fn concat3(a: &str, b: &Vec<char>, c: &Vec<char>) -> (r: String)
    ensures
        r@ == a@ + b@ + c@,
{
    let mut out = to_chars(a);
    crate::text::push_all(&mut out, b);
    crate::text::push_all(&mut out, c);
    from_chars(&out)
}

impl Game {
    /// Formats a size for people to read.
    pub fn bytes_to_human(bytes: u64) -> (r: String)
        ensures
            r@ == human_size(bytes),
    {
        let mut out: Vec<char> = Vec::new();
        push_human(&mut out, bytes);
        from_chars(&out)
    }

    /// Lists the structures of the world. `listing` holds the files of the
    /// world's `structure` folder, or `None` where the folder cannot be read.
    pub fn list_structures(&self, listing: Option<&Vec<FileEntry>>) -> (r: String)
        ensures
            r@ == match (self.file_path, listing) {
                (None, _) => "no configured file path"@,
                (Some(_), None) => "Unable to access structure folder"@,
                (Some(_), Some(entries)) => listing_text(entries@),
            },
    {
        if self.file_path.is_none() {
            return "no configured file path".to_owned();
        }
        let entries = match listing {
            Some(entries) => entries,
            None => {
                return "Unable to access structure folder".to_owned();
            },
        };
        let mut lines: Vec<Vec<char>> = Vec::new();
        let mut i: usize = 0;
        while i < entries.len()
            invariant
                i <= entries.len(),
                lines.len() == i,
                forall|k: int| 0 <= k < i ==> lines@[k]@ == entry_line(entries@[k]),
            decreases entries.len() - i,
        {
            lines.push(line_of(&entries[i]));
            i += 1;
        }
        assert(char_views(lines@) =~= entry_lines(entries@));
        let sorted = sort(&lines);
        let out = joined(&sorted, "\n");
        from_chars(&out)
    }

    /// The directory that the game's archives go to: its own, or `default`.
    pub fn backup_dir(&self, default: &str) -> (r: String)
        ensures
            r@ == match self.backup_path {
                Some(path) => path@,
                None => default@,
            },
    {
        match &self.backup_path {
            Some(path) => path.clone(),
            None => default.to_owned(),
        }
    }

    /// Decides whether a backup of the session `name` is started, and names
    /// its archive. None is started without a directory of the world, nor on
    /// an unhealthy host.
    pub fn backup(&self, sys: &Sys, name: &str, backup_location: &str, now: &Moment) -> (plan:
        BackupPlan)
        ensures
            match plan {
                BackupPlan::Refused(reason) => if self.file_path is None {
                    reason@ == "Unable to reach file path"@
                } else {
                    sys.unhealthy() && reason@ == "Backup aborted due to system constraints"@
                },
                BackupPlan::Run(job) => {
                    &&& self.file_path is Some
                    &&& !sys.unhealthy()
                    &&& job.source@ == self.file_path->0@
                    &&& job.dest@ == backup_location@
                    &&& job.archive@ == archive_name(name@, *now)
                },
            },
    {
        let source = match &self.file_path {
            Some(path) => path.clone(),
            None => {
                return BackupPlan::Refused("Unable to reach file path".to_owned());
            },
        };
        if sys.sys_health_check() {
            return BackupPlan::Refused("Backup aborted due to system constraints".to_owned());
        }
        BackupPlan::Run(
            BackupJob {
                source,
                dest: backup_location.to_owned(),
                archive: name_archive(name, now),
            },
        )
    }

    /// Plans the copy of one region of the world into the web server's
    /// `region` folder. Nothing is copied unless the session has a directory
    /// of the world and the web server has a folder and an address.
    pub fn copy_region(&self, config: &Config, dimension: Dimension, x: i32, z: i32) -> (plan:
        CopyPlan)
        ensures
            match plan {
                CopyPlan::Refused(reason) => {
                    &&& self.file_path is None || config.webserver_location is None
                        || config.webserver_prefix is None
                    &&& reason@ == "webserver not configured"@
                },
                CopyPlan::Run(job) => {
                    &&& self.file_path is Some
                    &&& config.webserver_location is Some
                    &&& config.webserver_prefix is Some
                    &&& job.kind == CopyKind::Region
                    &&& job.from@ == self.file_path->0@ + region_folder(dimension) + region_file(
                        x,
                        z,
                    )
                    &&& job.to_dir@ == config.webserver_location->0@ + "/region"@
                    &&& job.url@ == config.webserver_prefix->0@ + "/region/"@ + region_file(x, z)
                },
            },
    {
        match (&self.file_path, &config.webserver_location, &config.webserver_prefix) {
            (Some(path), Some(location), Some(prefix)) => {
                let mut file: Vec<char> = Vec::new();
                push_str(&mut file, "r.");
                push_signed_decimal(&mut file, x as i64);
                file.push('.');
                push_signed_decimal(&mut file, z as i64);
                push_str(&mut file, ".mca");
                let folder = match dimension {
                    Dimension::Overworld => to_chars("/region/"),
                    Dimension::Nether => to_chars("/DIM-1/region/"),
                    Dimension::End => to_chars("/DIM1/region/"),
                };
                let none: Vec<char> = Vec::new();
                let web_folder = to_chars("/region");
                let web_path = to_chars("/region/");
                let to_dir = concat3(location.as_str(), &web_folder, &none);
                CopyPlan::Run(
                    CopyJob {
                        kind: CopyKind::Region,
                        from: concat3(path.as_str(), &folder, &file),
                        to_dir,
                        url: concat3(prefix.as_str(), &web_path, &file),
                    },
                )
            },
            _ => CopyPlan::Refused("webserver not configured".to_owned()),
        }
    }

    /// Plans the copy of the structure `name` of the world into the web
    /// server's `structure` folder.
    pub fn copy_structure(&self, config: &Config, name: &str) -> (plan: CopyPlan)
        ensures
            match plan {
                CopyPlan::Refused(reason) => {
                    &&& self.file_path is None || config.webserver_location is None
                        || config.webserver_prefix is None
                    &&& reason@ == "webserver not configured"@
                },
                CopyPlan::Run(job) => {
                    &&& self.file_path is Some
                    &&& config.webserver_location is Some
                    &&& config.webserver_prefix is Some
                    &&& job.kind == CopyKind::Structure
                    &&& job.from@ == self.file_path->0@ + "/structure/"@ + name@
                    &&& job.to_dir@ == config.webserver_location->0@ + "/structure"@
                    &&& job.url@ == config.webserver_prefix->0@ + "/structure/"@ + name@
                },
            },
    {
        match (&self.file_path, &config.webserver_location, &config.webserver_prefix) {
            (Some(path), Some(location), Some(prefix)) => {
                let file = to_chars(name);
                let none: Vec<char> = Vec::new();
                let folder = to_chars("/structure");
                let below = to_chars("/structure/");
                let to_dir = concat3(location.as_str(), &folder, &none);
                CopyPlan::Run(
                    CopyJob {
                        kind: CopyKind::Structure,
                        from: concat3(path.as_str(), &below, &file),
                        to_dir,
                        url: concat3(prefix.as_str(), &below, &file),
                    },
                )
            },
            _ => CopyPlan::Refused("webserver not configured".to_owned()),
        }
    }
}

} // verus!
