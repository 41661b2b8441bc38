//! The configuration of the manager and of its sessions, and the rules that
//! a configuration has to meet before the manager starts on it.
use vstd::prelude::*;
use crate::bridge::Session;
use crate::decimal::{decimal, push_decimal, read_u8, u8_value};
use crate::text::{
    char_views, from_chars, pieces, split, split_words, str_eq, to_chars, views, words,
};

verus! {

/// Where a session answers remote console commands.
#[derive(Clone, Debug)]
pub struct Rcon {
    /// The host; `None` stands for the local host.
    pub ip: Option<String>,
    pub port: u16,
    pub password: String,
}

/// A task that the manager runs on a schedule.
#[derive(Clone, Debug)]
pub struct Script {
    pub description: String,
    pub interval: Option<u64>,
    pub start_unix: Option<u64>,
    pub shell_cmd: Option<String>,
    pub session_name: Option<String>,
    pub rcon_cmd: Option<String>,
}

/// The configuration of the whole manager.
#[derive(Clone, Debug)]
pub struct Config {
    pub ws_ip: String,
    pub ws_port: u64,
    pub ws_password: String,
    pub webserver_location: Option<String>,
    pub webserver_prefix: Option<String>,
    pub backup_location: String,
    pub scripts: Option<Vec<Script>>,
    pub restart_script: Option<String>,
    pub recompile_directory: Option<String>,
}

/// Why a configuration is turned down.
#[derive(Clone, Copy, Debug, PartialEq, Eq, Structural)]
pub enum ConfigError {
    /// The address to bind to is not four octets with dots between them.
    BadAddress,
    /// The port is not between 1 and 65535.
    BadPort,
    /// The backup directory is not an absolute path.
    RelativeBackupLocation,
}

/// Why a set of sessions is turned down.
#[derive(Clone, Copy, Debug, PartialEq, Eq, Structural)]
pub enum SessionError {
    /// The session at this position bears the name of an earlier one.
    DuplicateName(usize),
    /// The game of the session at this position sets slot counts together
    /// with an interval or a keeping time.
    MixedBackupModes(usize),
}

/// What a script asks for when its time has come.
#[derive(Debug)]
pub struct ScriptPlan {
    /// The sessions whose remote console gets the script's command, by
    /// their positions.
    pub consoles: Vec<usize>,
    /// The program to start and its arguments, where the script has any.
    pub shell: Option<Vec<String>>,
}

/// The four octets that an address names, or `None` where it is not four
/// decimal octets with dots between them.
pub open spec fn octets_of(ip: Seq<char>) -> Option<(u8, u8, u8, u8)> {
    let p = pieces(ip, '.');
    if p.len() == 4 && u8_value(p[0]) is Some && u8_value(p[1]) is Some && u8_value(p[2]) is Some
        && u8_value(p[3]) is Some {
        Some((u8_value(p[0])->0, u8_value(p[1])->0, u8_value(p[2])->0, u8_value(p[3])->0))
    } else {
        None
    }
}

/// Whether a path is absolute: it begins with a slash.
pub open spec fn is_absolute(path: Seq<char>) -> bool {
    path.len() > 0 && path[0] == '/'
}

impl Rcon {
    /// The host to connect to: the one configured, or the local host.
    pub fn host(&self) -> (r: String)
        ensures
            r@ == match self.ip {
                Some(ip) => ip@,
                None => "localhost"@,
            },
    {
        match &self.ip {
            Some(ip) => ip.clone(),
            None => "localhost".to_owned(),
        }
    }

    /// The port to connect to, in decimal notation.
    pub fn port_text(&self) -> (r: String)
        ensures
            r@ == decimal(self.port as nat),
    {
        let mut out: Vec<char> = Vec::new();
        push_decimal(&mut out, self.port as u128);
        from_chars(&out)
    }
}

impl Config {
    /// What of the configuration is wrong, if anything: the first of a bad
    /// address, a bad port and a relative backup directory.
    pub open spec fn fault(&self) -> Option<ConfigError> {
        if octets_of(self.ws_ip@) is None {
            Some(ConfigError::BadAddress)
        } else if !(1 <= self.ws_port <= 65535) {
            Some(ConfigError::BadPort)
        } else if !is_absolute(self.backup_location@) {
            Some(ConfigError::RelativeBackupLocation)
        } else {
            None
        }
    }

    /// Reads the address to bind to.
    pub fn octets(&self) -> (r: Option<(u8, u8, u8, u8)>)
        ensures
            r == octets_of(self.ws_ip@),
    {
        let p = split(&to_chars(self.ws_ip.as_str()), '.');
        if p.len() != 4 {
            return None;
        }
        match (read_u8(&p[0]), read_u8(&p[1]), read_u8(&p[2]), read_u8(&p[3])) {
            (Some(a), Some(b), Some(c), Some(d)) => Some((a, b, c, d)),
            _ => None,
        }
    }

    /// Checks the configuration: the address is four octets, the port lies
    /// between 1 and 65535, and the backup directory is absolute.
    pub fn validate(&self) -> (r: Result<(), ConfigError>)
        ensures
            match r {
                Ok(_) => self.fault() is None,
                Err(e) => self.fault() == Some(e),
            },
    {
        if self.octets().is_none() {
            return Err(ConfigError::BadAddress);
        }
        if self.ws_port < 1 || self.ws_port > 65535 {
            return Err(ConfigError::BadPort);
        }
        let dir = to_chars(self.backup_location.as_str());
        if dir.len() == 0 || dir[0] != '/' {
            return Err(ConfigError::RelativeBackupLocation);
        }
        Ok(())
    }

    /// The address and port to listen on, where the configuration is sound.
    pub fn bind_address(&self) -> (r: Option<((u8, u8, u8, u8), u16)>)
        ensures
            match r {
                Some((ip, port)) => self.fault() is None && Some(ip) == octets_of(self.ws_ip@)
                    && port == self.ws_port,
                None => self.fault() is Some,
            },
    {
        match self.validate() {
            Ok(_) => match self.octets() {
                Some(ip) => Some((ip, self.ws_port as u16)),
                None => None,
            },
            Err(_) => None,
        }
    }
}

/// Whether a game sets slot counts together with an interval or a keeping
/// time: the two ways of backing up do not go together.
pub open spec fn mixes_modes(session: Session) -> bool {
    &&& session.game is Some
    &&& {
        let game = session.game->0;
        &&& game.hourly_slots is Some || game.daily_slots is Some || game.weekly_slots is Some
            || game.monthly_slots is Some
        &&& game.backup_interval is Some || game.backup_keep is Some
    }
}

/// Whether the session at `i` bears the name of an earlier one.
pub open spec fn repeats_name(sessions: Seq<Session>, i: int) -> bool {
    exists|j: int| 0 <= j < i && (#[trigger] sessions[j]).name@ == sessions[i].name@
}

/// What is wrong with the session at `i`, if anything.
pub open spec fn session_fault(sessions: Seq<Session>, i: int) -> Option<SessionError> {
    if repeats_name(sessions, i) {
        Some(SessionError::DuplicateName(i as usize))
    } else if mixes_modes(sessions[i]) {
        Some(SessionError::MixedBackupModes(i as usize))
    } else {
        None
    }
}

/// Whether the session at `i` is the first at fault, and `e` is its fault.
pub open spec fn is_first_fault(sessions: Seq<Session>, i: int, e: SessionError) -> bool {
    &&& 0 <= i < sessions.len()
    &&& session_fault(sessions, i) == Some(e)
    &&& forall|j: int| 0 <= j < i ==> session_fault(sessions, j) is None
}

/// Checks a set of sessions: no two bear one name, and no game mixes the
/// two ways of backing up. The first session at fault is named.
pub fn check_sessions(sessions: &Vec<Session>) -> (r: Result<(), SessionError>)
    ensures
        match r {
            Ok(_) => forall|i: int| 0 <= i < sessions@.len() ==> session_fault(sessions@, i) is None,
            Err(e) => exists|i: int| #[trigger] is_first_fault(sessions@, i, e),
        },
{
    let mut i: usize = 0;
    while i < sessions.len()
        invariant
            i <= sessions.len(),
            forall|j: int| 0 <= j < i ==> session_fault(sessions@, j) is None,
        decreases sessions.len() - i,
    {
        let mut k: usize = 0;
        while k < i
            invariant
                k <= i < sessions.len(),
                forall|j: int| 0 <= j < i ==> session_fault(sessions@, j) is None,
                forall|j: int|
                    0 <= j < k ==> (#[trigger] sessions@[j]).name@ != sessions@[i as int].name@,
            decreases i - k,
        {
            if str_eq(sessions[k].name.as_str(), sessions[i].name.as_str()) {
                assert(is_first_fault(sessions@, i as int, SessionError::DuplicateName(i)));
                return Err(SessionError::DuplicateName(i));
            }
            k += 1;
        }
        let mixed = match &sessions[i].game {
            Some(game) => game.is_slotted_backups() && (game.backup_interval.is_some()
                || game.backup_keep.is_some()),
            None => false,
        };
        if mixed {
            assert(is_first_fault(sessions@, i as int, SessionError::MixedBackupModes(i)));
            return Err(SessionError::MixedBackupModes(i));
        }
        i += 1;
    }
    Ok(())
}

/// Takes a freshly loaded set of sessions in place of the current one.
/// `loaded` is `None` where the files could not be read or parsed. The
/// current set gives way to a sound one as a whole, so that afterwards it
/// holds what was loaded and nothing else; otherwise it stays as it is.
pub fn reload(sessions: &mut Vec<Session>, loaded: Option<Vec<Session>>) -> (swapped: bool)
    ensures
        swapped <==> loaded is Some && forall|i: int|
            0 <= i < loaded->0@.len() ==> session_fault(loaded->0@, i) is None,
        swapped ==> *final(sessions) == loaded->0,
        !swapped ==> *final(sessions) == *old(sessions),
{
    match loaded {
        Some(fresh) => match check_sessions(&fresh) {
            Ok(_) => {
                *sessions = fresh;
                true
            },
            Err(_) => false,
        },
        None => false,
    }
}

impl Script {
    /// Whether the session at `i` gets the script's console command: the
    /// script has a command and names the session, and the session has a
    /// remote console.
    pub open spec fn reaches(&self, sessions: Seq<Session>, i: int) -> bool {
        &&& self.rcon_cmd is Some
        &&& self.session_name is Some
        &&& sessions[i].name@ == self.session_name->0@
        &&& sessions[i].rcon is Some
    }

    /// The program and arguments of the script's shell command: its words.
    /// `None` where it has no shell command, or one without a word.
    pub open spec fn shell_words(&self) -> Option<Seq<Seq<char>>> {
        match self.shell_cmd {
            Some(text) => if words(text@, false).len() > 0 {
                Some(words(text@, false))
            } else {
                None
            },
            None => None,
        }
    }

    /// Plans a run of the script: which consoles get its command, and which
    /// program it starts.
    pub fn run(&self, sessions: &Vec<Session>) -> (plan: ScriptPlan)
        ensures
            forall|k: int|
                0 <= k < plan.consoles@.len() ==> plan.consoles@[k] < sessions@.len()
                    && self.reaches(sessions@, plan.consoles@[k] as int),
            forall|k: int, l: int|
                0 <= k < l < plan.consoles@.len() ==> plan.consoles@[k] < plan.consoles@[l],
            forall|i: int|
                0 <= i < sessions@.len() && self.reaches(sessions@, i)
                    ==> plan.consoles@.contains(i as usize),
            match plan.shell {
                Some(argv) => self.shell_words() == Some(views(argv@)),
                None => self.shell_words() is None,
            },
    {
        let mut consoles: Vec<usize> = Vec::new();
        match (&self.rcon_cmd, &self.session_name) {
            (Some(_), Some(name)) => {
                let mut i: usize = 0;
                while i < sessions.len()
                    invariant
                        i <= sessions.len(),
                        self.rcon_cmd is Some,
                        self.session_name == Some(*name),
                        forall|k: int|
                            0 <= k < consoles@.len() ==> consoles@[k] < i && self.reaches(
                                sessions@,
                                consoles@[k] as int,
                            ),
                        forall|k: int, l: int|
                            0 <= k < l < consoles@.len() ==> consoles@[k] < consoles@[l],
                        forall|j: int|
                            0 <= j < i && self.reaches(sessions@, j) ==> consoles@.contains(
                                j as usize,
                            ),
                    decreases sessions.len() - i,
                {
                    if sessions[i].rcon.is_some() && str_eq(
                        sessions[i].name.as_str(),
                        name.as_str(),
                    ) {
                        let ghost before = consoles@;
                        consoles.push(i);
                        assert(consoles@[before.len() as int] == i);
                        assert forall|j: int|
                            0 <= j < i + 1 && self.reaches(
                                sessions@,
                                j,
                            ) implies consoles@.contains(j as usize) by {
                            if j < i {
                                let k = choose|k: int|
                                    0 <= k < before.len() && before[k] == j as usize;
                                assert(consoles@[k] == j as usize);
                            }
                        }
                    }
                    i += 1;
                }
            },
            _ => {},
        }
        let shell = match &self.shell_cmd {
            Some(text) => {
                let w = split_words(&to_chars(text.as_str()), false);
                if w.len() > 0 {
                    let mut argv: Vec<String> = Vec::new();
                    let mut k: usize = 0;
                    while k < w.len()
                        invariant
                            k <= w.len(),
                            argv.len() == k,
                            forall|m: int| 0 <= m < k ==> argv@[m]@ == w@[m]@,
                        decreases w.len() - k,
                    {
                        argv.push(from_chars(&w[k]));
                        k += 1;
                    }
                    Some(argv)
                } else {
                    None
                }
            },
            None => None,
        };
        ScriptPlan { consoles, shell }
    }
}

} // verus!
