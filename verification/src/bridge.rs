//! The chat bridge: reading the log of a game server line by line, telling
//! chat from the rest, and phrasing what goes back into the other servers.
use vstd::prelude::*;
use crate::backup::Game;
use crate::config::Rcon;
use crate::decimal::is_digits;
use crate::text::{
    char_views, find, from_chars, has_prefix, is_text, join, joined, lines, position, push_all,
    push_str, removed, same, slice, split_lines, split_words, tail, to_chars, trim, trim_end,
    trimmed, trimmed_end, views, without, words,
};

verus! {

/// One game server under the manager's control.
#[derive(Clone, Debug)]
pub struct Session {
    pub name: String,
    pub description: Option<String>,
    pub host: String,
    pub game: Option<Game>,
    pub rcon: Option<Rcon>,
}

/// The state of the bridge to one session's log.
#[derive(Clone, Debug)]
pub struct Bridge {
    pub name: String,
    /// How many lines of the log have been read.
    pub line: usize,
    /// `None`: switched off by the configuration. `Some(false)`: waiting for
    /// the server to start. `Some(true)`: relaying.
    pub enabled: Option<bool>,
    /// Whether the server is up.
    pub state: bool,
}

/// What runs a session.
#[derive(Clone, Copy, Debug, PartialEq, Eq, Structural)]
pub enum Host {
    /// A pane of the terminal multiplexer.
    Tmux,
    /// Anything else.
    Other,
}

/// What one poll of a bridge gave.
#[derive(Debug)]
pub struct Poll {
    /// What the new lines of the log give to relay, if anything.
    pub message: Option<String>,
    /// Whether the log has grown so long that its pipe is to be made anew.
    pub reset: bool,
}

/// A log longer than this many lines is started anew.
pub const LOG_LIMIT: usize = 8000;

/// The pattern of the log lines that are relayed as chat: a time, the marker
/// of the server thread, and then either a chat message or the notice that a
/// player joined or left.
pub const CHAT_PATTERN: &'static str =
    "^\\[\\d{2}:\\d{2}:\\d{2}\\] \\[Server thread/INFO\\]: (<.*|[\\w ]+ (joined|left) the game)$";

/// The pattern of a colour code in chat: the section sign and the character
/// after it.
pub const COLOUR_PATTERN: &'static str = "\u{a7}.";

/// Whether the regular expression `pattern` matches somewhere in `haystack`;
/// `None` where `pattern` is no regular expression that the `regex` crate
/// compiles.
pub uninterp spec fn regex_is_match(pattern: Seq<char>, haystack: Seq<char>) -> Option<bool>;

/// `haystack` with every match of the regular expression `pattern` replaced
/// by `replacement`, as the `regex` crate expands it; `None` where `pattern`
/// is no regular expression that the crate compiles.
pub uninterp spec fn regex_replace_all(
    pattern: Seq<char>,
    haystack: Seq<char>,
    replacement: Seq<char>,
) -> Option<Seq<char>>;

/// `regex::Regex::new` on `pattern`, then `Regex::is_match` on `haystack`.
/// Both depend on their arguments alone, so the answer is given a name; what
/// it is for a given pattern and text is not stated here.
#[verifier::external_body]
fn is_match(pattern: &str, haystack: &str) -> (r: Option<bool>)
    ensures
        r == regex_is_match(pattern@, haystack@),
{
    match regex::Regex::new(pattern) {
        Ok(re) => Some(re.is_match(haystack)),
        Err(_) => None,
    }
}

/// `regex::Regex::new` on `pattern`, then `Regex::replace_all` on `haystack`
/// with the string `replacement`. Both depend on their arguments alone, so
/// the text that comes out is given a name; what it is for a given pattern
/// and text is not stated here.
#[verifier::external_body]
fn replace_all(pattern: &str, haystack: &str, replacement: &str) -> (r: Option<String>)
    ensures
        match r {
            Some(text) => regex_replace_all(pattern@, haystack@, replacement@) == Some(text@),
            None => regex_replace_all(pattern@, haystack@, replacement@) is None,
        },
{
    match regex::Regex::new(pattern) {
        Ok(re) => Some(re.replace_all(haystack, replacement).into_owned()),
        Err(_) => None,
    }
}

/// Whether a log line bears the marker of the server thread behind its time.
pub open spec fn has_marker(line: Seq<char>) -> bool {
    line.len() >= 33 && line.subrange(10, 33) == " [Server thread/INFO]: "@
}

/// Whether a log line is chat: it bears the marker, and the chat pattern
/// matches it. The pattern is not tried on a line without the marker.
pub open spec fn is_chat(line: Seq<char>) -> bool {
    has_marker(line) && regex_is_match(CHAT_PATTERN@, line) == Some(true)
}

/// What a log line says: what follows its time and marker.
pub open spec fn payload(line: Seq<char>) -> Seq<char> {
    tail(line, 33)
}

/// Whether what a log line says begins with a list of players (`There are 3
/// of a max of 20 players online: ...`) or with a notice of the form
/// `<player> has ...`.
pub open spec fn is_list_reply(said: Seq<char>) -> bool {
    let w = words(said, true);
    ||| {
        &&& w.len() >= 10
        &&& w[0] == "There"@
        &&& w[1] == "are"@
        &&& is_digits(w[2])
        &&& w[3] == "of"@
        &&& w[4] == "a"@
        &&& w[5] == "max"@
        &&& w[6] == "of"@
        &&& is_digits(w[7])
        &&& w[8] == "players"@
        &&& w[9] == "online:"@
    }
    ||| {
        &&& w.len() >= 3
        &&& !w[0].contains('<')
        &&& w[1] == "has"@
    }
}

/// Whether a log line says that the server stops.
pub open spec fn is_stop(line: Seq<char>) -> bool {
    has_marker(line) && "Stopping the server"@.is_prefix_of(payload(line))
}

/// What a bridge has gathered while it reads a log: whether the server is
/// up, and the text to relay.
pub struct Scan {
    pub state: bool,
    pub text: Seq<char>,
}

/// What one log line does to a bridge. `matched` says whether the line is
/// chat. A bridge that is switched off, or that waits for a server that is
/// down, drops the line. Otherwise a line with the marker finds the server
/// up; chat is relayed under the session's name; the notice that the server
/// stops finds it down; a list of players is relayed as it is.
pub open spec fn step(
    name: Seq<char>,
    enabled: Option<bool>,
    before: Scan,
    line: Seq<char>,
    matched: bool,
) -> Scan {
    if enabled is None || (enabled == Some(false) && !before.state) {
        before
    } else {
        let up = before.state || has_marker(line);
        if matched {
            Scan {
                state: up,
                text: before.text + seq!['['] + name + "] "@ + payload(line) + seq!['\n'],
            }
        } else if is_stop(line) {
            Scan { state: false, text: before.text }
        } else if has_marker(line) && is_list_reply(payload(line)) {
            Scan { state: up, text: before.text + payload(line) }
        } else {
            Scan { state: up, text: before.text }
        }
    }
}

/// What a run of log lines does to a bridge, one line after the other.
pub open spec fn scan(name: Seq<char>, enabled: Option<bool>, start: Scan, log: Seq<Seq<char>>) -> Scan
    decreases log.len(),
{
    if log.len() == 0 {
        start
    } else {
        let before = scan(name, enabled, start, log.drop_last());
        step(name, enabled, before, log.last(), is_chat(log.last()))
    }
}

/// The lines of a log that a bridge has not read: those after the first `read`.
pub open spec fn unread(log: Seq<Seq<char>>, read: usize) -> Seq<Seq<char>> {
    if read <= log.len() {
        log.skip(read as int)
    } else {
        Seq::empty()
    }
}

fn word_is(w: &Vec<Vec<char>>, i: usize, lit: &str) -> (r: bool)
    requires
        i < w.len(),
    ensures
        r == (char_views(w@)[i as int] == lit@),
{
    is_text(&w[i], lit)
}

fn all_digits(s: &Vec<char>) -> (r: bool)
    ensures
        r == is_digits(s@),
{
    if s.len() == 0 {
        return false;
    }
    let mut i: usize = 0;
    while i < s.len()
        invariant
            i <= s.len(),
            forall|k: int| 0 <= k < i ==> crate::decimal::is_digit(#[trigger] s@[k]),
        decreases s.len() - i,
    {
        let c: char = s[i];
        if !('0' <= c && c <= '9') {
            return false;
        }
        i += 1;
    }
    true
}

fn list_reply(said: &Vec<char>) -> (r: bool)
    ensures
        r == is_list_reply(said@),
{
    let w = split_words(said, true);
    let players = w.len() >= 10 && word_is(&w, 0, "There") && word_is(&w, 1, "are") && all_digits(
        &w[2],
    ) && word_is(&w, 3, "of") && word_is(&w, 4, "a") && word_is(&w, 5, "max") && word_is(
        &w,
        6,
        "of",
    ) && all_digits(&w[7]) && word_is(&w, 8, "players") && word_is(&w, 9, "online:");
    proof {
        if w.len() >= 10 {
            assert(char_views(w@)[2] == w@[2]@);
            assert(char_views(w@)[7] == w@[7]@);
        }
    }
    if players {
        return true;
    }
    if w.len() >= 3 {
        let first = &w[0];
        let p = find(first, '<');
        proof {
            assert(char_views(w@)[0] == first@);
            if p < first.len() {
                assert(first@.contains('<'));
            }
        }
        p == first.len() && word_is(&w, 1, "has")
    } else {
        false
    }
}

fn marked(line: &Vec<char>) -> (r: bool)
    ensures
        r == has_marker(line@),
{
    if line.len() < 33 {
        return false;
    }
    let m = slice(line, 10, 33);
    is_text(&m, " [Server thread/INFO]: ")
}

fn said(line: &Vec<char>) -> (r: Vec<char>)
    ensures
        r@ == payload(line@),
{
    if line.len() >= 33 {
        let r = slice(line, 33, line.len());
        r
    } else {
        Vec::new()
    }
}

fn take_line(
    name: &Vec<char>,
    enabled: Option<bool>,
    state: &mut bool,
    text: &mut Vec<char>,
    line: &Vec<char>,
    matched: bool,
)
    ensures
        (Scan { state: *final(state), text: final(text)@ }) == step(
            name@,
            enabled,
            Scan { state: *old(state), text: old(text)@ },
            line@,
            matched,
        ),
{
    match enabled {
        None => {
            return ;
        },
        Some(on) => {
            if !on && !*state {
                return ;
            }
        },
    }
    let marker = marked(line);
    let up = *state || marker;
    let what = said(line);
    if matched {
        *state = up;
        text.push('[');
        push_all(text, name);
        push_str(text, "] ");
        push_all(text, &what);
        text.push('\n');
        assert(text@ =~= old(text)@ + seq!['['] + name@ + "] "@ + payload(line@) + seq!['\n']);
        return ;
    }
    let stop = to_chars("Stopping the server");
    if marker && has_prefix(&what, &stop) {
        *state = false;
        return ;
    }
    *state = up;
    if marker && list_reply(&what) {
        push_all(text, &what);
    }
}

/// Takes one line of the log into the bridge and gives what it adds to the
/// text to relay. `matched` says whether the chat pattern matches the line.
pub fn read_line(server: &mut Bridge, line: &str, matched: bool) -> (emitted: String)
    ensures
        final(server).name == old(server).name,
        final(server).line == old(server).line,
        final(server).enabled == old(server).enabled,
        (Scan { state: final(server).state, text: emitted@ }) == step(
            old(server).name@,
            old(server).enabled,
            Scan { state: old(server).state, text: Seq::empty() },
            line@,
            matched,
        ),
{
    let name = to_chars(server.name.as_str());
    let chars = to_chars(line);
    let mut text: Vec<char> = Vec::new();
    let mut state = server.state;
    take_line(&name, server.enabled, &mut state, &mut text, &chars, matched);
    server.state = state;
    from_chars(&text)
}

impl Bridge {
    /// How many lines the bridge has read once it has seen `log`.
    pub open spec fn reads(&self, log: Seq<Seq<char>>) -> nat {
        if log.len() > self.line {
            log.len()
        } else {
            self.line as nat
        }
    }

    /// What the bridge gathers from the lines of `log` that it has not read.
    pub open spec fn gathers(&self, log: Seq<Seq<char>>) -> Scan {
        scan(
            self.name@,
            self.enabled,
            Scan { state: self.state, text: Seq::empty() },
            unread(log, self.line),
        )
    }

    /// Whether `log` is so long that the bridge asks for a new pipe.
    pub open spec fn outgrown(&self, log: Seq<Seq<char>>) -> bool {
        self.enabled is Some && self.reads(log) > LOG_LIMIT
    }

    /// What a poll over `log` gives to relay: what the bridge gathers, where
    /// that is three characters or more.
    pub open spec fn relays(&self, log: Seq<Seq<char>>) -> Option<Seq<char>> {
        if self.enabled is Some && self.gathers(log).text.len() >= 3 {
            Some(self.gathers(log).text)
        } else {
            None
        }
    }

    /// The bridge after a poll over `log`. A bridge that is switched off
    /// stays as it is. Any other has read the whole log, or starts again at
    /// zero where the log is outgrown, and knows whether the server is up.
    pub open spec fn after(&self, log: Seq<Seq<char>>) -> Bridge {
        if self.enabled is None {
            *self
        } else {
            Bridge {
                name: self.name,
                line: if self.outgrown(log) {
                    0
                } else {
                    self.reads(log) as usize
                },
                enabled: self.enabled,
                state: self.gathers(log).state,
            }
        }
    }
}

/// Over a poll the count of lines read never falls, but where the log is
/// outgrown: there it starts again at zero.
pub proof fn lemma_line_never_falls(bridge: Bridge, log: Seq<Seq<char>>)
    ensures
        bridge.outgrown(log) ==> bridge.after(log).line == 0,
        !bridge.outgrown(log) ==> bridge.after(log).line >= bridge.line,
        bridge.after(log).name == bridge.name,
        bridge.after(log).enabled == bridge.enabled,
{
}

/// Reads what the log of a bridge holds beyond the lines that the bridge has
/// read. `log` holds every line of the log, from its first. A bridge that is
/// switched off reads nothing. Each new line is taken in its turn; the text
/// to relay is handed out where it has three characters or more. Once more
/// than `LOG_LIMIT` lines have been read the count starts again at zero, and
/// `reset` asks for a new pipe; but for that the count never falls.
pub fn update_messages(server: &mut Bridge, log: &Vec<String>) -> (poll: Poll)
    ensures
        *final(server) == old(server).after(views(log@)),
        poll.reset == old(server).outgrown(views(log@)),
        match poll.message {
            Some(text) => old(server).relays(views(log@)) == Some(text@),
            None => old(server).relays(views(log@)) is None,
        },
        !poll.reset ==> final(server).line >= old(server).line,
        poll.reset ==> final(server).line == 0,
{
    if server.enabled.is_none() {
        return Poll { message: None, reset: false };
    }
    let name = to_chars(server.name.as_str());
    let enabled = server.enabled;
    let mut state = server.state;
    let mut text: Vec<char> = Vec::new();
    let from: usize = server.line;
    let ghost start = Scan { state: server.state, text: Seq::<char>::empty() };
    let ghost new_lines = unread(views(log@), from);
    let mut i: usize = from;
    if from < log.len() {
        while i < log.len()
            invariant
                from <= i <= log.len(),
                from < log.len(),
                name@ == old(server).name@,
                enabled == old(server).enabled,
                new_lines == unread(views(log@), from),
                start == (Scan { state: old(server).state, text: Seq::<char>::empty() }),
                (Scan { state, text: text@ }) == scan(
                    name@,
                    enabled,
                    start,
                    new_lines.take(i - from),
                ),
            decreases log.len() - i,
        {
            let line = log[i].as_str();
            assert(new_lines.take(i - from + 1).drop_last() == new_lines.take(i - from));
            let chars = to_chars(line);
            let matched = marked(&chars) && match is_match(CHAT_PATTERN, line) {
                Some(m) => m,
                None => false,
            };
            take_line(&name, enabled, &mut state, &mut text, &chars, matched);
            i += 1;
        }
        assert(new_lines.take(log.len() - from) == new_lines);
        server.line = log.len();
    }
    server.state = state;
    let reset = server.line > LOG_LIMIT;
    if reset {
        server.line = 0;
    }
    let message = if text.len() >= 3 {
        Some(from_chars(&text))
    } else {
        None
    };
    Poll { message, reset }
}

/// How a character of chat is written for the clients: a backslash before a
/// carriage return (as `r`), a quotation mark and an underscore.
pub open spec fn escape_char(c: char) -> Seq<char> {
    if c == '\r' {
        seq!['\\', 'r']
    } else if c == '"' {
        seq!['\\', '"']
    } else if c == '_' {
        seq!['\\', '_']
    } else {
        seq![c]
    }
}

/// A text with each of its characters written for the clients.
pub open spec fn escaped(s: Seq<char>) -> Seq<char>
    decreases s.len(),
{
    if s.len() == 0 {
        Seq::empty()
    } else {
        escaped(s.drop_last()) + escape_char(s.last())
    }
}

/// A text without its colour codes, as the `regex` crate takes them out.
pub open spec fn stripped(msg: Seq<char>) -> Seq<char> {
    match regex_replace_all(COLOUR_PATTERN@, msg, Seq::empty()) {
        Some(text) => text,
        None => msg,
    }
}

/// Writes a text whose colour codes are gone for the clients: the white
/// space at its end is dropped, and what is left is escaped.
pub fn escape_formatting(text: &str) -> (r: String)
    ensures
        r@ == escaped(trim_end(text@)),
{
    let chars = to_chars(text);
    let kept = trimmed_end(&chars);
    let mut out: Vec<char> = Vec::new();
    let mut i: usize = 0;
    while i < kept.len()
        invariant
            i <= kept.len(),
            out@ == escaped(kept@.take(i as int)),
        decreases kept.len() - i,
    {
        assert(kept@.take(i + 1).drop_last() == kept@.take(i as int));
        let c: char = kept[i];
        if c == '\r' {
            out.push('\\');
            out.push('r');
        } else if c == '"' {
            out.push('\\');
            out.push('"');
        } else if c == '_' {
            out.push('\\');
            out.push('_');
        } else {
            out.push(c);
        }
        i += 1;
    }
    assert(kept@.take(kept.len() as int) == kept@);
    from_chars(&out)
}

/// Strips the formatting from chat on its way to the clients: the colour
/// codes go, then the white space at the end, and what is left is escaped.
pub fn replace_formatting(msg: &str) -> (r: String)
    ensures
        r@ == escaped(trim_end(stripped(msg@))),
{
    let empty = String::new();
    match replace_all(COLOUR_PATTERN, msg, empty.as_str()) {
        Some(text) => escape_formatting(text.as_str()),
        None => escape_formatting(msg),
    }
}

/// How a character of chat is written into a console command: a backslash
/// is dropped, a line feed and a carriage return are spelt out, a brace is
/// doubled, and a quotation mark gets a backslash.
pub open spec fn clear_char(c: char) -> Seq<char> {
    if c == '\\' {
        Seq::empty()
    } else if c == '\n' {
        seq!['\\', 'n']
    } else if c == '\r' {
        seq!['\\', 'r']
    } else if c == '{' {
        seq!['{', '{']
    } else if c == '}' {
        seq!['}', '}']
    } else if c == '"' {
        seq!['\\', '"']
    } else {
        seq![c]
    }
}

/// A text with each of its characters written for a console command.
pub open spec fn cleared(s: Seq<char>) -> Seq<char>
    decreases s.len(),
{
    if s.len() == 0 {
        Seq::empty()
    } else {
        cleared(s.drop_last()) + clear_char(s.last())
    }
}

fn clear(s: &Vec<char>) -> (out: Vec<char>)
    ensures
        out@ == cleared(s@),
{
    let mut out: Vec<char> = Vec::new();
    let mut i: usize = 0;
    while i < s.len()
        invariant
            i <= s.len(),
            out@ == cleared(s@.take(i as int)),
        decreases s.len() - i,
    {
        assert(s@.take(i + 1).drop_last() == s@.take(i as int));
        let c: char = s[i];
        if c == '\n' {
            out.push('\\');
            out.push('n');
        } else if c == '\r' {
            out.push('\\');
            out.push('r');
        } else if c == '{' {
            out.push('{');
            out.push('{');
        } else if c == '}' {
            out.push('}');
            out.push('}');
        } else if c == '"' {
            out.push('\\');
            out.push('"');
        } else if c != '\\' {
            out.push(c);
        }
        i += 1;
    }
    assert(s@.take(s.len() as int) == s@);
    out
}

/// The sender that a relayed line names in brackets at its beginning. `None`
/// where the line holds no closing bracket after its first character.
pub open spec fn sender_of(line: Seq<char>) -> Option<Seq<char>> {
    let p = position(line, ']');
    if 0 < p < line.len() {
        Some(line.subrange(1, p))
    } else {
        None
    }
}

/// The console command that shows `text` to every player.
pub open spec fn tellraw(text: Seq<char>) -> Seq<char> {
    "tellraw @a { \"text\": \""@ + text + "\" }"@
}

/// The console command that shows `text` to every player as a link to `link`.
pub open spec fn tellraw_link(text: Seq<char>, link: Seq<char>) -> Seq<char> {
    "tellraw @a { \"text\": \""@ + text
        + "\", \"clickEvent\":{ \"action\": \"open_url\", \"value\": \""@ + link + "\"} }"@
}

impl Session {
    /// Whether this session takes the relayed line at all: the line has
    /// something left once it is cleared, and it names no sender, or one
    /// that is another session while this session runs a game.
    pub open spec fn takes(&self, line: Seq<char>) -> bool {
        &&& cleared(line).len() > 0
        &&& match sender_of(line) {
            Some(sender) => sender != self.name@ && self.game is Some,
            None => true,
        }
    }

    /// The console command for one relayed line that this session takes, or
    /// `None` where the line is a link without an address.
    pub open spec fn command_for(line: Seq<char>, url: bool) -> Option<Seq<char>> {
        let msg = cleared(line);
        if url {
            let w = words(msg, false);
            if w.len() == 0 {
                None
            } else if w.len() == 1 {
                Some(tellraw_link("attachment"@, w[0]))
            } else {
                Some(tellraw_link(tail(msg, w[0].len() as int), w[0]))
            }
        } else {
            Some(tellraw(msg))
        }
    }

    /// The console commands that bring the lines to this session's players.
    pub open spec fn commands(&self, relayed: Seq<Seq<char>>, url: bool) -> Seq<Seq<char>>
        decreases relayed.len(),
    {
        if relayed.len() == 0 {
            Seq::empty()
        } else {
            let before = self.commands(relayed.drop_last(), url);
            let line = without(relayed.last(), "MSG "@);
            if self.takes(line) && Self::command_for(line, url) is Some {
                before.push(Self::command_for(line, url)->0)
            } else {
                before
            }
        }
    }

    /// Writes chat for a console command. `None` where nothing is left of it.
    pub fn clear_formatting(msg: &str) -> (r: Option<String>)
        ensures
            match r {
                Some(text) => text@ == cleared(msg@) && text@.len() > 0,
                None => cleared(msg@).len() == 0,
            },
    {
        let chars = to_chars(msg);
        let out = clear(&chars);
        if out.len() > 0 {
            Some(from_chars(&out))
        } else {
            None
        }
    }

    /// Phrases a relayed message for this session's console: one command for
    /// each of its lines, without the `MSG ` that frames it. A line that this
    /// session sent itself gives none, so that no session hears its own chat
    /// again. With `url` set each line is a link: its first word the
    /// address, the rest the text to show.
    pub fn send_chat(&self, message: &str, url: bool) -> (out: Vec<String>)
        ensures
            views(out@) == self.commands(lines(message@), url),
    {
        let all = split_lines(&to_chars(message));
        let frame = to_chars("MSG ");
        let own = to_chars(self.name.as_str());
        let mut out: Vec<String> = Vec::new();
        let mut i: usize = 0;
        let ghost relayed = char_views(all@);
        while i < all.len()
            invariant
                i <= all.len(),
                relayed == char_views(all@),
                frame@ == "MSG "@,
                own@ == self.name@,
                views(out@) == self.commands(relayed.take(i as int), url),
            decreases all.len() - i,
        {
            assert(relayed.take(i + 1).drop_last() == relayed.take(i as int));
            let line = removed(&all[i], &frame);
            let msg = clear(&line);
            let p = find(&line, ']');
            let from_self = if 0 < p && p < line.len() {
                let sender = slice(&line, 1, p);
                same(&sender, &own) || self.game.is_none()
            } else {
                false
            };
            if msg.len() > 0 && !from_self {
                let mut command: Vec<char> = Vec::new();
                let mut some = true;
                if url {
                    let w = split_words(&msg, false);
                    if w.len() == 0 {
                        some = false;
                    } else {
                        push_str(&mut command, "tellraw @a { \"text\": \"");
                        if w.len() == 1 {
                            push_str(&mut command, "attachment");
                        } else {
                            let n = w[0].len();
                            if n <= msg.len() {
                                let rest = slice(&msg, n, msg.len());
                                push_all(&mut command, &rest);
                            }
                        }
                        push_str(
                            &mut command,
                            "\", \"clickEvent\":{ \"action\": \"open_url\", \"value\": \"",
                        );
                        push_all(&mut command, &w[0]);
                        push_str(&mut command, "\"} }");
                    }
                } else {
                    push_str(&mut command, "tellraw @a { \"text\": \"");
                    push_all(&mut command, &msg);
                    push_str(&mut command, "\" }");
                }
                if some {
                    out.push(from_chars(&command));
                }
            }
            i += 1;
        }
        assert(relayed.take(all.len() as int) == relayed);
        out
    }

    /// What runs the session: the multiplexer where `host` says `tmux`.
    pub fn host_kind(&self) -> (r: Host)
        ensures
            r == if trim(self.host@) == "tmux"@ {
                Host::Tmux
            } else {
                Host::Other
            },
    {
        let host = trimmed(&to_chars(self.host.as_str()));
        if is_text(&host, "tmux") {
            Host::Tmux
        } else {
            Host::Other
        }
    }

    /// The arguments with which the multiplexer types `message` into the
    /// pane `name` and presses enter.
    pub fn send_command(name: &str, message: &str) -> (args: Vec<String>)
        ensures
            views(args@) == seq!["send-keys"@, "-t"@, name@, message@, "Enter"@],
    {
        let mut args: Vec<String> = Vec::new();
        args.push("send-keys".to_owned());
        args.push("-t".to_owned());
        args.push(name.to_owned());
        args.push(message.to_owned());
        args.push("Enter".to_owned());
        args
    }
}

/// No session hears its own chat again: lines that all name the session as
/// their sender give no command for its console.
pub proof fn lemma_own_chat_is_dropped(session: Session, relayed: Seq<Seq<char>>, url: bool)
    requires
        forall|i: int|
            0 <= i < relayed.len() ==> sender_of(without(#[trigger] relayed[i], "MSG "@)) == Some(
                session.name@,
            ),
    ensures
        session.commands(relayed, url).len() == 0,
    decreases relayed.len(),
{
    if relayed.len() > 0 {
        lemma_own_chat_is_dropped(session, relayed.drop_last(), url);
    }
}

/// Whether the session at `i` bears `name` and runs a game.
pub open spec fn is_game_of(sessions: Seq<Session>, name: Seq<char>, i: int) -> bool {
    0 <= i < sessions.len() && sessions[i].name@ == name && sessions[i].game is Some
}

/// Whether the session at `i` bears `name` and has a remote console.
pub open spec fn is_rcon_of(sessions: Seq<Session>, name: Seq<char>, i: int) -> bool {
    0 <= i < sessions.len() && sessions[i].name@ == name && sessions[i].rcon is Some
}

/// Finds the session `name` that runs a game: the last of that name.
pub fn find_game(sessions: &Vec<Session>, name: &str) -> (r: Option<usize>)
    ensures
        match r {
            Some(i) => is_game_of(sessions@, name@, i as int) && forall|j: int|
                i < j ==> !is_game_of(sessions@, name@, j),
            None => forall|j: int| !is_game_of(sessions@, name@, j),
        },
{
    let mut i: usize = sessions.len();
    while i > 0
        invariant
            i <= sessions.len(),
            forall|j: int| i <= j ==> !is_game_of(sessions@, name@, j),
        decreases i,
    {
        i -= 1;
        if sessions[i].game.is_some() && crate::text::str_eq(sessions[i].name.as_str(), name) {
            return Some(i);
        }
    }
    None
}

/// Finds the session `name` that has a remote console: the last of that name.
pub fn find_rcon(sessions: &Vec<Session>, name: &str) -> (r: Option<usize>)
    ensures
        match r {
            Some(i) => is_rcon_of(sessions@, name@, i as int) && forall|j: int|
                i < j ==> !is_rcon_of(sessions@, name@, j),
            None => forall|j: int| !is_rcon_of(sessions@, name@, j),
        },
{
    let mut i: usize = sessions.len();
    while i > 0
        invariant
            i <= sessions.len(),
            forall|j: int| i <= j ==> !is_rcon_of(sessions@, name@, j),
        decreases i,
    {
        i -= 1;
        if sessions[i].rcon.is_some() && crate::text::str_eq(sessions[i].name.as_str(), name) {
            return Some(i);
        }
    }
    None
}

/// Whether chat is brought into the session: it runs a game with the chat
/// bridge on, and a bridge of its name finds its server up.
pub open spec fn hears_chat(session: Session, bridges: Seq<Bridge>) -> bool {
    &&& session.game is Some
    &&& session.game->0.chat_bridge == Some(true)
    &&& exists|k: int|
        0 <= k < bridges.len() && (#[trigger] bridges[k]).name@ == session.name@ && bridges[k].state
}

/// The sessions that chat is brought into, by their positions, in order.
pub fn chat_targets(sessions: &Vec<Session>, bridges: &Vec<Bridge>) -> (out: Vec<usize>)
    ensures
        forall|k: int|
            0 <= k < out@.len() ==> out@[k] < sessions@.len() && hears_chat(
                sessions@[out@[k] as int],
                bridges@,
            ),
        forall|k: int, l: int| 0 <= k < l < out@.len() ==> out@[k] < out@[l],
        forall|i: int|
            0 <= i < sessions@.len() && hears_chat(sessions@[i], bridges@) ==> out@.contains(
                i as usize,
            ),
{
    let mut out: Vec<usize> = Vec::new();
    let mut i: usize = 0;
    while i < sessions.len()
        invariant
            i <= sessions.len(),
            forall|k: int|
                0 <= k < out@.len() ==> out@[k] < i && hears_chat(
                    sessions@[out@[k] as int],
                    bridges@,
                ),
            forall|k: int, l: int| 0 <= k < l < out@.len() ==> out@[k] < out@[l],
            forall|j: int|
                0 <= j < i && hears_chat(sessions@[j], bridges@) ==> out@.contains(j as usize),
        decreases sessions.len() - i,
    {
        let session = &sessions[i];
        let wants = match &session.game {
            Some(game) => match game.chat_bridge {
                Some(on) => on,
                None => false,
            },
            None => false,
        };
        let mut up = false;
        if wants {
            let mut k: usize = 0;
            while k < bridges.len()
                invariant
                    k <= bridges.len(),
                    up == exists|m: int|
                        0 <= m < k && (#[trigger] bridges@[m]).name@ == session.name@
                            && bridges@[m].state,
                decreases bridges.len() - k,
            {
                if bridges[k].state && crate::text::str_eq(
                    bridges[k].name.as_str(),
                    session.name.as_str(),
                ) {
                    up = true;
                }
                k += 1;
            }
        }
        if wants && up {
            let ghost before = out@;
            out.push(i);
            assert(out@[before.len() as int] == i);
            assert forall|j: int|
                0 <= j < i + 1 && hears_chat(sessions@[j], bridges@) implies out@.contains(
                j as usize,
            ) by {
                if j < i {
                    let k = choose|k: int| 0 <= k < before.len() && before[k] == j as usize;
                    assert(out@[k] == j as usize);
                }
            }
        }
        i += 1;
    }
    out
}

impl Bridge {
    /// The bridge of a session at the start: none where the session runs no
    /// game. It has read `lines` lines, so that only what the log gains from
    /// now on is relayed, and it takes the server for up where the chat
    /// bridge is on.
    pub fn new(session: &Session, lines: usize) -> (r: Option<Bridge>)
        ensures
            r is Some <==> session.game is Some,
            r is Some ==> {
                &&& r->0.name@ == session.name@
                &&& r->0.line == lines
                &&& r->0.enabled == session.game->0.chat_bridge
                &&& r->0.state == (session.game->0.chat_bridge == Some(true))
            },
    {
        match &session.game {
            Some(game) => {
                let state = match game.chat_bridge {
                    Some(on) => on,
                    None => false,
                };
                Some(
                    Bridge {
                        name: session.name.clone(),
                        line: lines,
                        enabled: game.chat_bridge,
                        state,
                    },
                )
            },
            None => None,
        }
    }
}

/// The file that the multiplexer writes the log of the session `name` to.
pub open spec fn pipe_of(name: Seq<char>) -> Seq<char> {
    "/tmp/"@ + name + "-taurus"@
}

/// Names the file that holds the log of a session.
pub fn pipe_path(server_name: &str) -> (r: String)
    ensures
        r@ == pipe_of(server_name@),
{
    let mut out = to_chars("/tmp/");
    push_str(&mut out, server_name);
    push_str(&mut out, "-taurus");
    from_chars(&out)
}

/// How many lines a bridge starts behind: those that the log already holds,
/// none where it cannot be read.
pub fn set_lines(log: Option<&str>) -> (r: usize)
    ensures
        r == match log {
            Some(text) => lines(text@).len(),
            None => 0,
        },
{
    match log {
        Some(text) => {
            let all = split_lines(&to_chars(text));
            all.len()
        },
        None => 0,
    }
}

/// The arguments with which the multiplexer pipes what the pane
/// `server_name` shows into the session's log.
pub fn gen_pipe(server_name: &str) -> (args: Vec<String>)
    ensures
        views(args@) == seq![
            "pipe-pane"@,
            "-t"@,
            server_name@,
            "cat > "@ + pipe_of(server_name@),
        ],
{
    let mut cat = to_chars("cat > ");
    push_str(&mut cat, pipe_path(server_name).as_str());
    let mut args: Vec<String> = Vec::new();
    args.push("pipe-pane".to_owned());
    args.push("-t".to_owned());
    args.push(server_name.to_owned());
    args.push(from_chars(&cat));
    args
}

/// The frame that a poll of all bridges sends out: what the bridges gave,
/// one below the other, behind `MSG ` and with its formatting stripped.
/// `None` where all of it is three characters or fewer.
pub fn collect_frame(responses: &Vec<String>) -> (r: Option<String>)
    ensures
        match r {
            Some(frame) => frame_of(views(responses@)) == Some(frame@),
            None => frame_of(views(responses@)) is None,
        },
{
    let mut parts: Vec<Vec<char>> = Vec::new();
    let mut i: usize = 0;
    while i < responses.len()
        invariant
            i <= responses.len(),
            parts.len() == i,
            forall|k: int| 0 <= k < i ==> parts@[k]@ == responses@[k]@,
        decreases responses.len() - i,
    {
        parts.push(to_chars(responses[i].as_str()));
        i += 1;
    }
    assert(char_views(parts@) =~= views(responses@));
    let all = joined(&parts, "\n");
    if all.len() > 3 {
        let mut frame = to_chars("MSG ");
        push_all(&mut frame, &all);
        let text = from_chars(&frame);
        Some(replace_formatting(text.as_str()))
    } else {
        None
    }
}

/// What one round over all bridges gave.
#[derive(Debug)]
pub struct Round {
    /// The frame to send out, if the round gave one. A round gives one
    /// frame at most.
    pub frame: Option<String>,
    /// The bridges whose pipe is to be made anew, by their positions.
    pub resets: Vec<usize>,
}

/// The log that a round has for the bridge at `i`, if it has one.
pub open spec fn log_at(logs: Seq<Option<Vec<String>>>, i: int) -> Option<Seq<Seq<char>>> {
    if 0 <= i < logs.len() {
        match logs[i] {
            Some(log) => Some(views(log@)),
            None => None,
        }
    } else {
        None
    }
}

/// The bridge at `i` after a round: polled where the round has its log.
pub open spec fn after_round(bridge: Bridge, log: Option<Seq<Seq<char>>>) -> Bridge {
    match log {
        Some(lines) => bridge.after(lines),
        None => bridge,
    }
}

/// What the first `n` bridges give to relay in a round, in their order.
pub open spec fn round_texts(bridges: Seq<Bridge>, logs: Seq<Option<Vec<String>>>, n: int) -> Seq<
    Seq<char>,
>
    decreases n,
{
    if n <= 0 {
        Seq::empty()
    } else {
        let before = round_texts(bridges, logs, n - 1);
        match log_at(logs, n - 1) {
            Some(lines) => match bridges[n - 1].relays(lines) {
                Some(text) => before.push(text),
                None => before,
            },
            None => before,
        }
    }
}

/// Whether the bridge at `i` asks for a new pipe in a round.
pub open spec fn resets_at(bridges: Seq<Bridge>, logs: Seq<Option<Vec<String>>>, i: int) -> bool {
    0 <= i < bridges.len() && log_at(logs, i) is Some && bridges[i].outgrown(log_at(logs, i)->0)
}

/// The frame that a round sends out over what the bridges gave.
pub open spec fn frame_of(texts: Seq<Seq<char>>) -> Option<Seq<char>> {
    let all = join(texts, "\n"@);
    if all.len() > 3 {
        Some(escaped(trim_end(stripped("MSG "@ + all))))
    } else {
        None
    }
}

/// Polls every bridge once. `logs` holds, for each bridge in its place, the
/// lines of its log, or `None` where there is no log to read; a bridge
/// without a log stays as it is. What the bridges give goes into one frame.
pub fn poll_round(bridges: &mut Vec<Bridge>, logs: &Vec<Option<Vec<String>>>) -> (round: Round)
    ensures
        final(bridges)@.len() == old(bridges)@.len(),
        forall|i: int|
            0 <= i < old(bridges)@.len() ==> #[trigger] final(bridges)@[i] == after_round(
                old(bridges)@[i],
                log_at(logs@, i),
            ),
        match round.frame {
            Some(frame) => frame_of(round_texts(old(bridges)@, logs@, old(bridges)@.len() as int))
                == Some(frame@),
            None => frame_of(round_texts(old(bridges)@, logs@, old(bridges)@.len() as int))
                is None,
        },
        forall|k: int|
            0 <= k < round.resets@.len() ==> resets_at(
                old(bridges)@,
                logs@,
                #[trigger] round.resets@[k] as int,
            ),
        forall|k: int, l: int|
            0 <= k < l < round.resets@.len() ==> round.resets@[k] < round.resets@[l],
        forall|i: int| resets_at(old(bridges)@, logs@, i) ==> round.resets@.contains(i as usize),
{
    let mut texts: Vec<String> = Vec::new();
    let mut resets: Vec<usize> = Vec::new();
    let n = bridges.len();
    let mut i: usize = 0;
    while i < n
        invariant
            i <= n,
            n == bridges@.len(),
            n == old(bridges)@.len(),
            forall|k: int|
                0 <= k < i ==> #[trigger] bridges@[k] == after_round(
                    old(bridges)@[k],
                    log_at(logs@, k),
                ),
            forall|k: int| i <= k < n ==> bridges@[k] == old(bridges)@[k],
            views(texts@) == round_texts(old(bridges)@, logs@, i as int),
            forall|k: int|
                0 <= k < resets@.len() ==> resets@[k] < i && resets_at(
                    old(bridges)@,
                    logs@,
                    #[trigger] resets@[k] as int,
                ),
            forall|k: int, l: int| 0 <= k < l < resets@.len() ==> resets@[k] < resets@[l],
            forall|j: int|
                0 <= j < i && resets_at(old(bridges)@, logs@, j) ==> resets@.contains(j as usize),
        decreases n - i,
    {
        if i < logs.len() {
            match &logs[i] {
                Some(log) => {
                    let poll = update_messages(&mut bridges[i], log);
                    if poll.reset {
                        let ghost before = resets@;
                        resets.push(i);
                        assert(resets@[before.len() as int] == i);
                        assert forall|j: int|
                            0 <= j < i + 1 && resets_at(
                                old(bridges)@,
                                logs@,
                                j,
                            ) implies resets@.contains(j as usize) by {
                            if j < i {
                                let k = choose|k: int|
                                    0 <= k < before.len() && before[k] == j as usize;
                                assert(resets@[k] == j as usize);
                            }
                        }
                    }
                    match poll.message {
                        Some(text) => {
                            texts.push(text);
                        },
                        None => {},
                    }
                },
                None => {},
            }
        }
        i += 1;
    }
    Round { frame: collect_frame(&texts), resets }
}

} // verus!
