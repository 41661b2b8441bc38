//! The command protocol of the control socket: telling the verb of a frame
//! from its arguments, checking the arguments, and phrasing the replies.
use vstd::prelude::*;
use crate::decimal::{i32_value, read_i32};
use crate::backup::Dimension;
use crate::bridge::Bridge;
use crate::decimal::{decimal, push_decimal};
use crate::text::{
    char_views, find, from_chars, is_text, join, joined, pieces, position, push_str, slice, split,
    split_words, str_eq, to_chars, views, words,
};

verus! {

/// What a frame asks for, with its arguments checked.
#[derive(Debug, PartialEq, Eq)]
pub enum Request {
    /// Nothing is done and nothing is answered.
    Ignored,
    /// The frame is answered with this text, and nothing is done.
    Rejected(String),
    /// Chat for the game servers; `url` marks a link to click.
    Chat { text: String, url: bool },
    List,
    Backup { session: String },
    CopyRegion { session: String, dimension: Dimension, x: i32, z: i32 },
    ListBridges,
    RemoveBackup { file: String },
    ToggleBridge { session: String },
    Command { session: String, text: String },
    Rcon { session: String, text: String },
    CopyStructure { session: String, name: String },
    ListStructures { session: String },
    ListBackups,
    Restart,
    ListSessions,
    Shell { program: String, args: Vec<String> },
    Heartbeat,
    Check,
    Ping,
}

/// A request as a mathematical value.
pub enum RequestView {
    Ignored,
    Rejected(Seq<char>),
    Chat { text: Seq<char>, url: bool },
    List,
    Backup { session: Seq<char> },
    CopyRegion { session: Seq<char>, dimension: Dimension, x: i32, z: i32 },
    ListBridges,
    RemoveBackup { file: Seq<char> },
    ToggleBridge { session: Seq<char> },
    Command { session: Seq<char>, text: Seq<char> },
    Rcon { session: Seq<char>, text: Seq<char> },
    CopyStructure { session: Seq<char>, name: Seq<char> },
    ListStructures { session: Seq<char> },
    ListBackups,
    Restart,
    ListSessions,
    Shell { program: Seq<char>, args: Seq<Seq<char>> },
    Heartbeat,
    Check,
    Ping,
}

impl View for Request {
    type V = RequestView;

    open spec fn view(&self) -> RequestView {
        match *self {
            Request::Ignored => RequestView::Ignored,
            Request::Rejected(text) => RequestView::Rejected(text@),
            Request::Chat { text, url } => RequestView::Chat { text: text@, url },
            Request::List => RequestView::List,
            Request::Backup { session } => RequestView::Backup { session: session@ },
            Request::CopyRegion { session, dimension, x, z } => RequestView::CopyRegion {
                session: session@,
                dimension,
                x,
                z,
            },
            Request::ListBridges => RequestView::ListBridges,
            Request::RemoveBackup { file } => RequestView::RemoveBackup { file: file@ },
            Request::ToggleBridge { session } => RequestView::ToggleBridge { session: session@ },
            Request::Command { session, text } => RequestView::Command {
                session: session@,
                text: text@,
            },
            Request::Rcon { session, text } => RequestView::Rcon { session: session@, text: text@ },
            Request::CopyStructure { session, name } => RequestView::CopyStructure {
                session: session@,
                name: name@,
            },
            Request::ListStructures { session } => RequestView::ListStructures {
                session: session@,
            },
            Request::ListBackups => RequestView::ListBackups,
            Request::Restart => RequestView::Restart,
            Request::ListSessions => RequestView::ListSessions,
            Request::Shell { program, args } => RequestView::Shell {
                program: program@,
                args: views(args@),
            },
            Request::Heartbeat => RequestView::Heartbeat,
            Request::Check => RequestView::Check,
            Request::Ping => RequestView::Ping,
        }
    }
}

/// `s` cut at its first space: what stands before it and what follows it.
/// `None` where `s` holds no space.
pub open spec fn cut(s: Seq<char>) -> Option<(Seq<char>, Seq<char>)> {
    let p = position(s, ' ');
    if p < s.len() {
        Some((s.take(p), s.skip(p + 1)))
    } else {
        None
    }
}

/// The verb of a frame: what stands before its first space, or all of it.
pub open spec fn verb_of(s: Seq<char>) -> Seq<char> {
    s.take(position(s, ' '))
}

/// A lower-case ASCII letter as its capital; any other character as it is.
pub open spec fn ascii_upper(c: char) -> char {
    if 'a' <= c <= 'z' {
        ((c as u8 - 32) as u8) as char
    } else {
        c
    }
}

/// The dimension that a word names, whatever the case of its letters.
pub open spec fn dimension_of(word: Seq<char>) -> Option<Dimension> {
    let upper = Seq::new(word.len(), |i: int| ascii_upper(word[i]));
    if upper == "OW"@ {
        Some(Dimension::Overworld)
    } else if upper == "NETHER"@ {
        Some(Dimension::Nether)
    } else if upper == "END"@ {
        Some(Dimension::End)
    } else {
        None
    }
}

/// The request of a verb that takes the rest of the frame as one text.
pub open spec fn chat_request(rest: Option<(Seq<char>, Seq<char>)>, url: bool) -> RequestView {
    match rest {
        Some((_, text)) => RequestView::Chat { text, url },
        None => RequestView::Ignored,
    }
}

/// The request of `BACKUP`.
pub open spec fn backup_request(rest: Option<(Seq<char>, Seq<char>)>) -> RequestView {
    match rest {
        Some((_, session)) => RequestView::Backup { session },
        None => RequestView::Ignored,
    }
}

/// The request of `CP_REGION`: four words, of which the last two are numbers
/// and the second names a dimension.
pub open spec fn region_request(rest: Option<(Seq<char>, Seq<char>)>) -> RequestView {
    match rest {
        None => RequestView::Ignored,
        Some((_, args)) => {
            let w = words(args, false);
            if w.len() != 4 {
                RequestView::Rejected("CP_REGION Invalid Arguments"@)
            } else {
                match (i32_value(w[2]), i32_value(w[3])) {
                    (Some(x), Some(z)) => match dimension_of(w[1]) {
                        Some(dimension) => RequestView::CopyRegion {
                            session: w[0],
                            dimension,
                            x,
                            z,
                        },
                        None => RequestView::Rejected("CP_REGION Invalid Dimension Provided"@),
                    },
                    _ => RequestView::Rejected("CP_REGION Invalid Region Identifier"@),
                }
            }
        },
    }
}

/// The request of `RM_BACKUP`: one word.
pub open spec fn remove_request(rest: Option<(Seq<char>, Seq<char>)>) -> RequestView {
    match rest {
        None => RequestView::Ignored,
        Some((_, args)) => {
            let w = words(args, false);
            if w.len() != 1 {
                RequestView::Rejected("RM_BACKUP Invalid Arguments"@)
            } else {
                RequestView::RemoveBackup { file: w[0] }
            }
        },
    }
}

/// The request of `TOGGLE_BRIDGE`: one word.
pub open spec fn toggle_request(rest: Option<(Seq<char>, Seq<char>)>) -> RequestView {
    match rest {
        None => RequestView::Ignored,
        Some((_, args)) => {
            let w = words(args, false);
            if w.len() != 1 {
                RequestView::Rejected("TOGGLE_BRIDGE Invalid Arguments"@)
            } else {
                RequestView::ToggleBridge { session: w[0] }
            }
        },
    }
}

/// The request of `LIST_STRUCTURES`: one word.
pub open spec fn structures_request(rest: Option<(Seq<char>, Seq<char>)>) -> RequestView {
    match rest {
        None => RequestView::Ignored,
        Some((_, args)) => {
            let w = words(args, false);
            if w.len() != 1 {
                RequestView::Rejected("LIST_STRUCTURES Invalid Arguments"@)
            } else {
                RequestView::ListStructures { session: w[0] }
            }
        },
    }
}

/// The request of `CP_STRUCTURE`: two words.
pub open spec fn structure_request(rest: Option<(Seq<char>, Seq<char>)>) -> RequestView {
    match rest {
        None => RequestView::Ignored,
        Some((_, args)) => {
            let w = words(args, false);
            if w.len() != 2 {
                RequestView::Rejected("CP_STRUCTURE Invalid Arguments"@)
            } else {
                RequestView::CopyStructure { session: w[0], name: w[1] }
            }
        },
    }
}

/// The request of `CMD`: a session, a space, and the text for its console.
pub open spec fn command_request(rest: Option<(Seq<char>, Seq<char>)>) -> RequestView {
    match rest {
        None => RequestView::Rejected("CMD invalid command"@),
        Some((_, args)) => match cut(args) {
            Some((session, text)) => RequestView::Command { session, text },
            None => RequestView::Ignored,
        },
    }
}

/// The request of `RCON`: a session, a space, and the command.
pub open spec fn rcon_request(rest: Option<(Seq<char>, Seq<char>)>) -> RequestView {
    match rest {
        None => RequestView::Rejected("RCON invalid command"@),
        Some((_, args)) => match cut(args) {
            Some((session, text)) => RequestView::Rcon { session, text },
            None => RequestView::Ignored,
        },
    }
}

/// The request of `SHELL`: a program and its arguments, cut at single spaces.
pub open spec fn shell_request(rest: Option<(Seq<char>, Seq<char>)>) -> RequestView {
    match rest {
        None => RequestView::Ignored,
        Some((_, args)) => {
            let p = pieces(args, ' ');
            RequestView::Shell { program: p[0], args: p.skip(1) }
        },
    }
}

/// What the frame `msg` asks for.
pub open spec fn request_of(msg: Seq<char>) -> RequestView {
    let verb = verb_of(msg);
    let rest = cut(msg);
    if verb == "MSG"@ {
        chat_request(rest, false)
    } else if verb == "URL"@ {
        chat_request(rest, true)
    } else if verb == "LIST"@ {
        RequestView::List
    } else if verb == "BACKUP"@ {
        backup_request(rest)
    } else if verb == "CP_REGION"@ {
        region_request(rest)
    } else if verb == "LIST_BRIDGES"@ {
        RequestView::ListBridges
    } else if verb == "RM_BACKUP"@ {
        remove_request(rest)
    } else if verb == "TOGGLE_BRIDGE"@ {
        toggle_request(rest)
    } else if verb == "CMD"@ {
        command_request(rest)
    } else if verb == "RCON"@ {
        rcon_request(rest)
    } else if verb == "CP_STRUCTURE"@ {
        structure_request(rest)
    } else if verb == "LIST_STRUCTURES"@ {
        structures_request(rest)
    } else if verb == "LIST_BACKUPS"@ {
        RequestView::ListBackups
    } else if verb == "RESTART"@ {
        RequestView::Restart
    } else if verb == "LIST_SESSIONS"@ {
        RequestView::ListSessions
    } else if verb == "SHELL"@ {
        shell_request(rest)
    } else if verb == "HEARTBEAT"@ {
        RequestView::Heartbeat
    } else if verb == "CHECK"@ {
        RequestView::Check
    } else if verb == "PING"@ {
        RequestView::Ping
    } else {
        RequestView::Ignored
    }
}

/// Cuts a frame at its first space into verb and arguments.
pub fn get_cmd(msg: &str) -> (r: Option<(String, String)>)
    ensures
        match r {
            Some((verb, args)) => cut(msg@) == Some((verb@, args@)) && !verb@.contains(' ')
                && msg@ == verb@ + seq![' '] + args@,
            None => cut(msg@) is None && !msg@.contains(' '),
        },
{
    let chars = to_chars(msg);
    match cut_chars(&chars) {
        Some((verb, args)) => {
            Some((from_chars(&verb), from_chars(&args)))
        },
        None => None,
    }
}

fn cut_chars(s: &Vec<char>) -> (r: Option<(Vec<char>, Vec<char>)>)
    ensures
        match r {
            Some((verb, args)) => cut(s@) == Some((verb@, args@)) && !verb@.contains(' ')
                && s@ == verb@ + seq![' '] + args@,
            None => cut(s@) is None && !s@.contains(' '),
        },
{
    let p = find(s, ' ');
    if p < s.len() {
        let verb = slice(s, 0, p);
        let args = slice(s, p + 1, s.len());
        Some((verb, args))
    } else {
        None
    }
}

fn upper_char(c: char) -> (r: char)
    ensures
        r == ascii_upper(c),
{
    if 'a' <= c && c <= 'z' {
        ((c as u8 - 32) as u8) as char
    } else {
        c
    }
}

fn read_dimension(word: &Vec<char>) -> (r: Option<Dimension>)
    ensures
        r == dimension_of(word@),
{
    let mut upper: Vec<char> = Vec::new();
    let mut i: usize = 0;
    while i < word.len()
        invariant
            i <= word.len(),
            upper@ == Seq::new(i as nat, |k: int| ascii_upper(word@[k])),
        decreases word.len() - i,
    {
        upper.push(upper_char(word[i]));
        i += 1;
    }
    if is_text(&upper, "OW") {
        Some(Dimension::Overworld)
    } else if is_text(&upper, "NETHER") {
        Some(Dimension::Nether)
    } else if is_text(&upper, "END") {
        Some(Dimension::End)
    } else {
        None
    }
}

fn rejected(text: &str) -> (r: Request)
    ensures
        r@ == RequestView::Rejected(text@),
{
    Request::Rejected(text.to_owned())
}

fn region(rest: Option<(Vec<char>, Vec<char>)>) -> (r: Request)
    ensures
        r@ == region_request(
            match rest {
                Some((v, a)) => Some((v@, a@)),
                None => None,
            },
        ),
{
    match rest {
        None => Request::Ignored,
        Some((_, args)) => {
            let w = split_words(&args, false);
            if w.len() != 4 {
                rejected("CP_REGION Invalid Arguments")
            } else {
                match (read_i32(&w[2]), read_i32(&w[3])) {
                    (Some(x), Some(z)) => match read_dimension(&w[1]) {
                        Some(dimension) => Request::CopyRegion {
                            session: from_chars(&w[0]),
                            dimension,
                            x,
                            z,
                        },
                        None => rejected("CP_REGION Invalid Dimension Provided"),
                    },
                    _ => rejected("CP_REGION Invalid Region Identifier"),
                }
            }
        },
    }
}

/// The one word of `args`, or `None` where it holds none or several.
fn one_word(args: &Vec<char>) -> (r: Option<String>)
    ensures
        r is Some <==> words(args@, false).len() == 1,
        r is Some ==> r->0@ == words(args@, false)[0],
{
    let w = split_words(args, false);
    if w.len() != 1 {
        None
    } else {
        Some(from_chars(&w[0]))
    }
}

fn strings(list: &Vec<Vec<char>>, from: usize) -> (out: Vec<String>)
    requires
        from <= list.len(),
    ensures
        views(out@) == char_views(list@).skip(from as int),
{
    let mut out: Vec<String> = Vec::new();
    let mut i: usize = from;
    while i < list.len()
        invariant
            from <= i <= list.len(),
            out.len() == i - from,
            forall|k: int| 0 <= k < out.len() ==> out@[k]@ == list@[from + k]@,
        decreases list.len() - i,
    {
        out.push(from_chars(&list[i]));
        i += 1;
    }
    out
}

/// Reads a frame of the control socket: which verb it holds, and whether its
/// arguments are what that verb takes. Nothing is done here; the request says
/// what is to be done, or what is to be answered at once.
pub fn handle_response(message: &str) -> (r: Request)
    ensures
        r@ == request_of(message@),
{
    let msg = to_chars(message);
    let p = find(&msg, ' ');
    let verb = slice(&msg, 0, p);
    let rest = cut_chars(&msg);
    if is_text(&verb, "MSG") {
        match rest {
            Some((_, text)) => Request::Chat { text: from_chars(&text), url: false },
            None => Request::Ignored,
        }
    } else if is_text(&verb, "URL") {
        match rest {
            Some((_, text)) => Request::Chat { text: from_chars(&text), url: true },
            None => Request::Ignored,
        }
    } else if is_text(&verb, "LIST") {
        Request::List
    } else if is_text(&verb, "BACKUP") {
        match rest {
            Some((_, session)) => Request::Backup { session: from_chars(&session) },
            None => Request::Ignored,
        }
    } else if is_text(&verb, "CP_REGION") {
        region(rest)
    } else if is_text(&verb, "LIST_BRIDGES") {
        Request::ListBridges
    } else if is_text(&verb, "RM_BACKUP") {
        match rest {
            None => Request::Ignored,
            Some((_, args)) => match one_word(&args) {
                Some(file) => Request::RemoveBackup { file },
                None => rejected("RM_BACKUP Invalid Arguments"),
            },
        }
    } else if is_text(&verb, "TOGGLE_BRIDGE") {
        match rest {
            None => Request::Ignored,
            Some((_, args)) => match one_word(&args) {
                Some(session) => Request::ToggleBridge { session },
                None => rejected("TOGGLE_BRIDGE Invalid Arguments"),
            },
        }
    } else if is_text(&verb, "CMD") {
        match rest {
            None => rejected("CMD invalid command"),
            Some((_, args)) => match cut_chars(&args) {
                Some((session, text)) => Request::Command {
                    session: from_chars(&session),
                    text: from_chars(&text),
                },
                None => Request::Ignored,
            },
        }
    } else if is_text(&verb, "RCON") {
        match rest {
            None => rejected("RCON invalid command"),
            Some((_, args)) => match cut_chars(&args) {
                Some((session, text)) => Request::Rcon {
                    session: from_chars(&session),
                    text: from_chars(&text),
                },
                None => Request::Ignored,
            },
        }
    } else if is_text(&verb, "CP_STRUCTURE") {
        match rest {
            None => Request::Ignored,
            Some((_, args)) => {
                let w = split_words(&args, false);
                if w.len() != 2 {
                    rejected("CP_STRUCTURE Invalid Arguments")
                } else {
                    Request::CopyStructure {
                        session: from_chars(&w[0]),
                        name: from_chars(&w[1]),
                    }
                }
            },
        }
    } else if is_text(&verb, "LIST_STRUCTURES") {
        match rest {
            None => Request::Ignored,
            Some((_, args)) => match one_word(&args) {
                Some(session) => Request::ListStructures { session },
                None => rejected("LIST_STRUCTURES Invalid Arguments"),
            },
        }
    } else if is_text(&verb, "LIST_BACKUPS") {
        Request::ListBackups
    } else if is_text(&verb, "RESTART") {
        Request::Restart
    } else if is_text(&verb, "LIST_SESSIONS") {
        Request::ListSessions
    } else if is_text(&verb, "SHELL") {
        match rest {
            None => Request::Ignored,
            Some((_, args)) => {
                let p = split(&args, ' ');
                Request::Shell { program: from_chars(&p[0]), args: strings(&p, 1) }
            },
        }
    } else if is_text(&verb, "HEARTBEAT") {
        Request::Heartbeat
    } else if is_text(&verb, "CHECK") {
        Request::Check
    } else if is_text(&verb, "PING") {
        Request::Ping
    } else {
        Request::Ignored
    }
}

/// The verb under which a request is answered, or `None` where it is not
/// answered at all.
pub open spec fn answer_verb(request: RequestView) -> Option<Seq<char>> {
    match request {
        RequestView::Ignored => None,
        RequestView::Rejected(_) => None,
        RequestView::Chat { .. } => None,
        RequestView::List => Some("LIST"@),
        RequestView::Backup { .. } => Some("BACKUP"@),
        RequestView::CopyRegion { .. } => Some("CP_REGION"@),
        RequestView::ListBridges => Some("LIST_BRIDGES"@),
        RequestView::RemoveBackup { .. } => Some("RM_BACKUP"@),
        RequestView::ToggleBridge { .. } => Some("TOGGLE_BRIDGE"@),
        RequestView::Command { .. } => None,
        RequestView::Rcon { .. } => Some("RCON"@),
        RequestView::CopyStructure { .. } => Some("CP_STRUCTURE"@),
        RequestView::ListStructures { .. } => Some("LIST_STRUCTURES"@),
        RequestView::ListBackups => Some("LIST_BACKUPS"@),
        RequestView::Restart => Some("RESTART"@),
        RequestView::ListSessions => Some("LIST_SESSIONS"@),
        RequestView::Shell { .. } => None,
        RequestView::Heartbeat => Some("HEARTBEAT"@),
        RequestView::Check => Some("CHECK"@),
        RequestView::Ping => Some("PONG"@),
    }
}

/// The frame that answers a request whose work gave `body`.
pub open spec fn answer_of(request: RequestView, body: Seq<char>) -> Option<Seq<char>> {
    match request {
        RequestView::Rejected(text) => Some(text),
        _ => match answer_verb(request) {
            Some(verb) => Some(verb + seq![' '] + body),
            None => None,
        },
    }
}

fn framed(verb: &str, body: &str) -> (r: Option<String>)
    ensures
        r is Some,
        r->0@ == verb@ + seq![' '] + body@,
{
    let mut out: Vec<char> = Vec::new();
    push_str(&mut out, verb);
    out.push(' ');
    push_str(&mut out, body);
    Some(from_chars(&out))
}

impl Request {
    /// The frame that goes back to the client that sent this request, once
    /// the work it asked for has given `body`. A rejected request is answered
    /// with its own text; chat, console text and shell commands with nothing.
    pub fn answer(&self, body: &str) -> (r: Option<String>)
        ensures
            match r {
                Some(frame) => answer_of(self@, body@) == Some(frame@),
                None => answer_of(self@, body@) is None,
            },
    {
        match self {
            Request::Ignored => None,
            Request::Rejected(text) => Some(text.clone()),
            Request::Chat { .. } => None,
            Request::List => framed("LIST", body),
            Request::Backup { .. } => framed("BACKUP", body),
            Request::CopyRegion { .. } => framed("CP_REGION", body),
            Request::ListBridges => framed("LIST_BRIDGES", body),
            Request::RemoveBackup { .. } => framed("RM_BACKUP", body),
            Request::ToggleBridge { .. } => framed("TOGGLE_BRIDGE", body),
            Request::Command { .. } => None,
            Request::Rcon { .. } => framed("RCON", body),
            Request::CopyStructure { .. } => framed("CP_STRUCTURE", body),
            Request::ListStructures { .. } => framed("LIST_STRUCTURES", body),
            Request::ListBackups => framed("LIST_BACKUPS", body),
            Request::Restart => framed("RESTART", body),
            Request::ListSessions => framed("LIST_SESSIONS", body),
            Request::Shell { .. } => None,
            Request::Heartbeat => framed("HEARTBEAT", body),
            Request::Check => framed("CHECK", body),
            Request::Ping => framed("PONG", body),
        }
    }
}

/// The lines of a `LIST` reply: for each session that answered, its name, a
/// space and its answer.
pub open spec fn list_lines(replies: Seq<(String, Option<String>)>) -> Seq<Seq<char>>
    decreases replies.len(),
{
    if replies.len() == 0 {
        Seq::empty()
    } else {
        let before = list_lines(replies.drop_last());
        match replies.last().1 {
            Some(answer) => before.push(replies.last().0@ + seq![' '] + answer@),
            None => before,
        }
    }
}

/// The body of the `LIST` reply. `replies` holds, for each session with a
/// remote console, its name and what it answered, if it did.
pub fn list_body(replies: &Vec<(String, Option<String>)>) -> (r: String)
    ensures
        r@ == join(list_lines(replies@), "\n"@),
{
    let mut lines: Vec<Vec<char>> = Vec::new();
    let mut i: usize = 0;
    while i < replies.len()
        invariant
            i <= replies.len(),
            char_views(lines@) == list_lines(replies@.take(i as int)),
        decreases replies.len() - i,
    {
        assert(replies@.take(i + 1).drop_last() == replies@.take(i as int));
        let entry = &replies[i];
        match &entry.1 {
            Some(answer) => {
                let mut line: Vec<char> = Vec::new();
                push_str(&mut line, entry.0.as_str());
                line.push(' ');
                push_str(&mut line, answer.as_str());
                assert(line@ =~= entry.0@ + seq![' '] + answer@);
                lines.push(line);
            },
            None => {},
        }
        i += 1;
    }
    assert(replies@.take(replies.len() as int) == replies@);
    let out = joined(&lines, "\n");
    from_chars(&out)
}

/// The body of the `BACKUP` reply: what the backup said, or that no session
/// with a game bears the name.
pub fn backup_body(said: Option<&str>) -> (r: String)
    ensures
        r@ == match said {
            Some(text) => text@,
            None => "Invalid Session Target"@,
        },
{
    match said {
        Some(text) => text.to_owned(),
        None => "Invalid Session Target".to_owned(),
    }
}

/// The body of the `RM_BACKUP` reply.
pub fn removal_body(removed: bool) -> (r: String)
    ensures
        r@ == if removed {
            "removed backup successfully"@
        } else {
            "unable to remove backup"@
        },
{
    if removed {
        "removed backup successfully".to_owned()
    } else {
        "unable to remove backup".to_owned()
    }
}

/// The body of the `RESTART` reply: `None` where no restart script is
/// configured, else whether the script ran through.
pub fn restart_body(ran: Option<bool>) -> (r: String)
    ensures
        r@ == match ran {
            None => "no restart script found"@,
            Some(true) => "restarting..."@,
            Some(false) => "failed to execute restart script"@,
        },
{
    match ran {
        None => "no restart script found".to_owned(),
        Some(true) => "restarting...".to_owned(),
        Some(false) => "failed to execute restart script".to_owned(),
    }
}

/// The body of the `HEARTBEAT` reply: the verdict on the host, `true` where
/// it is unhealthy.
pub fn heartbeat_body(unhealthy: bool) -> (r: String)
    ensures
        r@ == if unhealthy {
            "true"@
        } else {
            "false"@
        },
{
    if unhealthy {
        "true".to_owned()
    } else {
        "false".to_owned()
    }
}

/// The body of the `PING` reply: the server's time in milliseconds.
pub fn ping_body(unix_millis: u128) -> (r: String)
    ensures
        r@ == decimal(unix_millis as nat),
{
    let mut out: Vec<char> = Vec::new();
    push_decimal(&mut out, unix_millis);
    from_chars(&out)
}

/// How `LIST_BRIDGES` names the three states of a bridge.
pub open spec fn enabled_text(enabled: Option<bool>) -> Seq<char> {
    match enabled {
        Some(true) => "true"@,
        Some(false) => "false"@,
        None => "disabled"@,
    }
}

/// The line of `LIST_BRIDGES` for one bridge.
pub open spec fn bridge_line(bridge: Bridge) -> Seq<char> {
    "Name: "@ + bridge.name@ + " State: "@ + enabled_text(bridge.enabled)
}

/// The body of the `LIST_BRIDGES` reply: one line for each bridge.
pub fn bridges_body(bridges: &Vec<Bridge>) -> (r: String)
    ensures
        r@ == join(Seq::new(bridges@.len(), |i: int| bridge_line(bridges@[i])), "\n"@),
{
    let mut lines: Vec<Vec<char>> = Vec::new();
    let mut i: usize = 0;
    while i < bridges.len()
        invariant
            i <= bridges.len(),
            lines.len() == i,
            forall|k: int| 0 <= k < i ==> lines@[k]@ == bridge_line(bridges@[k]),
        decreases bridges.len() - i,
    {
        let bridge = &bridges[i];
        let mut line: Vec<char> = Vec::new();
        push_str(&mut line, "Name: ");
        push_str(&mut line, bridge.name.as_str());
        push_str(&mut line, " State: ");
        match bridge.enabled {
            Some(true) => push_str(&mut line, "true"),
            Some(false) => push_str(&mut line, "false"),
            None => push_str(&mut line, "disabled"),
        }
        lines.push(line);
        i += 1;
    }
    assert(char_views(lines@) =~= Seq::new(bridges@.len(), |i: int| bridge_line(bridges@[i])));
    let out = joined(&lines, "\n");
    from_chars(&out)
}

/// A bridge after `TOGGLE_BRIDGE` for `name`: switched over where it bears
/// the name and is not switched off by the configuration.
pub open spec fn toggled(bridge: Bridge, name: Seq<char>) -> Bridge {
    if bridge.name@ == name && bridge.enabled is Some {
        Bridge { enabled: Some(!bridge.enabled->0), ..bridge }
    } else {
        bridge
    }
}

/// Whether `TOGGLE_BRIDGE` for `name` finds a bridge to switch over.
pub open spec fn can_toggle(bridges: Seq<Bridge>, name: Seq<char>) -> bool {
    exists|i: int| 0 <= i < bridges.len() && #[trigger] bridges[i].name@ == name && bridges[i].enabled is Some
}

/// Switches over every bridge that bears `name`, unless the configuration
/// switched it off, and gives the body of the `TOGGLE_BRIDGE` reply.
pub fn toggle_bridge(bridges: &mut Vec<Bridge>, name: &str) -> (r: String)
    ensures
        final(bridges)@.len() == old(bridges)@.len(),
        forall|i: int|
            0 <= i < old(bridges)@.len() ==> #[trigger] final(bridges)@[i] == toggled(
                old(bridges)@[i],
                name@,
            ),
        r@ == if can_toggle(old(bridges)@, name@) {
            "Toggled state"@
        } else {
            "Session not found"@
        },
{
    let mut changed = false;
    let mut i: usize = 0;
    while i < bridges.len()
        invariant
            i <= bridges.len(),
            bridges@.len() == old(bridges)@.len(),
            forall|k: int| 0 <= k < i ==> #[trigger] bridges@[k] == toggled(old(bridges)@[k], name@),
            forall|k: int| i <= k < bridges.len() ==> bridges@[k] == old(bridges)@[k],
            changed == can_toggle(old(bridges)@.take(i as int), name@),
        decreases bridges.len() - i,
    {
        let ghost was = bridges@[i as int];
        let same_name = str_eq(bridges[i].name.as_str(), name);
        let enabled = bridges[i].enabled;
        proof {
            let before = old(bridges)@.take(i as int);
            let after = old(bridges)@.take(i + 1);
            assert(forall|k: int| 0 <= k < i ==> before[k] == after[k]);
            assert(after[i as int] == was);
            if can_toggle(before, name@) {
                let k = choose|k: int|
                    0 <= k < before.len() && #[trigger] before[k].name@ == name@
                        && before[k].enabled is Some;
                assert(after[k].name@ == name@ && after[k].enabled is Some);
            }
            if can_toggle(after, name@) && !(same_name && enabled is Some) {
                let k = choose|k: int|
                    0 <= k < after.len() && #[trigger] after[k].name@ == name@
                        && after[k].enabled is Some;
                assert(before[k].name@ == name@ && before[k].enabled is Some);
            }
        }
        match enabled {
            Some(on) => {
                if same_name {
                    let next = Bridge {
                        name: bridges[i].name.clone(),
                        line: bridges[i].line,
                        enabled: Some(!on),
                        state: bridges[i].state,
                    };
                    bridges.set(i, next);
                    changed = true;
                }
            },
            None => {},
        }
        i += 1;
    }
    assert(old(bridges)@.take(bridges.len() as int) == old(bridges)@);
    if changed {
        "Toggled state".to_owned()
    } else {
        "Session not found".to_owned()
    }
}

/// What the manager knows of one client of the control socket.
#[derive(Clone, Copy, Debug, PartialEq, Eq, Structural)]
pub struct WsClient {
    /// Whether the client has sent the password.
    pub authed: bool,
}

/// What is to be done with a frame that a client sent.
#[derive(Debug, PartialEq, Eq)]
pub enum FrameAction {
    /// The frame was no text: the connection is closed.
    Close,
    /// The frame was taken for a password; nothing is answered.
    Silent,
    /// The frame was a command of an authenticated client.
    Handle(Request),
}

/// Compares the password with a frame. Every character of the two is looked
/// at once their lengths agree, so that the time taken does not tell how
/// many of the first characters were right.
pub fn password_matches(password: &str, frame: &str) -> (r: bool)
    ensures
        r == (password@ == frame@),
{
    let p = to_chars(password);
    let f = to_chars(frame);
    if p.len() != f.len() {
        return false;
    }
    let mut differ: u32 = 0;
    let mut i: usize = 0;
    while i < p.len()
        invariant
            p.len() == f.len(),
            i <= p.len(),
            (differ == 0) <==> p@.take(i as int) =~= f@.take(i as int),
        decreases p.len() - i,
    {
        let a: char = p[i];
        let b: char = f[i];
        let x: u32 = a as u32;
        let y: u32 = b as u32;
        proof {
            vstd::utf8::char_u32_cast(a, x);
            vstd::utf8::char_u32_cast(b, y);
        }
        let before: u32 = differ;
        differ = differ | (x ^ y);
        assert((differ == 0) <==> (before == 0 && x == y)) by (bit_vector)
            requires
                differ == before | (x ^ y),
        ;
        proof {
            let pa = p@.take(i as int);
            let fa = f@.take(i as int);
            let pb = p@.take(i + 1);
            let fb = f@.take(i + 1);
            assert(pb =~= pa.push(p@[i as int]));
            assert(fb =~= fa.push(f@[i as int]));
            if pb =~= fb {
                assert(pb[i as int] == fb[i as int]);
                assert(pa =~= pb.take(i as int));
                assert(fa =~= fb.take(i as int));
            }
        }
        i += 1;
    }
    assert(p@.take(p.len() as int) == p@);
    assert(f@.take(f.len() as int) == f@);
    differ == 0
}

impl WsClient {
    /// A client that has just connected: not yet authenticated.
    pub fn new() -> (client: WsClient)
        ensures
            !client.authed,
    {
        WsClient { authed: false }
    }

    /// Takes one frame from the client. `frame` is `None` where the frame was
    /// no text. Until the client is authenticated every frame is taken for
    /// the password and none is answered; the frame that equals the password
    /// authenticates the client. After that every frame is read as a command.
    pub fn client_msg(&mut self, password: &str, frame: Option<&str>) -> (action: FrameAction)
        ensures
            match frame {
                None => action == FrameAction::Close && *final(self) == *old(self),
                Some(text) => if old(self).authed {
                    &&& final(self).authed
                    &&& action matches FrameAction::Handle(request)
                    &&& request@ == request_of(text@)
                } else {
                    &&& action == FrameAction::Silent
                    &&& final(self).authed == (text@ == password@)
                },
            },
    {
        match frame {
            None => FrameAction::Close,
            Some(text) => {
                if self.authed {
                    FrameAction::Handle(handle_response(text))
                } else {
                    self.authed = password_matches(password, text);
                    FrameAction::Silent
                }
            },
        }
    }
}

/// The clients that a broadcast frame goes to: the positions, in order, of
/// those that are authenticated. No client that is not authenticated is
/// among them.
pub fn recipients(clients: &Vec<WsClient>) -> (out: Vec<usize>)
    ensures
        forall|k: int| 0 <= k < out@.len() ==> out@[k] < clients@.len() && clients@[out@[k] as int].authed,
        forall|k: int, l: int| 0 <= k < l < out@.len() ==> out@[k] < out@[l],
        forall|i: int| 0 <= i < clients@.len() && clients@[i].authed ==> out@.contains(i as usize),
{
    let mut out: Vec<usize> = Vec::new();
    let mut i: usize = 0;
    while i < clients.len()
        invariant
            i <= clients.len(),
            forall|k: int| 0 <= k < out@.len() ==> out@[k] < i && clients@[out@[k] as int].authed,
            forall|k: int, l: int| 0 <= k < l < out@.len() ==> out@[k] < out@[l],
            forall|j: int| 0 <= j < i && clients@[j].authed ==> out@.contains(j as usize),
        decreases clients.len() - i,
    {
        if clients[i].authed {
            let ghost before = out@;
            out.push(i);
            assert(out@[before.len() as int] == i);
            assert forall|j: int| 0 <= j < i + 1 && clients@[j].authed implies out@.contains(
                j as usize,
            ) by {
                if j < i {
                    let k = choose|k: int| 0 <= k < before.len() && before[k] == j as usize;
                    assert(out@[k] == j as usize);
                }
            }
        }
        i += 1;
    }
    out
}

} // verus!
