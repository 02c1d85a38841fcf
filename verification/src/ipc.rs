//! The line protocol of the control socket: commands are
//! case-insensitive single words, read up to the first space.

use vstd::prelude::*;
use vstd::string::StrSliceExecFns;

verus! {

/// Scalar index of the first space at or after `i`, or the length.
pub open spec fn token_end_from(cmd: Seq<char>, i: int) -> int
    decreases cmd.len() - i,
{
    if 0 <= i < cmd.len() && cmd[i] != ' ' {
        token_end_from(cmd, i + 1)
    } else {
        i
    }
}

/// The first word of a request line: everything before the first space.
pub open spec fn first_token(cmd: Seq<char>) -> Seq<char> {
    cmd.take(token_end_from(cmd, 0))
}

/// `tok` equals a keyword up to ASCII case: at each position it holds
/// the upper-case or the lower-case form of the keyword.
pub open spec fn keyword_eq(tok: Seq<char>, up: Seq<char>, low: Seq<char>) -> bool {
    &&& tok.len() == up.len()
    &&& tok.len() == low.len()
    &&& forall|i: int| 0 <= i < tok.len() ==> tok[i] == up[i] || tok[i] == low[i]
}

proof fn lemma_token_end_bounds(cmd: Seq<char>, i: int)
    requires
        0 <= i <= cmd.len(),
    ensures
        i <= token_end_from(cmd, i) <= cmd.len(),
    decreases cmd.len() - i,
{
    if i < cmd.len() && cmd[i] != ' ' {
        lemma_token_end_bounds(cmd, i + 1);
    }
}

/// The first word of `cmd`, as a fresh string.
fn take_first_token(cmd: &str) -> (r: String)
    ensures
        r@ == first_token(cmd@),
{
    proof {
        lemma_token_end_bounds(cmd@, 0);
    }
    let len = cmd.unicode_len();
    let mut i: usize = 0;
    loop
        invariant
            0 <= i <= len,
            len == cmd@.len(),
            token_end_from(cmd@, 0) == token_end_from(cmd@, i as int),
        ensures
            i as int == token_end_from(cmd@, 0),
        decreases len - i,
    {
        if i >= len {
            break;
        }
        if cmd.get_char(i) == ' ' {
            break;
        }
        i = i + 1;
    }
    let tok = cmd.substring_char(0, i);
    proof {
        assert(tok@ =~= first_token(cmd@));
    }
    tok.to_owned()
}

/// Whether `tok` is the keyword whose upper- and lower-case forms are
/// given, compared scalar by scalar.
fn keyword_match(tok: &str, up: &str, low: &str) -> (r: bool)
    requires
        up@.len() == low@.len(),
    ensures
        r == keyword_eq(tok@, up@, low@),
{
    let lt = tok.unicode_len();
    let lu = up.unicode_len();
    if lt != lu {
        return false;
    }
    let mut i: usize = 0;
    loop
        invariant
            0 <= i <= lt,
            lt == tok@.len(),
            lt == up@.len(),
            lt == low@.len(),
            forall|j: int| 0 <= j < i ==> tok@[j] == up@[j] || tok@[j] == low@[j],
        ensures
            i <= lt,
            forall|j: int| 0 <= j < i ==> tok@[j] == up@[j] || tok@[j] == low@[j],
            i < lt ==> !(tok@[i as int] == up@[i as int] || tok@[i as int] == low@[i as int]),
        decreases lt - i,
    {
        if i >= lt {
            break;
        }
        let c = tok.get_char(i);
        if c != up.get_char(i) && c != low.get_char(i) {
            break;
        }
        i = i + 1;
    }
    i == lt
}

/// A request line, parsed: the commands the daemon understands, or
/// `Unknown` for anything else.
#[derive(Clone, Copy, Debug, PartialEq, Eq, Structural)]
pub enum Command {
    Ping,
    Start,
    Stop,
    Poll,
    Shutdown,
    Unknown,
}

/// Which command a request line carries: its first word, matched
/// case-insensitively.
pub open spec fn parse_command_spec(cmd: Seq<char>) -> Command {
    let tok = first_token(cmd);
    if keyword_eq(tok, "PING"@, "ping"@) {
        Command::Ping
    } else if keyword_eq(tok, "START"@, "start"@) {
        Command::Start
    } else if keyword_eq(tok, "STOP"@, "stop"@) {
        Command::Stop
    } else if keyword_eq(tok, "POLL"@, "poll"@) {
        Command::Poll
    } else if keyword_eq(tok, "SHUTDOWN"@, "shutdown"@) {
        Command::Shutdown
    } else {
        Command::Unknown
    }
}

/// Parse a request line into the command it names.
pub fn parse_command(cmd: &str) -> (r: Command)
    ensures
        r == parse_command_spec(cmd@),
{
    let tok = take_first_token(cmd);
    proof {
        reveal_strlit("PING");
        reveal_strlit("ping");
        reveal_strlit("START");
        reveal_strlit("start");
        reveal_strlit("STOP");
        reveal_strlit("stop");
        reveal_strlit("POLL");
        reveal_strlit("poll");
        reveal_strlit("SHUTDOWN");
        reveal_strlit("shutdown");
    }
    if keyword_match(tok.as_str(), "PING", "ping") {
        Command::Ping
    } else if keyword_match(tok.as_str(), "START", "start") {
        Command::Start
    } else if keyword_match(tok.as_str(), "STOP", "stop") {
        Command::Stop
    } else if keyword_match(tok.as_str(), "POLL", "poll") {
        Command::Poll
    } else if keyword_match(tok.as_str(), "SHUTDOWN", "shutdown") {
        Command::Shutdown
    } else {
        Command::Unknown
    }
}

/// The stateless part of the protocol: what a bare responder answers
/// to a request line. `PING` gets `PONG`; `START` and `STOP` are
/// acknowledged; anything else is an error naming the first word.
pub open spec fn handle_command_spec(cmd: Seq<char>) -> Seq<char> {
    let tok = first_token(cmd);
    if keyword_eq(tok, "PING"@, "ping"@) {
        "PONG"@
    } else if keyword_eq(tok, "START"@, "start"@) {
        "OK"@
    } else if keyword_eq(tok, "STOP"@, "stop"@) {
        "OK"@
    } else {
        "ERROR unknown command: "@ + tok
    }
}

/// Answer one request line, statelessly.
pub fn handle_command(cmd: &str) -> (r: String)
    ensures
        r@ == handle_command_spec(cmd@),
{
    let tok = take_first_token(cmd);
    proof {
        reveal_strlit("PING");
        reveal_strlit("ping");
        reveal_strlit("START");
        reveal_strlit("start");
        reveal_strlit("STOP");
        reveal_strlit("stop");
    }
    if keyword_match(tok.as_str(), "PING", "ping") {
        String::from_str("PONG")
    } else if keyword_match(tok.as_str(), "START", "start") {
        String::from_str("OK")
    } else if keyword_match(tok.as_str(), "STOP", "stop") {
        String::from_str("OK")
    } else {
        let mut r = String::from_str("ERROR unknown command: ");
        r.append(tok.as_str());
        r
    }
}

} // verus!
