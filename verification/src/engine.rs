//! The engine bridge: the session side of the line-oriented text protocol
//! spoken to an external move-search process.
//!
//! The process itself (spawning, pipes, the background reader thread) lives
//! outside the library; this module owns the delivery channel, the exact
//! text of every outbound command, and the parsing of the one inbound line
//! that matters, `bestmove <move>`.

use crate::model::{digit_char, digit_str};
use vstd::prelude::*;

verus! {

#[verifier::external_type_specification]
#[verifier::external_body]
#[verifier::reject_recursive_types(T)]
pub struct ExSender<T>(std::sync::mpsc::Sender<T>);

#[verifier::external_type_specification]
#[verifier::external_body]
#[verifier::reject_recursive_types(T)]
pub struct ExReceiver<T>(std::sync::mpsc::Receiver<T>);

/// Relies on std::sync::mpsc::channel: a fresh asynchronous
/// sender/receiver pair.
#[verifier::external_body]
fn mpsc_channel() -> (std::sync::mpsc::Sender<String>, std::sync::mpsc::Receiver<String>) {
    std::sync::mpsc::channel()
}

/// Relies on std::sync::mpsc::Receiver::try_recv, documented to return
/// immediately whether or not a value is queued: this call never blocks.
#[verifier::external_body]
fn try_recv_opt(rx: &std::sync::mpsc::Receiver<String>) -> Option<String> {
    rx.try_recv().ok()
}

/// Relies on std::sync::mpsc::Sender::clone: another handle feeding the
/// same queue.
#[verifier::external_body]
fn sender_clone(tx: &std::sync::mpsc::Sender<String>) -> std::sync::mpsc::Sender<String> {
    tx.clone()
}

/// The session's half of the engine connection: the delivery channel for
/// computed moves, the configured search time, and the request-id
/// bookkeeping that guards against stale replies.
///
/// The line protocol carries no identifiers, but the process answers
/// searches in order, so the n-th reply answers the n-th search. Each
/// submitted search gets a fresh id and only a reply whose position in the
/// stream matches the one search still awaited is ever handed out;
/// anything else (a reply that arrives after its search was cancelled by
/// an undo or a reset) is discarded.
pub struct ChessEngine {
    move_sender: std::sync::mpsc::Sender<String>,
    move_receiver: std::sync::mpsc::Receiver<String>,
    think_time: u64,
    next_request: u64,
    replies_seen: u64,
    expected: Option<u64>,
}

impl ChessEngine {
    /// The search time, in milliseconds, used by [`Self::go_command_line`].
    pub closed spec fn spec_think_time(&self) -> u64 {
        self.think_time
    }

    /// The id the next submitted search will get.
    pub closed spec fn spec_next_request(&self) -> u64 {
        self.next_request
    }

    /// How many reply lines have been taken off the channel so far.
    pub closed spec fn spec_replies_seen(&self) -> u64 {
        self.replies_seen
    }

    /// The id of the one search whose reply is still awaited, if any.
    pub closed spec fn spec_expected(&self) -> Option<u64> {
        self.expected
    }

    pub fn new() -> (e: ChessEngine)
        ensures
            e.spec_think_time() == 2000,
            e.spec_next_request() == 1,
            e.spec_replies_seen() == 0,
            e.spec_expected() is None,
    {
        let (tx, rx) = mpsc_channel();
        ChessEngine {
            move_sender: tx,
            move_receiver: rx,
            think_time: 2000,
            next_request: 1,
            replies_seen: 0,
            expected: None,
        }
    }

    /// Registers a newly submitted search and returns its id; its reply is
    /// now the one the bridge will hand out. Any earlier awaited search is
    /// superseded.
    pub fn begin_search(&mut self) -> (id: u64)
        ensures
            id == old(self).spec_next_request(),
            final(self).spec_expected() == Some(id),
            final(self).spec_next_request() as int == (if old(self).spec_next_request()
                < u64::MAX {
                old(self).spec_next_request() + 1
            } else {
                old(self).spec_next_request() as int
            }),
            final(self).spec_replies_seen() == old(self).spec_replies_seen(),
            final(self).spec_think_time() == old(self).spec_think_time(),
    {
        let id = self.next_request;
        self.next_request = match self.next_request.checked_add(1) {
            Some(n) => n,
            None => self.next_request,
        };
        self.expected = Some(id);
        id
    }

    /// Forgets the outstanding search: its reply, should it still arrive,
    /// will be discarded.
    pub fn cancel_search(&mut self)
        ensures
            final(self).spec_expected() is None,
            final(self).spec_next_request() == old(self).spec_next_request(),
            final(self).spec_replies_seen() == old(self).spec_replies_seen(),
            final(self).spec_think_time() == old(self).spec_think_time(),
    {
        self.expected = None;
    }

    /// Polls the delivery channel. Never blocks: if no reply is queued (or
    /// the reader thread is gone), returns `None` at once. A queued reply
    /// is handed out only when it answers the one search still awaited;
    /// a stale reply is consumed and discarded.
    pub fn try_receive_move(&mut self) -> (r: Option<String>)
        ensures
            final(self).spec_think_time() == old(self).spec_think_time(),
            final(self).spec_next_request() == old(self).spec_next_request(),
            old(self).spec_expected() is None ==> r is None,
            r is Some ==> {
                &&& (old(self).spec_expected() matches Some(id) && id as int == old(self).spec_replies_seen() + 1)
                &&& final(self).spec_expected() is None
                &&& final(self).spec_replies_seen() as int == old(self).spec_replies_seen() + 1
            },
            r is None ==> final(self).spec_expected() == old(self).spec_expected(),
    {
        let m = match try_recv_opt(&self.move_receiver) {
            None => {
                return None;
            },
            Some(m) => m,
        };
        let counted: bool;
        match self.replies_seen.checked_add(1) {
            Some(n) => {
                self.replies_seen = n;
                counted = true;
            },
            None => {
                counted = false;
            },
        }
        let matches_awaited = counted && match self.expected {
            Some(id) => id == self.replies_seen,
            None => false,
        };
        if matches_awaited {
            self.expected = None;
            Some(m)
        } else {
            None
        }
    }

    /// A producer handle on the delivery channel, for the thread that reads
    /// the process's output.
    pub fn sender(&self) -> std::sync::mpsc::Sender<String> {
        sender_clone(&self.move_sender)
    }

    pub fn set_think_time(&mut self, think_time: u64)
        ensures
            final(self).spec_think_time() == think_time,
    {
        self.think_time = think_time;
    }

    pub fn think_time(&self) -> (t: u64)
        ensures
            t == self.spec_think_time(),
    {
        self.think_time
    }

    /// The `go` command for this engine's configured search time.
    pub fn go_command_line(&self) -> (r: String)
        ensures
            r@ == spec_go_command(self.spec_think_time() as nat),
    {
        go_command(self.think_time)
    }
}

/// The decimal digits of `n`, most significant first, with no leading zero
/// except for `n == 0` itself.
pub open spec fn dec_digits(n: nat) -> Seq<char>
    decreases n,
{
    if n < 10 {
        seq![digit_char(n as int)]
    } else {
        dec_digits(n / 10) + seq![digit_char((n % 10) as int)]
    }
}

/// Renders `n` in decimal.
pub fn u64_to_string(n: u64) -> (s: String)
    ensures
        s@ == dec_digits(n as nat),
    decreases n,
{
    if n < 10 {
        digit_str(n as u8).to_owned()
    } else {
        let mut s = u64_to_string(n / 10);
        s.append(digit_str((n % 10) as u8));
        proof {
            assert(s@ =~= dec_digits(n as nat));
        }
        s
    }
}

pub open spec fn spec_position_command(fen: Seq<char>) -> Seq<char> {
    "position fen "@ + fen + "\n"@
}

/// The command that hands the engine the current position.
pub fn position_command(fen: &str) -> (r: String)
    ensures
        r@ == spec_position_command(fen@),
{
    let mut s = String::from_str("position fen ");
    s.append(fen);
    s.append("\n");
    s
}

pub open spec fn spec_go_command(ms: nat) -> Seq<char> {
    "go movetime "@ + dec_digits(ms) + "\n"@
}

/// The command that starts a search bounded by `ms` milliseconds.
pub fn go_command(ms: u64) -> (r: String)
    ensures
        r@ == spec_go_command(ms as nat),
{
    let mut s = String::from_str("go movetime ");
    let digits = u64_to_string(ms);
    s.append(digits.as_str());
    s.append("\n");
    s
}

pub open spec fn spec_skill_command(skill: nat) -> Seq<char> {
    "setoption name Skill Level value "@ + dec_digits(skill) + "\n"@
}

/// The initialization sequence written to a freshly started engine process:
/// handshake, readiness check, then the option settings, one line each.
pub fn init_commands(skill_level: u8) -> (r: Vec<String>)
    ensures
        r@.len() == 7,
        r@[0]@ == "uci\n"@,
        r@[1]@ == "isready\n"@,
        r@[2]@ == spec_skill_command(skill_level as nat),
        r@[3]@ == "setoption name Threads value 4\n"@,
        r@[4]@ == "setoption name Hash value 128\n"@,
        r@[5]@ == "setoption name UCI_AnalyseMode value false\n"@,
        r@[6]@ == "setoption name UCI_LimitStrength value false\n"@,
{
    let mut v: Vec<String> = Vec::new();
    v.push(String::from_str("uci\n"));
    v.push(String::from_str("isready\n"));
    let mut skill = String::from_str("setoption name Skill Level value ");
    let digits = u64_to_string(skill_level as u64);
    skill.append(digits.as_str());
    skill.append("\n");
    v.push(skill);
    v.push(String::from_str("setoption name Threads value 4\n"));
    v.push(String::from_str("setoption name Hash value 128\n"));
    v.push(String::from_str("setoption name UCI_AnalyseMode value false\n"));
    v.push(String::from_str("setoption name UCI_LimitStrength value false\n"));
    v
}

/// Whitespace as the engine protocol understands it.
pub open spec fn is_ws(c: char) -> bool {
    c == ' ' || c == '\t' || c == '\r' || c == '\n'
}

/// The first index at or after `i` holding a non-whitespace character
/// (or the end of `l`).
pub open spec fn skip_ws(l: Seq<char>, i: int) -> int
    recommends
        0 <= i <= l.len(),
    decreases l.len() - i,
{
    if i < 0 || i >= l.len() {
        i
    } else if is_ws(l[i]) {
        skip_ws(l, i + 1)
    } else {
        i
    }
}

/// The first index at or after `i` holding a whitespace character
/// (or the end of `l`).
pub open spec fn token_end(l: Seq<char>, i: int) -> int
    recommends
        0 <= i <= l.len(),
    decreases l.len() - i,
{
    if i < 0 || i >= l.len() {
        i
    } else if !is_ws(l[i]) {
        token_end(l, i + 1)
    } else {
        i
    }
}

/// The move carried by an engine output line: present exactly when the line
/// starts with the marker word `bestmove`, followed by at least one
/// whitespace character and then a non-empty token, which is the result.
pub open spec fn spec_bestmove_token(l: Seq<char>) -> Option<Seq<char>> {
    if l.len() >= 9 && l.subrange(0, 8) == "bestmove"@ && is_ws(l[8]) {
        let s = skip_ws(l, 8);
        if s < l.len() {
            Some(l.subrange(s, token_end(l, s)))
        } else {
            None
        }
    } else {
        None
    }
}

fn is_ws_exec(c: char) -> (r: bool)
    ensures
        r == is_ws(c),
{
    c == ' ' || c == '\t' || c == '\r' || c == '\n'
}

/// Extracts the computed move from one line of engine output, if the line
/// carries one.
pub fn parse_bestmove_line(line: &str) -> (r: Option<String>)
    ensures
        r matches Some(tok) ==> spec_bestmove_token(line@) == Some(tok@),
        r is None ==> spec_bestmove_token(line@) is None,
{
    proof {
        reveal_strlit("bestmove");
    }
    let n = line.unicode_len();
    if n < 9 {
        return None;
    }
    if line.get_char(0) != 'b' || line.get_char(1) != 'e' || line.get_char(2) != 's'
        || line.get_char(3) != 't' || line.get_char(4) != 'm' || line.get_char(5) != 'o'
        || line.get_char(6) != 'v' || line.get_char(7) != 'e' {
        proof {
            if line@.subrange(0, 8) == "bestmove"@ {
                assert(forall|k: int|
                    0 <= k < 8 ==> line@[k] == #[trigger] line@.subrange(0, 8)[k]);
                assert("bestmove"@[0] == 'b' && "bestmove"@[1] == 'e' && "bestmove"@[2] == 's'
                    && "bestmove"@[3] == 't' && "bestmove"@[4] == 'm' && "bestmove"@[5] == 'o'
                    && "bestmove"@[6] == 'v' && "bestmove"@[7] == 'e');
                assert(false);
            }
        }
        return None;
    }
    proof {
        assert(line@.subrange(0, 8) =~= "bestmove"@);
    }
    if !is_ws_exec(line.get_char(8)) {
        return None;
    }
    let mut i: usize = 8;
    while i < n && is_ws_exec(line.get_char(i))
        invariant
            8 <= i <= n,
            n == line@.len(),
            skip_ws(line@, 8) == skip_ws(line@, i as int),
        decreases n - i,
    {
        i = i + 1;
    }
    proof {
        assert(skip_ws(line@, i as int) == i as int);
    }
    if i >= n {
        return None;
    }
    let start: usize = i;
    let mut j: usize = i;
    while j < n && !is_ws_exec(line.get_char(j))
        invariant
            start <= j <= n,
            n == line@.len(),
            token_end(line@, start as int) == token_end(line@, j as int),
        decreases n - j,
    {
        j = j + 1;
    }
    proof {
        assert(token_end(line@, j as int) == j as int);
    }
    Some(line.substring_char(start, j).to_owned())
}

} // verus!
