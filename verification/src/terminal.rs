//! Terminal sessions: their command history and how the terminal's events change them.
//! Running a command is the caller's; the session records what it reports.
use vstd::prelude::*;
use crate::clock::now_millis;
use crate::ai::{contains_piece, contains_str};
use crate::text::{chars_of, is_blank, is_blank_seq, push_char, push_range, str_eq, string_of};

verus! {

/// What happens in a terminal session.
#[derive(Debug, Clone)]
pub enum TerminalEvent {
    Input { session_id: String, data: Vec<u8> },
    Output { session_id: String, data: Vec<u8> },
    SessionCreated { session_id: String },
    SessionClosed { session_id: String },
    CommandExecuted { session_id: String, command: String, exit_code: i32 },
}

/// A command run in a session. Instants are milliseconds since the Unix epoch, durations
/// nanoseconds.
#[derive(Debug)]
pub struct CommandHistory {
    pub command: String,
    pub timestamp: i64,
    pub exit_code: Option<i32>,
    pub duration: Option<u64>,
    pub output_size: usize,
}

#[derive(Debug)]
pub struct TerminalSession {
    pub id: String,
    pub working_directory: String,
    pub environment: Vec<(String, String)>,
    pub history: Vec<CommandHistory>,
    pub created_at: i64,
    pub last_activity: i64,
}

/// The open sessions, oldest first.
#[derive(Debug)]
pub struct TerminalEngine {
    pub sessions: Vec<TerminalSession>,
}

/// Calls `uuid::Uuid::new_v4` and formats it with `to_string`: a random identifier in the
/// hyphenated form, thirty-two lowercase hexadecimal digits and four hyphens, so thirty-six
/// ASCII characters. Which identifier is not stated; `new_v4` panics when the platform's
/// random source fails, which no argument can prevent.
#[verifier::external_body]
pub(crate) fn new_session_id() -> (r: String)
    ensures
        r@.len() == 36,
        forall|i: int| 0 <= i < 36 ==> (#[trigger] r@[i]) as u32 <= 0x7f,
{
    uuid::Uuid::new_v4().to_string()
}

/// `String::from_utf8_lossy`, as an owned string.
pub uninterp spec fn lossy_text(bytes: Seq<u8>) -> Seq<char>;

/// Calls `String::from_utf8_lossy`: the bytes read as UTF-8, each invalid sequence
/// replaced by U+FFFD. The decoding itself is left to that name.
#[verifier::external_body]
pub(crate) fn decode_lossy(bytes: &[u8]) -> (r: String)
    ensures
        r@ == lossy_text(bytes@),
{
    String::from_utf8_lossy(bytes).into_owned()
}

/// The first line of `s` as `str::lines` gives it: up to the first newline, without a
/// carriage return just before it; nothing for an empty text.
pub open spec fn first_line(s: Seq<char>) -> Option<Seq<char>> {
    if s.len() == 0 {
        None
    } else if exists|i: int| 0 <= i < s.len() && s[i] == '\n' {
        let k = choose|i: int| 0 <= i < s.len() && s[i] == '\n' && forall|j: int| 0 <= j < i ==> s[j] != '\n';
        let l = s.take(k);
        if l.len() > 0 && l.last() == '\r' {
            Some(l.drop_last())
        } else {
            Some(l)
        }
    } else {
        Some(s)
    }
}

/// The command typed in some input: its first line, unless that is blank.
pub open spec fn typed_command(text: Seq<char>) -> Option<Seq<char>> {
    match first_line(text) {
        Some(l) => if is_blank_seq(l) {
            None
        } else {
            Some(l)
        },
        None => None,
    }
}

/// First session at or after `i` with identifier `id` (or the length).
pub open spec fn find_session(s: Seq<TerminalSession>, id: Seq<char>, i: int) -> int
    decreases s.len() - i,
{
    if 0 <= i < s.len() && s[i].id@ != id {
        find_session(s, id, i + 1)
    } else if i < 0 {
        s.len() as int
    } else {
        i
    }
}

/// The sessions other than `idx` are as they were.
pub open spec fn others_kept(a: Seq<TerminalSession>, b: Seq<TerminalSession>, idx: int) -> bool {
    &&& a.len() == b.len()
    &&& forall|k: int| 0 <= k < a.len() && k != idx ==> #[trigger] b[k] == a[k]
}

/// Only the last history entry may differ.
pub open spec fn history_but_last(a: Seq<CommandHistory>, b: Seq<CommandHistory>) -> bool {
    &&& a.len() == b.len()
    &&& forall|k: int| 0 <= k < a.len() - 1 ==> #[trigger] b[k] == a[k]
}

/// `b` is `a` with `command` recorded as started in the session `session`, if there is one.
pub open spec fn began_command(a: Seq<TerminalSession>, b: Seq<TerminalSession>, session: Seq<char>, command: String) -> bool {
    let idx = find_session(a, session, 0);
    &&& others_kept(a, b, idx)
    &&& idx < a.len() ==> {
        let o = a[idx];
        let f = b[idx];
        &&& f.history@.drop_last() == o.history@
        &&& f.history@.len() == o.history@.len() + 1
        &&& f.history@.last().command == command
        &&& f.history@.last().exit_code is None
        &&& f.history@.last().duration is None
        &&& f.history@.last().output_size == 0
        &&& f.id == o.id && f.working_directory == o.working_directory
        &&& f.environment == o.environment
        &&& f.created_at == o.created_at
        &&& f.last_activity == o.last_activity
    }
}

/// `len` more output bytes fit in the last command of the session `session`.
pub open spec fn output_fits(a: Seq<TerminalSession>, session: Seq<char>, len: int) -> bool {
    let idx = find_session(a, session, 0);
    idx < a.len() && a[idx].history@.len() > 0 ==> a[idx].history@.last().output_size + len <= usize::MAX
}

/// `b` is `a` with `len` output bytes counted for the last command of `session`.
pub open spec fn output_recorded(a: Seq<TerminalSession>, b: Seq<TerminalSession>, session: Seq<char>, len: int) -> bool {
    let idx = find_session(a, session, 0);
    &&& others_kept(a, b, idx)
    &&& idx < a.len() ==> {
        let o = a[idx];
        let f = b[idx];
        &&& history_but_last(o.history@, f.history@)
        &&& o.history@.len() > 0 ==> {
            &&& f.history@.last().output_size == o.history@.last().output_size + len
            &&& f.history@.last().command == o.history@.last().command
            &&& f.history@.last().exit_code == o.history@.last().exit_code
            &&& f.history@.last().timestamp == o.history@.last().timestamp
            &&& f.history@.last().duration == o.history@.last().duration
        }
        &&& f.id == o.id && f.working_directory == o.working_directory
        &&& f.environment == o.environment
        &&& f.created_at == o.created_at
    }
}

/// `b` is `a` with the exit status recorded for the last command of `session`.
pub open spec fn exit_recorded(a: Seq<TerminalSession>, b: Seq<TerminalSession>, session: Seq<char>, code: i32) -> bool {
    let idx = find_session(a, session, 0);
    &&& others_kept(a, b, idx)
    &&& idx < a.len() ==> {
        let o = a[idx];
        let f = b[idx];
        &&& history_but_last(o.history@, f.history@)
        &&& o.history@.len() > 0 ==> {
            &&& f.history@.last().exit_code == Some(code)
            &&& f.history@.last().command == o.history@.last().command
            &&& f.history@.last().output_size == o.history@.last().output_size
            &&& f.history@.last().timestamp == o.history@.last().timestamp
            &&& f.history@.last().duration == o.history@.last().duration
        }
        &&& f.id == o.id && f.working_directory == o.working_directory
        &&& f.environment == o.environment
        &&& f.created_at == o.created_at
    }
}

/// A command with a space on each side, so that a pattern can name where a word ends.
pub open spec fn spaced(t: Seq<char>) -> Seq<char> {
    seq![' '] + t + seq![' ']
}

/// The command deletes the root directory, is a fork bomb, or formats or overwrites a disk.
pub open spec fn dangerous_command(t: Seq<char>) -> bool {
    let p = spaced(t);
    ||| contains_piece(p, "rm -rf / "@)
    ||| contains_piece(p, "rm -rf /* "@)
    ||| contains_piece(p, "rm -fr / "@)
    ||| contains_piece(p, ":(){"@)
    ||| contains_piece(p, "mkfs"@)
    ||| contains_piece(p, "of=/dev/sd"@)
    ||| contains_piece(p, "of=/dev/nvme"@)
    ||| contains_piece(p, "> /dev/sd"@)
}

/// The command runs `sudo`, `chmod` or `chown` as a word of its own.
pub open spec fn system_modifying_command(t: Seq<char>) -> bool {
    let p = spaced(t);
    ||| contains_piece(p, " sudo "@)
    ||| contains_piece(p, " chmod "@)
    ||| contains_piece(p, " chown "@)
}

/// The command chains several with `&&`, `||` or `;`.
pub open spec fn chained_command(t: Seq<char>) -> bool {
    ||| contains_piece(t, "&&"@)
    ||| contains_piece(t, "||"@)
    ||| contains_piece(t, ";"@)
}

/// Input `data` typed in `session`: the command of its first line, if any and not
/// dangerous, is given back and recorded as started; a dangerous one is refused.
pub open spec fn input_handled(
    a: Seq<TerminalSession>,
    b: Seq<TerminalSession>,
    session: Seq<char>,
    data: Seq<u8>,
    r: Option<String>,
) -> bool {
    match typed_command(lossy_text(data)) {
        Some(c) => if dangerous_command(c) {
            r is None && b == a
        } else {
            r matches Some(x) && x@ == c && exists|h: String|
                h@ == c && #[trigger] began_command(a, b, session, h)
        },
        None => r is None && b == a,
    }
}

/// What the security check finds in a command: whether it is refused, and what the user is
/// warned of.
#[derive(Debug, Clone, Copy, PartialEq, Eq, Structural)]
pub struct CommandValidation {
    pub blocked: bool,
    pub system_modifying: bool,
    pub chained: bool,
}

/// Checks a command against the dangerous patterns (refused), the system-modifying
/// commands and command chaining (warned of).
pub fn validate_command(command: &str) -> (r: CommandValidation)
    ensures
        r.blocked == dangerous_command(command@),
        r.system_modifying == system_modifying_command(command@),
        r.chained == chained_command(command@),
{
    let cs = chars_of(command);
    let mut p = String::new();
    push_char(&mut p, ' ');
    push_range(&mut p, &cs, 0, cs.len());
    push_char(&mut p, ' ');
    assert(cs@.subrange(0, cs@.len() as int) =~= command@);
    assert(p@ =~= spaced(command@));
    let blocked = contains_str(p.as_str(), "rm -rf / ") || contains_str(p.as_str(), "rm -rf /* ")
        || contains_str(p.as_str(), "rm -fr / ") || contains_str(p.as_str(), ":(){")
        || contains_str(p.as_str(), "mkfs") || contains_str(p.as_str(), "of=/dev/sd")
        || contains_str(p.as_str(), "of=/dev/nvme") || contains_str(p.as_str(), "> /dev/sd");
    let system_modifying = contains_str(p.as_str(), " sudo ") || contains_str(p.as_str(), " chmod ")
        || contains_str(p.as_str(), " chown ");
    let chained = contains_str(command, "&&") || contains_str(command, "||") || contains_str(
        command,
        ";",
    );
    CommandValidation { blocked, system_modifying, chained }
}

/// The sessions without those named `id`, in order.
pub open spec fn without_session(s: Seq<TerminalSession>, id: Seq<char>) -> Seq<TerminalSession>
    decreases s.len(),
{
    if s.len() == 0 {
        s
    } else if s.last().id@ == id {
        without_session(s.drop_last(), id)
    } else {
        without_session(s.drop_last(), id).push(s.last())
    }
}

/// The command typed in a chunk of input, if its first line is not blank.
pub fn parse_input(data: &[u8]) -> (r: Option<String>)
    ensures
        match typed_command(lossy_text(data@)) {
            Some(c) => r matches Some(x) && x@ == c,
            None => r is None,
        },
{
    let text = decode_lossy(data);
    let cs = chars_of(text.as_str());
    let ghost s = cs@;
    let n = cs.len();
    if n == 0 {
        return None;
    }
    let mut k: usize = 0;
    while k < n && cs[k] != '\n'
        invariant
            k <= n,
            n == s.len(),
            cs@ == s,
            forall|j: int| 0 <= j < k ==> s[j] != '\n',
        decreases n - k,
    {
        k = k + 1;
    }
    let mut end = k;
    if k < n {
        assert(s[k as int] == '\n' && forall|j: int| 0 <= j < k ==> s[j] != '\n');
        let ghost kk = choose|i: int| 0 <= i < s.len() && s[i] == '\n' && forall|j: int| 0 <= j < i ==> s[j] != '\n';
        assert(kk == k) by {
            if kk < k {
                assert(s[kk] != '\n');
            } else if kk > k {
                assert(s[k as int] != '\n');
            }
        }
        if end > 0 && cs[end - 1] == '\r' {
            end = end - 1;
        }
        if k > 0 {
            assert(s.take(k as int).drop_last() =~= s.subrange(0, (k - 1) as int));
        }
    }
    let line = string_of(&cs, 0, end);
    proof {
        if k == n {
            assert(!exists|i: int| 0 <= i < s.len() && s[i] == '\n');
            assert(s.subrange(0, n as int) =~= s);
        } else {
            assert(s.take(k as int) =~= s.subrange(0, k as int));
        }
    }
    if is_blank(line.as_str()) {
        None
    } else {
        Some(line)
    }
}

impl TerminalEngine {
    pub fn new() -> (r: TerminalEngine)
        ensures
            r.sessions@.len() == 0,
    {
        TerminalEngine { sessions: Vec::new() }
    }

    pub fn session_index(&self, session_id: &str) -> (r: usize)
        ensures
            r == find_session(self.sessions@, session_id@, 0),
            r <= self.sessions@.len(),
            r < self.sessions@.len() ==> self.sessions@[r as int].id@ == session_id@,
    {
        let mut i: usize = 0;
        while i < self.sessions.len()
            invariant
                i <= self.sessions@.len(),
                find_session(self.sessions@, session_id@, 0) == find_session(self.sessions@, session_id@, i as int),
            decreases self.sessions@.len() - i,
        {
            if str_eq(self.sessions[i].id.as_str(), session_id) {
                return i;
            }
            i = i + 1;
        }
        i
    }

    /// Opens a session with a fresh identifier, in `working_directory` or else the current
    /// directory, with the given environment and no history; gives its identifier.
    pub fn create_session(
        &mut self,
        working_directory: Option<String>,
        current_dir: String,
        environment: Vec<(String, String)>,
    ) -> (r: String)
        ensures
            final(self).sessions@.len() == old(self).sessions@.len() + 1,
            final(self).sessions@.drop_last() == old(self).sessions@,
            final(self).sessions@.last().id == r,
            r@.len() == 36,
            final(self).sessions@.last().working_directory == match working_directory {
                Some(d) => d,
                None => current_dir,
            },
            final(self).sessions@.last().environment == environment,
            final(self).sessions@.last().history@.len() == 0,
    {
        let id = new_session_id();
        let now = now_millis();
        let dir = match working_directory {
            Some(d) => d,
            None => current_dir,
        };
        self.sessions.push(
            TerminalSession {
                id: id.clone(),
                working_directory: dir,
                environment,
                history: Vec::new(),
                created_at: now,
                last_activity: now,
            },
        );
        id
    }

    /// Records a command the session is about to run, not yet finished.
    pub fn begin_command(&mut self, session_id: &str, command: String)
        ensures
            began_command(old(self).sessions@, final(self).sessions@, session_id@, command),
    {
        let idx = self.session_index(session_id);
        if idx < self.sessions.len() {
            let timestamp = now_millis();
            let mut sessions = Vec::new();
            std::mem::swap(&mut sessions, &mut self.sessions);
            let mut s = sessions.remove(idx);
            let ghost h0 = s.history@;
            s.history.push(CommandHistory { command, timestamp, exit_code: None, duration: None, output_size: 0 });
            assert(s.history@.drop_last() =~= h0);
            sessions.insert(idx, s);
            assert(forall|k: int| 0 <= k < sessions@.len() && k != idx ==> sessions@[k] == old(self).sessions@[k]);
            self.sessions = sessions;
            assert(others_kept(old(self).sessions@, self.sessions@, idx as int));
        }
    }

    /// Typed input: the command in its first line, if not blank and not dangerous, is
    /// recorded as started and given back for the caller to run; other input changes
    /// nothing.
    pub fn handle_input(&mut self, session_id: &str, data: &[u8]) -> (r: Option<String>)
        ensures
            input_handled(old(self).sessions@, final(self).sessions@, session_id@, data@, r),
    {
        match parse_input(data) {
            Some(c) => {
                if validate_command(c.as_str()).blocked {
                    return None;
                }
                let h = c.clone();
                self.begin_command(session_id, h);
                Some(c)
            },
            None => None,
        }
    }

    /// Output of a session: its activity time moves and its last command's output grows by
    /// `len` bytes.
    pub fn handle_output(&mut self, session_id: &str, len: usize)
        requires
            output_fits(old(self).sessions@, session_id@, len as int),
        ensures
            output_recorded(old(self).sessions@, final(self).sessions@, session_id@, len as int),
    {
        let idx = self.session_index(session_id);
        if idx < self.sessions.len() {
            let now = now_millis();
            let mut sessions = Vec::new();
            std::mem::swap(&mut sessions, &mut self.sessions);
            let mut s = sessions.remove(idx);
            s.last_activity = now;
            let n = s.history.len();
            if n > 0 {
                let mut h = s.history.remove(n - 1);
                h.output_size = h.output_size + len;
                s.history.push(h);
            }
            sessions.insert(idx, s);
            assert(forall|k: int| 0 <= k < sessions@.len() && k != idx ==> sessions@[k] == old(self).sessions@[k]);
            self.sessions = sessions;
        }
    }

    /// A command finished: its session's activity time moves and its last command takes the
    /// exit status.
    pub fn handle_command_executed(&mut self, session_id: &str, exit_code: i32)
        ensures
            exit_recorded(old(self).sessions@, final(self).sessions@, session_id@, exit_code),
    {
        let idx = self.session_index(session_id);
        if idx < self.sessions.len() {
            let now = now_millis();
            let mut sessions = Vec::new();
            std::mem::swap(&mut sessions, &mut self.sessions);
            let mut s = sessions.remove(idx);
            s.last_activity = now;
            let n = s.history.len();
            if n > 0 {
                let mut h = s.history.remove(n - 1);
                h.exit_code = Some(exit_code);
                s.history.push(h);
            }
            sessions.insert(idx, s);
            assert(forall|k: int| 0 <= k < sessions@.len() && k != idx ==> sessions@[k] == old(self).sessions@[k]);
            self.sessions = sessions;
        }
    }

    /// Closes every session named `session_id`.
    pub fn handle_session_closed(&mut self, session_id: &str)
        ensures
            final(self).sessions@ == without_session(old(self).sessions@, session_id@),
    {
        let mut old_sessions = Vec::new();
        std::mem::swap(&mut old_sessions, &mut self.sessions);
        let ghost s0 = old_sessions@;
        let mut kept: Vec<TerminalSession> = Vec::new();
        let ghost mut rest: Seq<TerminalSession> = Seq::empty();
        while old_sessions.len() > 0
            invariant
                s0 == old(self).sessions@,
                s0 == rest + old_sessions@,
                kept@ == without_session(rest, session_id@),
            decreases old_sessions@.len(),
        {
            let ghost before = old_sessions@;
            let s = old_sessions.remove(0);
            assert(before =~= seq![s] + old_sessions@);
            let ghost r0 = rest;
            proof {
                rest = rest.push(s);
            }
            assert(rest.drop_last() =~= r0);
            if !str_eq(s.id.as_str(), session_id) {
                kept.push(s);
            }
            assert(s0 =~= rest + old_sessions@);
        }
        assert(rest =~= s0);
        self.sessions = kept;
    }

    /// Applies one event; typed input gives back the command the caller is to run.
    pub fn handle_event(&mut self, event: &TerminalEvent) -> (r: Option<String>)
        requires
            event matches TerminalEvent::Output { session_id, data } ==> output_fits(
                old(self).sessions@,
                session_id@,
                data@.len() as int,
            ),
        ensures
            match event {
                TerminalEvent::Input { session_id, data } => input_handled(
                    old(self).sessions@,
                    final(self).sessions@,
                    session_id@,
                    data@,
                    r,
                ),
                TerminalEvent::Output { session_id, data } => r is None && output_recorded(
                    old(self).sessions@,
                    final(self).sessions@,
                    session_id@,
                    data@.len() as int,
                ),
                TerminalEvent::SessionCreated { .. } => r is None && final(self).sessions@ == old(
                    self,
                ).sessions@,
                TerminalEvent::SessionClosed { session_id } => r is None && final(self).sessions@
                    == without_session(old(self).sessions@, session_id@),
                TerminalEvent::CommandExecuted { session_id, exit_code, .. } => r is None
                    && exit_recorded(old(self).sessions@, final(self).sessions@, session_id@, *exit_code),
            },
    {
        match event {
            TerminalEvent::Input { session_id, data } => self.handle_input(session_id.as_str(), data.as_slice()),
            TerminalEvent::Output { session_id, data } => {
                self.handle_output(session_id.as_str(), data.len());
                None
            },
            TerminalEvent::SessionCreated { .. } => None,
            TerminalEvent::SessionClosed { session_id } => {
                self.handle_session_closed(session_id.as_str());
                None
            },
            TerminalEvent::CommandExecuted { session_id, exit_code, .. } => {
                self.handle_command_executed(session_id.as_str(), *exit_code);
                None
            },
        }
    }

    /// The directory a session's commands run in, or `fallback` for an unknown session.
    pub fn command_directory(&self, session_id: &str, fallback: String) -> (r: String)
        ensures
            ({
                let idx = find_session(self.sessions@, session_id@, 0);
                r@ == if idx < self.sessions@.len() {
                    self.sessions@[idx].working_directory@
                } else {
                    fallback@
                }
            }),
    {
        let idx = self.session_index(session_id);
        if idx < self.sessions.len() {
            self.sessions[idx].working_directory.clone()
        } else {
            fallback
        }
    }

    pub fn get_session(&self, session_id: &str) -> (r: Option<&TerminalSession>)
        ensures
            ({
                let idx = find_session(self.sessions@, session_id@, 0);
                if idx < self.sessions@.len() {
                    r == Some(&self.sessions@[idx])
                } else {
                    r is None
                }
            }),
    {
        let idx = self.session_index(session_id);
        if idx < self.sessions.len() {
            Some(&self.sessions[idx])
        } else {
            None
        }
    }

    pub fn get_all_sessions(&self) -> (r: &Vec<TerminalSession>)
        ensures
            r@ == self.sessions@,
    {
        &self.sessions
    }
}


/// Closing a session leaves no session of that identifier and keeps every other one.
pub proof fn lemma_closed_session_gone(s: Seq<TerminalSession>, id: Seq<char>)
    ensures
        forall|i: int| 0 <= i < without_session(s, id).len() ==> (#[trigger] without_session(s, id)[i]).id@ != id,
        forall|i: int| 0 <= i < s.len() && s[i].id@ != id ==> without_session(s, id).contains(#[trigger] s[i]),
    decreases s.len(),
{
    if s.len() > 0 {
        lemma_closed_session_gone(s.drop_last(), id);
        let w = without_session(s.drop_last(), id);
        assert forall|i: int| 0 <= i < s.len() && s[i].id@ != id implies without_session(s, id).contains(#[trigger] s[i]) by {
            if i < s.len() - 1 {
                assert(s.drop_last()[i] == s[i]);
                assert(w.contains(s[i]));
                let j = choose|j: int| 0 <= j < w.len() && w[j] == s[i];
                if s.last().id@ != id {
                    assert(w.push(s.last())[j] == s[i]);
                }
            } else {
                assert(w.push(s.last())[w.len() as int] == s[i]);
            }
        }
    }
}

} // verus!
