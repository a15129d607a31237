//! Shared terminal sessions: who takes part, the messages sent to the participants and to
//! which connections they go. The sockets themselves are the caller's.
use vstd::prelude::*;
use crate::clock::now_millis;
use crate::terminal::new_session_id;
use crate::text::str_eq;

verus! {

#[derive(Debug, Clone, Copy, PartialEq, Eq, Structural)]
pub enum ParticipantRole {
    Owner,
    Editor,
    Viewer,
}

#[derive(Debug, Clone, Copy, PartialEq, Eq, Structural)]
pub struct ParticipantPermissions {
    pub can_input: bool,
    pub can_execute_commands: bool,
    pub can_modify_settings: bool,
    pub can_invite_others: bool,
}

#[derive(Debug, Clone, Copy, PartialEq, Eq, Structural)]
pub struct SessionSettings {
    pub read_only: bool,
    pub require_approval_for_commands: bool,
    pub auto_share_output: bool,
    pub encryption_enabled: bool,
    pub max_participants: usize,
    pub session_timeout_minutes: u64,
}

/// The shared terminal's state.
#[derive(Debug)]
pub struct TerminalState {
    pub current_directory: String,
    pub environment: Vec<(String, String)>,
    pub command_history: Vec<String>,
    pub scrollback: Vec<String>,
    pub cursor_position: (usize, usize),
}

#[derive(Debug, Clone, Copy, PartialEq, Eq, Structural)]
pub enum MessageType {
    Chat,
    Command,
    Output,
    FileTransfer,
    CursorUpdate,
    SessionInfo,
    UserJoined,
    UserLeft,
}

/// What a message carries; it is sent as a JSON object with one field.
#[derive(Debug)]
pub enum MessageContent {
    Content(String),
    Input(String),
    Output(String),
    Position(usize, usize),
}

/// A message to the participants; `timestamp` in milliseconds since the Unix epoch.
#[derive(Debug)]
pub struct CollaborationMessage {
    pub id: String,
    pub message_type: MessageType,
    pub sender: String,
    pub timestamp: i64,
    pub content: MessageContent,
    pub encrypted: bool,
}

#[derive(Debug)]
pub struct SessionParticipant {
    pub id: String,
    pub name: String,
    pub role: ParticipantRole,
    pub joined_at: i64,
    pub cursor_position: Option<(usize, usize)>,
    pub color: (u8, u8, u8),
    pub permissions: ParticipantPermissions,
}

#[derive(Debug)]
pub struct CollaborativeSession {
    pub id: String,
    pub name: String,
    pub owner: String,
    pub participants: Vec<SessionParticipant>,
    pub created_at: i64,
    pub last_activity: i64,
    pub settings: SessionSettings,
    pub terminal_state: TerminalState,
}

/// What happens in shared sessions.
#[derive(Debug)]
pub enum CollaborationEvent {
    SessionCreated { session_id: String, owner: String },
    SessionJoined { session_id: String, user: String },
    SessionLeft { session_id: String, user: String },
    MessageReceived { session_id: String, user: String, message: CollaborationMessage },
    TerminalInputShared { session_id: String, user: String, input: String },
    TerminalOutputShared { session_id: String, output: String },
    CursorMoved { session_id: String, user: String, position: (usize, usize) },
}

/// An open connection to a remote participant; `last_ping` in milliseconds.
#[derive(Debug)]
pub struct Connection {
    pub connection_id: String,
    pub session_id: String,
    pub user_id: String,
    pub last_ping: i64,
}

/// The shared sessions and the connections to them.
#[derive(Debug)]
pub struct CollaborationEngine {
    pub encryption_enabled: bool,
    pub sessions: Vec<CollaborativeSession>,
    pub connections: Vec<Connection>,
}

/// A participant may type and run commands, nothing more.
pub open spec fn default_permissions() -> ParticipantPermissions {
    ParticipantPermissions {
        can_input: true,
        can_execute_commands: true,
        can_modify_settings: false,
        can_invite_others: false,
    }
}

/// Writable, output shared, encrypted, ten participants, two hours.
pub open spec fn default_settings() -> SessionSettings {
    SessionSettings {
        read_only: false,
        require_approval_for_commands: false,
        auto_share_output: true,
        encryption_enabled: true,
        max_participants: 10,
        session_timeout_minutes: 120,
    }
}

impl Default for ParticipantPermissions {
    fn default() -> (r: ParticipantPermissions)
        ensures
            r == default_permissions(),
    {
        ParticipantPermissions {
            can_input: true,
            can_execute_commands: true,
            can_modify_settings: false,
            can_invite_others: false,
        }
    }
}

impl Default for SessionSettings {
    fn default() -> (r: SessionSettings)
        ensures
            r == default_settings(),
    {
        SessionSettings {
            read_only: false,
            require_approval_for_commands: false,
            auto_share_output: true,
            encryption_enabled: true,
            max_participants: 10,
            session_timeout_minutes: 120,
        }
    }
}

impl TerminalState {
    /// A fresh state in `current_directory` with `environment`, nothing typed or shown.
    pub fn new(current_directory: String, environment: Vec<(String, String)>) -> (r: TerminalState)
        ensures
            r.current_directory == current_directory,
            r.environment == environment,
            r.command_history@.len() == 0,
            r.scrollback@.len() == 0,
            r.cursor_position == (0usize, 0usize),
    {
        TerminalState {
            current_directory,
            environment,
            command_history: Vec::new(),
            scrollback: Vec::new(),
            cursor_position: (0, 0),
        }
    }
}

/// The participant color taken from three bytes of a hash: bits 16 to 23, 8 to 15, 0 to 7.
pub fn color_from_hash(hash: u64) -> (r: (u8, u8, u8))
    ensures
        r.0 == (hash / 0x1_0000) % 0x100,
        r.1 == (hash / 0x100) % 0x100,
        r.2 == hash % 0x100,
{
    let r = ((hash >> 16) & 0xFF) as u8;
    let g = ((hash >> 8) & 0xFF) as u8;
    let b = (hash & 0xFF) as u8;
    assert(((hash >> 16) & 0xFF) == (hash / 0x1_0000) % 0x100) by (bit_vector);
    assert(((hash >> 8) & 0xFF) == (hash / 0x100) % 0x100) by (bit_vector);
    assert((hash & 0xFF) == hash % 0x100) by (bit_vector);
    (r, g, b)
}

/// The address a remote session is joined at.
pub fn remote_join_url(server_url: &str, session_id: &str, user: &str) -> (r: String)
    ensures
        r@ == server_url@ + "/session/"@ + session_id@ + "/join/"@ + user@,
{
    let mut r = String::from_str(server_url);
    r.append("/session/");
    r.append(session_id);
    r.append("/join/");
    r.append(user);
    r
}

/// First session at or after `i` with identifier `id` (or the length).
pub open spec fn find_shared(s: Seq<CollaborativeSession>, id: Seq<char>, i: int) -> int
    decreases s.len() - i,
{
    if 0 <= i < s.len() && s[i].id@ != id {
        find_shared(s, id, i + 1)
    } else if i < 0 {
        s.len() as int
    } else {
        i
    }
}

/// The number of bytes of `c` in UTF-8.
pub open spec fn utf8_width(c: char) -> int {
    if '\u{80}' > c {
        1
    } else if '\u{800}' > c {
        2
    } else if '\u{10000}' > c {
        3
    } else {
        4
    }
}

/// The number of bytes of `s` in UTF-8.
pub open spec fn utf8_len(s: Seq<char>) -> int
    decreases s.len(),
{
    if s.len() == 0 {
        0
    } else {
        utf8_len(s.drop_last()) + utf8_width(s.last())
    }
}

/// Some prefix of `id` is exactly eight bytes long, so byte eight falls on a character
/// boundary and `&id[..8]` is defined.
pub open spec fn has_byte_head(id: Seq<char>) -> bool {
    exists|k: int| 0 <= k <= id.len() && #[trigger] utf8_len(id.take(k)) == 8
}

/// How many characters that eight-byte prefix holds.
pub open spec fn byte_head_chars(id: Seq<char>) -> int {
    choose|k: int| 0 <= k <= id.len() && #[trigger] utf8_len(id.take(k)) == 8
}

/// The number of bytes of `c` in UTF-8.
fn width_of(c: char) -> (r: usize)
    ensures
        r == utf8_width(c),
{
    if '\u{80}' > c {
        1
    } else if '\u{800}' > c {
        2
    } else if '\u{10000}' > c {
        3
    } else {
        4
    }
}

/// Longer prefixes have more bytes.
proof fn lemma_utf8_len_grows(s: Seq<char>, i: int, j: int)
    requires
        0 <= i < j <= s.len(),
    ensures
        utf8_len(s.take(i)) < utf8_len(s.take(j)),
    decreases j - i,
{
    assert(s.take(j).drop_last() =~= s.take(j - 1));
    if i < j - 1 {
        lemma_utf8_len_grows(s, i, j - 1);
    }
}

/// The participants without those named `user`, in order.
pub open spec fn without_user(p: Seq<SessionParticipant>, user: Seq<char>) -> Seq<SessionParticipant>
    decreases p.len(),
{
    if p.len() == 0 {
        p
    } else if p.last().name@ == user {
        without_user(p.drop_last(), user)
    } else {
        without_user(p.drop_last(), user).push(p.last())
    }
}

/// The sessions other than `idx` are as they were.
pub open spec fn others_same(a: Seq<CollaborativeSession>, b: Seq<CollaborativeSession>, idx: int) -> bool {
    &&& a.len() == b.len()
    &&& forall|k: int| 0 <= k < a.len() && k != idx ==> #[trigger] b[k] == a[k]
}

/// `b` is `a` with a new session `id` owned by `owner`, in place of one with that
/// identifier or else appended.
pub open spec fn created(
    a: Seq<CollaborativeSession>,
    b: Seq<CollaborativeSession>,
    id: String,
    owner: String,
    terminal_state: TerminalState,
) -> bool {
    let idx = find_shared(a, id@, 0);
    let s = if idx < a.len() {
        b[idx]
    } else {
        b.last()
    };
    &&& idx < a.len() ==> others_same(a, b, idx)
    &&& idx == a.len() ==> b.drop_last() == a && b.len() == a.len() + 1
    &&& s.id == id
    &&& s.name@ == "Session "@ + id@.take(byte_head_chars(id@))
    &&& s.owner == owner
    &&& s.participants@.len() == 0
    &&& s.settings == default_settings()
    &&& s.terminal_state == terminal_state
}

/// `b` is `a` with `user` added to the session `session` as an editor of color `color`.
pub open spec fn joined(
    a: Seq<CollaborativeSession>,
    b: Seq<CollaborativeSession>,
    session: Seq<char>,
    user: String,
    color: (u8, u8, u8),
) -> bool {
    let idx = find_shared(a, session, 0);
    &&& others_same(a, b, idx)
    &&& idx < a.len() ==> {
        let o = a[idx];
        let f = b[idx];
        let p = f.participants@.last();
        &&& f.participants@.drop_last() == o.participants@
        &&& f.participants@.len() == o.participants@.len() + 1
        &&& p.name == user
        &&& p.role == ParticipantRole::Editor
        &&& p.cursor_position is None
        &&& p.color == color
        &&& p.permissions == default_permissions()
        &&& f.id == o.id && f.owner == o.owner && f.settings == o.settings
    }
}

/// `b` is `a` without the participants named `user` in the session `session`.
pub open spec fn left(a: Seq<CollaborativeSession>, b: Seq<CollaborativeSession>, session: Seq<char>, user: Seq<char>) -> bool {
    let idx = find_shared(a, session, 0);
    &&& others_same(a, b, idx)
    &&& idx < a.len() ==> {
        let o = a[idx];
        let f = b[idx];
        &&& f.participants@ == without_user(o.participants@, user)
        &&& f.id == o.id && f.owner == o.owner && f.settings == o.settings
    }
}

/// The connections of a session, in order.
pub open spec fn connections_of(c: Seq<Connection>, session: Seq<char>) -> Seq<Seq<char>>
    decreases c.len(),
{
    if c.len() == 0 {
        seq![]
    } else if c.last().session_id@ == session {
        connections_of(c.drop_last(), session).push(c.last().connection_id@)
    } else {
        connections_of(c.drop_last(), session)
    }
}

impl CollaborationEngine {
    pub fn new(encryption_enabled: bool) -> (r: CollaborationEngine)
        ensures
            r.encryption_enabled == encryption_enabled,
            r.sessions@.len() == 0,
            r.connections@.len() == 0,
    {
        CollaborationEngine { encryption_enabled, sessions: Vec::new(), connections: Vec::new() }
    }

    pub fn session_index(&self, session_id: &str) -> (r: usize)
        ensures
            r == find_shared(self.sessions@, session_id@, 0),
            r <= self.sessions@.len(),
            r < self.sessions@.len() ==> self.sessions@[r as int].id@ == session_id@,
    {
        let mut i: usize = 0;
        while i < self.sessions.len()
            invariant
                i <= self.sessions@.len(),
                find_shared(self.sessions@, session_id@, 0) == find_shared(self.sessions@, session_id@, i as int),
            decreases self.sessions@.len() - i,
        {
            if str_eq(self.sessions[i].id.as_str(), session_id) {
                return i;
            }
            i = i + 1;
        }
        i
    }

    /// A new session `Session <first eight characters of the id>` owned by `owner`, with
    /// default settings and no participants; it replaces one with the same identifier.
    pub fn handle_session_created(&mut self, session_id: String, owner: String, terminal_state: TerminalState)
        requires
            has_byte_head(session_id@),
        ensures
            created(old(self).sessions@, final(self).sessions@, session_id, owner, terminal_state),
            final(self).connections == old(self).connections,
            final(self).encryption_enabled == old(self).encryption_enabled,
    {
        let idx = self.session_index(session_id.as_str());
        let now = now_millis();
        let mut name = String::from_str("Session ");
        let cs = crate::text::chars_of(session_id.as_str());
        let ghost id = session_id@;
        let ghost k = byte_head_chars(id);
        proof {
            assert(0 <= k <= id.len() && utf8_len(id.take(k)) == 8);
        }
        let mut i: usize = 0;
        let mut bytes: usize = 0;
        let ghost base = name@;
        while bytes < 8
            invariant
                cs@ == id,
                0 <= k <= id.len(),
                utf8_len(id.take(k)) == 8,
                i <= k,
                bytes == utf8_len(id.take(i as int)),
                bytes <= 8,
                name@ == base + id.take(i as int),
            decreases k - i,
        {
            assert(i < k);
            let c = cs[i];
            let w = width_of(c);
            assert(id.take(i + 1).drop_last() =~= id.take(i as int));
            crate::text::push_char(&mut name, c);
            assert(id.take(i + 1) =~= id.take(i as int).push(c));
            bytes = bytes + w;
            i = i + 1;
            proof {
                if i < k {
                    lemma_utf8_len_grows(id, i as int, k);
                }
            }
        }
        proof {
            if (i as int) < k {
                lemma_utf8_len_grows(id, i as int, k);
            }
        }
        let session = CollaborativeSession {
            id: session_id,
            name,
            owner,
            participants: Vec::new(),
            created_at: now,
            last_activity: now,
            settings: SessionSettings::default(),
            terminal_state,
        };
        let ghost sv = session;
        if idx < self.sessions.len() {
            self.sessions.set(idx, session);
            assert(self.sessions@ == old(self).sessions@.update(idx as int, sv));
            assert(others_same(old(self).sessions@, self.sessions@, idx as int));
        } else {
            self.sessions.push(session);
            assert(self.sessions@.drop_last() =~= old(self).sessions@);
        }
    }

    /// `user` joins a known session as an editor with default permissions, a fresh
    /// identifier and `color`; an unknown session changes nothing.
    pub fn handle_session_joined(&mut self, session_id: &str, user: String, color: (u8, u8, u8))
        ensures
            joined(old(self).sessions@, final(self).sessions@, session_id@, user, color),
            final(self).connections == old(self).connections,
            final(self).encryption_enabled == old(self).encryption_enabled,
    {
        let idx = self.session_index(session_id);
        if idx < self.sessions.len() {
            let now = now_millis();
            let participant = SessionParticipant {
                id: new_session_id(),
                name: user,
                role: ParticipantRole::Editor,
                joined_at: now,
                cursor_position: None,
                color,
                permissions: ParticipantPermissions::default(),
            };
            let mut sessions = Vec::new();
            std::mem::swap(&mut sessions, &mut self.sessions);
            let mut s = sessions.remove(idx);
            let ghost p0 = s.participants@;
            s.participants.push(participant);
            assert(s.participants@.drop_last() =~= p0);
            s.last_activity = now;
            sessions.insert(idx, s);
            assert(forall|k: int| 0 <= k < sessions@.len() && k != idx ==> sessions@[k] == old(self).sessions@[k]);
            self.sessions = sessions;
            assert(others_same(old(self).sessions@, self.sessions@, idx as int));
        }
    }

    /// `user` leaves a session: every participant of that name goes.
    pub fn handle_session_left(&mut self, session_id: &str, user: &str)
        ensures
            left(old(self).sessions@, final(self).sessions@, session_id@, user@),
            final(self).connections == old(self).connections,
            final(self).encryption_enabled == old(self).encryption_enabled,
    {
        let idx = self.session_index(session_id);
        if idx < self.sessions.len() {
            let now = now_millis();
            let mut sessions = Vec::new();
            std::mem::swap(&mut sessions, &mut self.sessions);
            let mut s = sessions.remove(idx);
            let mut old_p = Vec::new();
            std::mem::swap(&mut old_p, &mut s.participants);
            let ghost p0 = old_p@;
            let mut kept: Vec<SessionParticipant> = Vec::new();
            let ghost mut seen: Seq<SessionParticipant> = Seq::empty();
            while old_p.len() > 0
                invariant
                    p0 == seen + old_p@,
                    kept@ == without_user(seen, user@),
                decreases old_p@.len(),
            {
                let ghost before = old_p@;
                let p = old_p.remove(0);
                assert(before =~= seq![p] + old_p@);
                let ghost s0 = seen;
                proof {
                    seen = seen.push(p);
                }
                assert(seen.drop_last() =~= s0);
                if !str_eq(p.name.as_str(), user) {
                    kept.push(p);
                }
                assert(p0 =~= seen + old_p@);
            }
            assert(seen =~= p0);
            s.participants = kept;
            s.last_activity = now;
            sessions.insert(idx, s);
            assert(forall|k: int| 0 <= k < sessions@.len() && k != idx ==> sessions@[k] == old(self).sessions@[k]);
            self.sessions = sessions;
            assert(others_same(old(self).sessions@, self.sessions@, idx as int));
        }
    }

    /// A message of `kind` from `sender` with a fresh identifier, stamped now.
    fn message(kind: MessageType, sender: String, content: MessageContent, encrypted: bool) -> (r: CollaborationMessage)
        ensures
            r.message_type == kind,
            r.sender == sender,
            r.content == content,
            r.encrypted == encrypted,
    {
        CollaborationMessage { id: new_session_id(), message_type: kind, sender, timestamp: now_millis(), content, encrypted }
    }

    /// The command message for input shared by `user`, encrypted as configured.
    pub fn terminal_input_message(&self, user: String, input: String) -> (r: CollaborationMessage)
        ensures
            r.message_type == MessageType::Command,
            r.sender == user,
            r.content == MessageContent::Input(input),
            r.encrypted == self.encryption_enabled,
    {
        Self::message(MessageType::Command, user, MessageContent::Input(input), self.encryption_enabled)
    }

    /// The output message from the system, encrypted as configured.
    pub fn terminal_output_message(&self, output: String) -> (r: CollaborationMessage)
        ensures
            r.message_type == MessageType::Output,
            r.sender@ == "system"@,
            r.content == MessageContent::Output(output),
            r.encrypted == self.encryption_enabled,
    {
        Self::message(MessageType::Output, String::from_str("system"), MessageContent::Output(output), self.encryption_enabled)
    }

    /// The cursor message of `user`, never encrypted.
    pub fn cursor_message(&self, user: String, position: (usize, usize)) -> (r: CollaborationMessage)
        ensures
            r.message_type == MessageType::CursorUpdate,
            r.sender == user,
            r.content == MessageContent::Position(position.0, position.1),
            !r.encrypted,
    {
        Self::message(MessageType::CursorUpdate, user, MessageContent::Position(position.0, position.1), false)
    }

    /// The chat message of `user`, never encrypted.
    pub fn chat_message(user: String, content: String) -> (r: CollaborationMessage)
        ensures
            r.message_type == MessageType::Chat,
            r.sender == user,
            r.content == MessageContent::Content(content),
            !r.encrypted,
    {
        Self::message(MessageType::Chat, user, MessageContent::Content(content), false)
    }

    /// Applies one event. Membership events change the sessions (a new session gets
    /// `terminal_state`, a joining participant `color`); the others give back the message to
    /// send to the session's connections.
    pub fn handle_event(
        &mut self,
        event: CollaborationEvent,
        terminal_state: TerminalState,
        color: (u8, u8, u8),
    ) -> (r: Option<(String, CollaborationMessage)>)
        requires
            event matches CollaborationEvent::SessionCreated { session_id, .. } ==> has_byte_head(session_id@),
        ensures
            final(self).connections == old(self).connections,
            final(self).encryption_enabled == old(self).encryption_enabled,
            match event {
                CollaborationEvent::SessionCreated { session_id, owner } => r is None && created(
                    old(self).sessions@,
                    final(self).sessions@,
                    session_id,
                    owner,
                    terminal_state,
                ),
                CollaborationEvent::SessionJoined { session_id, user } => r is None && joined(
                    old(self).sessions@,
                    final(self).sessions@,
                    session_id@,
                    user,
                    color,
                ),
                CollaborationEvent::SessionLeft { session_id, user } => r is None && left(
                    old(self).sessions@,
                    final(self).sessions@,
                    session_id@,
                    user@,
                ),
                CollaborationEvent::MessageReceived { session_id, message, .. } => final(self).sessions
                    == old(self).sessions && r == Some((session_id, message)),
                CollaborationEvent::TerminalInputShared { session_id, user, input } => final(self).sessions
                    == old(self).sessions && (r matches Some((s, m)) && s == session_id && m.message_type
                    == MessageType::Command && m.sender == user && m.content == MessageContent::Input(input)
                    && m.encrypted == old(self).encryption_enabled),
                CollaborationEvent::TerminalOutputShared { session_id, output } => final(self).sessions
                    == old(self).sessions && (r matches Some((s, m)) && s == session_id && m.message_type
                    == MessageType::Output && m.sender@ == "system"@ && m.content == MessageContent::Output(
                    output,
                ) && m.encrypted == old(self).encryption_enabled),
                CollaborationEvent::CursorMoved { session_id, user, position } => final(self).sessions
                    == old(self).sessions && (r matches Some((s, m)) && s == session_id && m.message_type
                    == MessageType::CursorUpdate && m.sender == user && m.content == MessageContent::Position(
                    position.0,
                    position.1,
                ) && !m.encrypted),
            },
    {
        match event {
            CollaborationEvent::SessionCreated { session_id, owner } => {
                self.handle_session_created(session_id, owner, terminal_state);
                None
            },
            CollaborationEvent::SessionJoined { session_id, user } => {
                self.handle_session_joined(session_id.as_str(), user, color);
                None
            },
            CollaborationEvent::SessionLeft { session_id, user } => {
                self.handle_session_left(session_id.as_str(), user.as_str());
                None
            },
            CollaborationEvent::MessageReceived { session_id, message, .. } => Some((session_id, message)),
            CollaborationEvent::TerminalInputShared { session_id, user, input } => {
                Some((session_id, self.terminal_input_message(user, input)))
            },
            CollaborationEvent::TerminalOutputShared { session_id, output } => {
                Some((session_id, self.terminal_output_message(output)))
            },
            CollaborationEvent::CursorMoved { session_id, user, position } => {
                Some((session_id, self.cursor_message(user, position)))
            },
        }
    }

    /// The connections a message for `session_id` is sent on, in order.
    pub fn broadcast_targets(&self, session_id: &str) -> (r: Vec<String>)
        ensures
            r@.map_values(|s: String| s@) == connections_of(self.connections@, session_id@),
    {
        let mut r: Vec<String> = Vec::new();
        let mut i: usize = 0;
        while i < self.connections.len()
            invariant
                i <= self.connections@.len(),
                r@.map_values(|s: String| s@) == connections_of(self.connections@.take(i as int), session_id@),
            decreases self.connections@.len() - i,
        {
            assert(self.connections@.take(i + 1).drop_last() =~= self.connections@.take(i as int));
            let c = &self.connections[i];
            if str_eq(c.session_id.as_str(), session_id) {
                let ghost before = r@;
                let id = c.connection_id.clone();
                r.push(id);
                assert(r@.map_values(|s: String| s@) =~= before.map_values(|s: String| s@).push(id@));
            }
            i = i + 1;
        }
        assert(self.connections@.take(i as int) =~= self.connections@);
        r
    }

    /// Keeps a connection opened to a remote session.
    pub fn add_connection(&mut self, session_id: String, user_id: String) -> (r: String)
        ensures
            final(self).connections@.drop_last() == old(self).connections@,
            final(self).connections@.len() == old(self).connections@.len() + 1,
            final(self).connections@.last().connection_id == r,
            final(self).connections@.last().session_id == session_id,
            final(self).connections@.last().user_id == user_id,
            final(self).sessions == old(self).sessions,
    {
        let id = new_session_id();
        self.connections.push(
            Connection { connection_id: id.clone(), session_id, user_id, last_ping: now_millis() },
        );
        id
    }

    pub fn get_session(&self, session_id: &str) -> (r: Option<&CollaborativeSession>)
        ensures
            ({
                let idx = find_shared(self.sessions@, session_id@, 0);
                if idx < self.sessions@.len() {
                    r == Some(&self.sessions@[idx])
                } else {
                    r is None
                }
            }),
    {
        let idx = self.session_index(session_id);
        if idx < self.sessions.len() {
            Some(&self.sessions[idx])
        } else {
            None
        }
    }

    pub fn list_sessions(&self) -> (r: &Vec<CollaborativeSession>)
        ensures
            r@ == self.sessions@,
    {
        &self.sessions
    }
}


/// After `user` leaves, no participant of that name remains and everyone else stays.
pub proof fn lemma_left_user_gone(p: Seq<SessionParticipant>, user: Seq<char>)
    ensures
        forall|i: int| 0 <= i < without_user(p, user).len() ==> (#[trigger] without_user(p, user)[i]).name@ != user,
        forall|i: int| 0 <= i < p.len() && p[i].name@ != user ==> without_user(p, user).contains(#[trigger] p[i]),
    decreases p.len(),
{
    if p.len() > 0 {
        lemma_left_user_gone(p.drop_last(), user);
        let w = without_user(p.drop_last(), user);
        assert forall|i: int| 0 <= i < p.len() && p[i].name@ != user implies without_user(p, user).contains(#[trigger] p[i]) by {
            if i < p.len() - 1 {
                assert(p.drop_last()[i] == p[i]);
                assert(w.contains(p[i]));
                let j = choose|j: int| 0 <= j < w.len() && w[j] == p[i];
                if p.last().name@ != user {
                    assert(w.push(p.last())[j] == p[i]);
                }
            } else {
                assert(w.push(p.last())[w.len() as int] == p[i]);
            }
        }
    }
}

} // verus!
