//! The collaboration server's sessions: who is connected, the log of
//! timeline operations, and the decisions taken on each message.
//!
//! A session is a plain value here. The server shares it between
//! connections behind a lock, sends what the methods return to the other
//! participants, and stamps times; identifiers are UUIDs as integers and
//! times are milliseconds since the Unix epoch.

use vstd::prelude::*;
use crate::id_map::IdMap;
use crate::json::{Json, JsonValue};

verus! {

/// A participant.
#[derive(Debug)]
pub struct User {
    pub id: u128,
    pub name: String,
}

/// The value of a participant.
pub struct UserV {
    pub id: u128,
    pub name: Seq<char>,
}

impl View for User {
    type V = UserV;

    open spec fn view(&self) -> UserV {
        UserV { id: self.id, name: self.name@ }
    }
}

impl User {
    /// A participant with an id and a display name.
    pub fn new(id: u128, name: String) -> (r: User)
        ensures
            r@ == (UserV { id, name: name@ }),
    {
        User { id, name }
    }

    /// A copy of the participant.
    pub fn duplicate(&self) -> (r: User)
        ensures
            r@ == self@,
    {
        User { id: self.id, name: self.name.clone() }
    }
}

/// Where a participant is working: cursor, selection and viewport, as the
/// client describes them.
#[derive(Debug)]
pub struct UserPresence {
    pub user: User,
    pub session_id: u128,
    pub cursor_position: Option<JsonValue>,
    pub selection: Option<JsonValue>,
    pub viewport: Option<JsonValue>,
}

/// The view of an optional document.
pub open spec fn opt_json(o: Option<JsonValue>) -> Option<Json> {
    match o {
        Some(v) => Some(v@),
        None => None,
    }
}

/// The value of a presence.
pub struct PresenceV {
    pub user: UserV,
    pub session_id: u128,
    pub cursor_position: Option<Json>,
    pub selection: Option<Json>,
    pub viewport: Option<Json>,
}

impl View for UserPresence {
    type V = PresenceV;

    open spec fn view(&self) -> PresenceV {
        PresenceV {
            user: self.user@,
            session_id: self.session_id,
            cursor_position: opt_json(self.cursor_position),
            selection: opt_json(self.selection),
            viewport: opt_json(self.viewport),
        }
    }
}

/// The presence of a participant who just joined.
pub open spec fn fresh_presence(user: UserV, session_id: u128) -> PresenceV {
    PresenceV { user, session_id, cursor_position: None, selection: None, viewport: None }
}

/// A copy of an optional document.
fn clone_opt_json(o: &Option<JsonValue>) -> (r: Option<JsonValue>)
    ensures
        opt_json(r) == opt_json(*o),
{
    match o {
        Some(v) => Some(v.deep_clone()),
        None => None,
    }
}

impl UserPresence {
    /// The presence of a participant who just joined a session.
    pub fn new(user: User, session_id: u128) -> (r: UserPresence)
        ensures
            r@ == fresh_presence(user@, session_id),
    {
        UserPresence { user, session_id, cursor_position: None, selection: None, viewport: None }
    }

    /// A copy of the presence.
    pub fn duplicate(&self) -> (r: UserPresence)
        ensures
            r@ == self@,
    {
        UserPresence {
            user: self.user.duplicate(),
            session_id: self.session_id,
            cursor_position: clone_opt_json(&self.cursor_position),
            selection: clone_opt_json(&self.selection),
            viewport: clone_opt_json(&self.viewport),
        }
    }
}

/// A connected participant.
#[derive(Debug)]
pub struct UserInfo {
    pub user: User,
    pub connected_at_ms: i64,
    pub last_activity_ms: i64,
    pub presence: UserPresence,
}

/// The value of a connected participant.
pub struct UserInfoV {
    pub user: UserV,
    pub connected_at_ms: i64,
    pub last_activity_ms: i64,
    pub presence: PresenceV,
}

impl View for UserInfo {
    type V = UserInfoV;

    open spec fn view(&self) -> UserInfoV {
        UserInfoV {
            user: self.user@,
            connected_at_ms: self.connected_at_ms,
            last_activity_ms: self.last_activity_ms,
            presence: self.presence@,
        }
    }
}

impl UserInfo {
    /// A copy of the participant's entry.
    pub fn duplicate(&self) -> (r: UserInfo)
        ensures
            r@ == self@,
    {
        UserInfo {
            user: self.user.duplicate(),
            connected_at_ms: self.connected_at_ms,
            last_activity_ms: self.last_activity_ms,
            presence: self.presence.duplicate(),
        }
    }
}

/// An edit of the timeline by one participant. `clock` is the author's
/// counter when the edit was made; `kind` is the edit itself, which the
/// server stores and forwards without reading.
#[derive(Debug)]
pub struct TimelineOperation {
    pub id: u128,
    pub user_id: u128,
    pub clock: u64,
    pub kind: JsonValue,
}

/// The value of an operation.
pub struct OperationV {
    pub id: u128,
    pub user_id: u128,
    pub clock: u64,
    pub kind: Json,
}

impl View for TimelineOperation {
    type V = OperationV;

    open spec fn view(&self) -> OperationV {
        OperationV { id: self.id, user_id: self.user_id, clock: self.clock, kind: self.kind@ }
    }
}

/// The values of a sequence of operations.
pub open spec fn ops_view(s: Seq<TimelineOperation>) -> Seq<OperationV> {
    s.map_values(|o: TimelineOperation| o@)
}

impl TimelineOperation {
    /// A copy of the operation.
    pub fn duplicate(&self) -> (r: TimelineOperation)
        ensures
            r@ == self@,
    {
        TimelineOperation { id: self.id, user_id: self.user_id, clock: self.clock, kind: self.kind.deep_clone() }
    }
}

/// A copy of a list of operations.
fn clone_ops(v: &Vec<TimelineOperation>) -> (r: Vec<TimelineOperation>)
    ensures
        ops_view(r@) == ops_view(v@),
{
    let mut out: Vec<TimelineOperation> = Vec::new();
    let mut i: usize = 0;
    while i < v.len()
        invariant
            i <= v@.len(),
            ops_view(out@) == ops_view(v@).subrange(0, i as int),
        decreases v@.len() - i,
    {
        let ghost before = ops_view(out@);
        out.push(v[i].duplicate());
        assert(ops_view(out@) =~= before.push(v@[i as int]@));
        assert(ops_view(out@) =~= ops_view(v@).subrange(0, i + 1));
        i = i + 1;
    }
    assert(ops_view(v@).subrange(0, v@.len() as int) =~= ops_view(v@));
    out
}

/// For each participant, how many of its operations have been seen.
#[derive(Debug)]
pub struct VectorClock {
    pub counters: std::collections::HashMap<u128, u64>,
}

/// The counter of `user` in a clock: zero when it has none.
pub open spec fn clock_get(clock: Map<u128, u64>, user: u128) -> u64 {
    if clock.dom().contains(user) {
        clock[user]
    } else {
        0
    }
}

impl View for VectorClock {
    type V = Map<u128, u64>;

    open spec fn view(&self) -> Map<u128, u64> {
        self.counters@
    }
}

impl VectorClock {
    /// A clock that has seen nothing.
    pub fn new() -> (r: VectorClock)
        ensures
            r@ == Map::<u128, u64>::empty(),
    {
        VectorClock { counters: std::collections::HashMap::new() }
    }

    /// The counter of `user`.
    pub fn get(&self, user: u128) -> (r: u64)
        ensures
            r == clock_get(self@, user),
    {
        proof {
            broadcast use vstd::std_specs::hash::group_hash_axioms;
        }
        match self.counters.get(&user) {
            Some(c) => *c,
            None => 0,
        }
    }

    /// Counts one more operation of `user`.
    pub fn increment(&mut self, user: u128)
        requires
            clock_get(old(self)@, user) < u64::MAX,
        ensures
            final(self)@ == old(self)@.insert(user, (clock_get(old(self)@, user) + 1) as u64),
    {
        proof {
            broadcast use vstd::std_specs::hash::group_hash_axioms;
        }
        let c = self.get(user);
        self.counters.insert(user, c + 1);
    }
}

/// A change of where a participant is, or who is there.
#[derive(Debug)]
pub enum PresenceUpdate {
    UserJoined { user: User },
    UserLeft { user_id: u128 },
    CursorMoved { user_id: u128, position: JsonValue },
    SelectionChanged { user_id: u128, selection: JsonValue },
    ViewportChanged { user_id: u128, viewport: JsonValue },
}

/// The value of a presence change.
pub enum PresenceUpdateV {
    UserJoined { user: UserV },
    UserLeft { user_id: u128 },
    CursorMoved { user_id: u128, position: Json },
    SelectionChanged { user_id: u128, selection: Json },
    ViewportChanged { user_id: u128, viewport: Json },
}

impl View for PresenceUpdate {
    type V = PresenceUpdateV;

    open spec fn view(&self) -> PresenceUpdateV {
        match self {
            PresenceUpdate::UserJoined { user } => PresenceUpdateV::UserJoined { user: user@ },
            PresenceUpdate::UserLeft { user_id } => PresenceUpdateV::UserLeft { user_id: *user_id },
            PresenceUpdate::CursorMoved { user_id, position } => PresenceUpdateV::CursorMoved {
                user_id: *user_id,
                position: position@,
            },
            PresenceUpdate::SelectionChanged { user_id, selection } => PresenceUpdateV::SelectionChanged {
                user_id: *user_id,
                selection: selection@,
            },
            PresenceUpdate::ViewportChanged { user_id, viewport } => PresenceUpdateV::ViewportChanged {
                user_id: *user_id,
                viewport: viewport@,
            },
        }
    }
}

/// A message between a client and the server.
#[derive(Debug)]
pub enum SyncMessage {
    Connected { session_id: u128, user_id: u128, initial_state: Vec<TimelineOperation> },
    Operation { operation: TimelineOperation },
    OperationAck { operation_id: u128 },
    SyncRequest { since: VectorClock },
    SyncResponse { operations: Vec<TimelineOperation>, vector_clock: VectorClock },
    Presence { update: PresenceUpdate },
    Ping,
    Pong,
}

/// The value of a message.
pub enum MessageV {
    Connected { session_id: u128, user_id: u128, initial_state: Seq<OperationV> },
    Operation { operation: OperationV },
    OperationAck { operation_id: u128 },
    SyncRequest { since: Map<u128, u64> },
    SyncResponse { operations: Seq<OperationV>, vector_clock: Map<u128, u64> },
    Presence { update: PresenceUpdateV },
    Ping,
    Pong,
}

impl View for SyncMessage {
    type V = MessageV;

    open spec fn view(&self) -> MessageV {
        match self {
            SyncMessage::Connected { session_id, user_id, initial_state } => MessageV::Connected {
                session_id: *session_id,
                user_id: *user_id,
                initial_state: ops_view(initial_state@),
            },
            SyncMessage::Operation { operation } => MessageV::Operation { operation: operation@ },
            SyncMessage::OperationAck { operation_id } => MessageV::OperationAck { operation_id: *operation_id },
            SyncMessage::SyncRequest { since } => MessageV::SyncRequest { since: since@ },
            SyncMessage::SyncResponse { operations, vector_clock } => MessageV::SyncResponse {
                operations: ops_view(operations@),
                vector_clock: vector_clock@,
            },
            SyncMessage::Presence { update } => MessageV::Presence { update: update@ },
            SyncMessage::Ping => MessageV::Ping,
            SyncMessage::Pong => MessageV::Pong,
        }
    }
}

/// The operations of `log` that `clock` has not seen: those whose counter
/// is past the clock's counter for their author, in log order.
pub open spec fn ops_since(log: Seq<OperationV>, clock: Map<u128, u64>) -> Seq<OperationV>
    decreases log.len(),
{
    if log.len() == 0 {
        Seq::empty()
    } else if log.last().clock > clock_get(clock, log.last().user_id) {
        ops_since(log.drop_last(), clock).push(log.last())
    } else {
        ops_since(log.drop_last(), clock)
    }
}

/// The presence of a participant after a change: cursor, selection or
/// viewport moves take the new value; other changes leave it as it is.
pub open spec fn presence_after(p: PresenceV, update: PresenceUpdateV) -> PresenceV {
    match update {
        PresenceUpdateV::CursorMoved { position, .. } => PresenceV { cursor_position: Some(position), ..p },
        PresenceUpdateV::SelectionChanged { selection, .. } => PresenceV { selection: Some(selection), ..p },
        PresenceUpdateV::ViewportChanged { viewport, .. } => PresenceV { viewport: Some(viewport), ..p },
        _ => p,
    }
}

/// A collaboration session.
#[derive(Debug)]
pub struct Session {
    pub id: u128,
    pub created_at_ms: i64,
    pub users: IdMap<UserInfo>,
    pub operation_log: Vec<TimelineOperation>,
}

/// The value of a session.
pub struct SessionV {
    pub id: u128,
    pub created_at_ms: i64,
    pub users: Map<u128, UserInfoV>,
    pub log: Seq<OperationV>,
}

impl View for Session {
    type V = SessionV;

    open spec fn view(&self) -> SessionV {
        SessionV {
            id: self.id,
            created_at_ms: self.created_at_ms,
            users: self.users@,
            log: ops_view(self.operation_log@),
        }
    }
}

impl Session {
    /// A session with no participant and an empty log, created at `now_ms`.
    pub fn new(id: u128, now_ms: i64) -> (r: Session)
        ensures
            r@ == (SessionV { id, created_at_ms: now_ms, users: Map::empty(), log: Seq::empty() }),
    {
        let log: Vec<TimelineOperation> = Vec::new();
        let r = Session { id, created_at_ms: now_ms, users: IdMap::new(), operation_log: log };
        assert(ops_view(log@) =~= Seq::<OperationV>::empty());
        r
    }

    /// A participant joins (or joins again, replacing its entry); the
    /// returned message tells the others.
    pub fn add_user(&mut self, user_id: u128, user: User, now_ms: i64) -> (r: SyncMessage)
        ensures
            final(self)@ == (SessionV {
                users: old(self)@.users.insert(
                    user_id,
                    UserInfoV {
                        user: user@,
                        connected_at_ms: now_ms,
                        last_activity_ms: now_ms,
                        presence: fresh_presence(user@, old(self)@.id),
                    },
                ),
                ..old(self)@
            }),
            r@ == (MessageV::Presence { update: PresenceUpdateV::UserJoined { user: user@ } }),
    {
        let info = UserInfo {
            user: user.duplicate(),
            connected_at_ms: now_ms,
            last_activity_ms: now_ms,
            presence: UserPresence::new(user.duplicate(), self.id),
        };
        self.users.insert(user_id, info);
        SyncMessage::Presence { update: PresenceUpdate::UserJoined { user } }
    }

    /// A participant leaves; the others are told when it was there.
    pub fn remove_user(&mut self, user_id: u128) -> (r: Option<SyncMessage>)
        ensures
            final(self)@ == (SessionV { users: old(self)@.users.remove(user_id), ..old(self)@ }),
            r is Some <==> old(self)@.users.dom().contains(user_id),
            r matches Some(m) ==> m@ == (MessageV::Presence { update: PresenceUpdateV::UserLeft { user_id } }),
    {
        match self.users.remove(user_id) {
            Some(_) => Some(SyncMessage::Presence { update: PresenceUpdate::UserLeft { user_id } }),
            None => None,
        }
    }

    /// Appends an operation to the log; the returned message sends it to
    /// the others.
    pub fn add_operation(&mut self, operation: TimelineOperation) -> (r: SyncMessage)
        ensures
            final(self)@ == (SessionV { log: old(self)@.log.push(operation@), ..old(self)@ }),
            r@ == (MessageV::Operation { operation: operation@ }),
    {
        let ghost before = ops_view(self.operation_log@);
        self.operation_log.push(operation.duplicate());
        assert(ops_view(self.operation_log@) =~= before.push(operation@));
        SyncMessage::Operation { operation }
    }

    /// The operations a client with clock `vector_clock` has not seen.
    pub fn get_operations_since(&self, vector_clock: &VectorClock) -> (r: Vec<TimelineOperation>)
        ensures
            ops_view(r@) == ops_since(self@.log, vector_clock@),
    {
        let ghost log = ops_view(self.operation_log@);
        let mut out: Vec<TimelineOperation> = Vec::new();
        let mut i: usize = 0;
        assert(ops_view(out@) =~= ops_since(log.subrange(0, 0), vector_clock@));
        while i < self.operation_log.len()
            invariant
                log == ops_view(self.operation_log@),
                i <= self.operation_log@.len(),
                ops_view(out@) == ops_since(log.subrange(0, i as int), vector_clock@),
            decreases self.operation_log@.len() - i,
        {
            proof {
                assert(log.subrange(0, i + 1).drop_last() =~= log.subrange(0, i as int));
                assert(log[i as int] == self.operation_log@[i as int]@);
            }
            let op = &self.operation_log[i];
            if op.clock > vector_clock.get(op.user_id) {
                let ghost before = ops_view(out@);
                out.push(op.duplicate());
                assert(ops_view(out@) =~= before.push(op@));
            }
            i = i + 1;
        }
        assert(log.subrange(0, self.operation_log@.len() as int) =~= log);
        out
    }

    /// The whole log, for a client that just connected.
    pub fn get_initial_state(&self) -> (r: Vec<TimelineOperation>)
        ensures
            ops_view(r@) == self@.log,
    {
        clone_ops(&self.operation_log)
    }

    /// A participant's presence changes; the returned message tells the
    /// others. An unknown participant changes nothing, but the change is
    /// still sent.
    pub fn update_presence(&mut self, user_id: u128, update: PresenceUpdate, now_ms: i64) -> (r: SyncMessage)
        ensures
            final(self)@ == (SessionV {
                users: if old(self)@.users.dom().contains(user_id) {
                    old(self)@.users.insert(
                        user_id,
                        UserInfoV {
                            last_activity_ms: now_ms,
                            presence: presence_after(old(self)@.users[user_id].presence, update@),
                            ..old(self)@.users[user_id]
                        },
                    )
                } else {
                    old(self)@.users
                },
                ..old(self)@
            }),
            r@ == (MessageV::Presence { update: update@ }),
    {
        let ghost old_users = self.users@;
        match self.users.get(user_id) {
            Some(info) => {
                let mut next = info.duplicate();
                next.last_activity_ms = now_ms;
                match &update {
                    PresenceUpdate::CursorMoved { position, .. } => {
                        next.presence.cursor_position = Some(position.deep_clone());
                    },
                    PresenceUpdate::SelectionChanged { selection, .. } => {
                        next.presence.selection = Some(selection.deep_clone());
                    },
                    PresenceUpdate::ViewportChanged { viewport, .. } => {
                        next.presence.viewport = Some(viewport.deep_clone());
                    },
                    _ => {},
                }
                self.users.insert(user_id, next);
            },
            None => {},
        }
        SyncMessage::Presence { update }
    }

    /// The participants, in the order they joined.
    pub fn get_active_users(&self) -> (r: Vec<User>)
        ensures
            r@.map_values(|u: User| u@) == self.users.members().map_values(|m: (u128, UserInfo)| m.1@.user),
    {
        let n = self.users.len();
        let ghost members = self.users.members();
        let mut out: Vec<User> = Vec::new();
        let mut i: usize = 0;
        while i < n
            invariant
                n == members.len(),
                members == self.users.members(),
                i <= n,
                out@.map_values(|u: User| u@) == members.subrange(0, i as int).map_values(
                    |m: (u128, UserInfo)| m.1@.user,
                ),
            decreases n - i,
        {
            let (_, info) = self.users.member_at(i);
            let ghost before = out@.map_values(|u: User| u@);
            out.push(info.user.duplicate());
            assert(out@.map_values(|u: User| u@) =~= before.push(members[i as int].1@.user));
            assert(out@.map_values(|u: User| u@) =~= members.subrange(0, i + 1).map_values(
                |m: (u128, UserInfo)| m.1@.user,
            ));
            i = i + 1;
        }
        assert(members.subrange(0, n as int) =~= members);
        out
    }
}


/// A session just created at `now_ms`.
pub open spec fn fresh_session(id: u128, now_ms: i64) -> SessionV {
    SessionV { id, created_at_ms: now_ms, users: Map::empty(), log: Seq::empty() }
}

/// What a listing says of a session.
#[derive(Debug)]
pub struct SessionSummary {
    pub id: u128,
    pub created_at_ms: i64,
    pub user_count: usize,
    pub users: Vec<User>,
}

/// What the detail view says of a session.
#[derive(Debug)]
pub struct SessionDetails {
    pub id: u128,
    pub created_at_ms: i64,
    pub user_count: usize,
    pub users: Vec<UserInfo>,
}

/// All sessions of the server, by id.
#[derive(Debug)]
pub struct SessionManager {
    sessions: IdMap<Session>,
}

impl View for SessionManager {
    type V = Map<u128, SessionV>;

    closed spec fn view(&self) -> Map<u128, SessionV> {
        self.sessions@
    }
}

impl SessionManager {
    /// The sessions in the order they were created.
    pub closed spec fn members(&self) -> Seq<(u128, Session)> {
        self.sessions.members()
    }

    /// A server with no session.
    pub fn new() -> (r: SessionManager)
        ensures
            r@ == Map::<u128, SessionV>::empty(),
    {
        SessionManager { sessions: IdMap::new() }
    }

    /// Starts a session under `session_id`, replacing one already there.
    pub fn create_session(&mut self, session_id: u128, now_ms: i64)
        ensures
            final(self)@ == old(self)@.insert(session_id, fresh_session(session_id, now_ms)),
    {
        self.sessions.insert(session_id, Session::new(session_id, now_ms));
    }

    /// Starts a session under `session_id` unless there is one.
    pub fn get_or_create_session(&mut self, session_id: u128, now_ms: i64)
        ensures
            final(self)@ == if old(self)@.dom().contains(session_id) {
                old(self)@
            } else {
                old(self)@.insert(session_id, fresh_session(session_id, now_ms))
            },
    {
        if !self.sessions.contains_key(session_id) {
            self.create_session(session_id, now_ms);
        }
    }

    /// The session under `session_id`.
    pub fn get_session(&self, session_id: u128) -> (r: Option<&Session>)
        ensures
            match r {
                Some(s) => self@.dom().contains(session_id) && s@ == self@[session_id],
                None => !self@.dom().contains(session_id),
            },
    {
        self.sessions.get(session_id)
    }

    /// Ends the session under `session_id`.
    pub fn remove_session(&mut self, session_id: u128)
        ensures
            final(self)@ == old(self)@.remove(session_id),
    {
        let _ = self.sessions.remove(session_id);
    }

    /// Takes the session under `session_id` out, to work on it.
    pub fn take_session(&mut self, session_id: u128) -> (r: Option<Session>)
        ensures
            final(self)@ == old(self)@.remove(session_id),
            match r {
                Some(s) => old(self)@.dom().contains(session_id) && s@ == old(self)@[session_id],
                None => !old(self)@.dom().contains(session_id),
            },
    {
        self.sessions.remove(session_id)
    }

    /// Puts a session back under its id.
    pub fn put_session(&mut self, session: Session)
        ensures
            final(self)@ == old(self)@.insert(session.id, session@),
    {
        let id = session.id;
        self.sessions.insert(id, session);
    }

    /// A listing entry for every session, in the order they were created.
    pub fn list_sessions(&self) -> (r: Vec<SessionSummary>)
        ensures
            r@.len() == self.members().len(),
            forall|i: int| 0 <= i < r@.len() ==> {
                let s = #[trigger] self.members()[i].1;
                &&& r@[i].id == s.id
                &&& r@[i].created_at_ms == s.created_at_ms
                &&& r@[i].user_count == s.users@.dom().len()
                &&& r@[i].users@.map_values(|u: User| u@) == s.users.members().map_values(
                    |m: (u128, UserInfo)| m.1@.user,
                )
            },
    {
        let n = self.sessions.len();
        let mut out: Vec<SessionSummary> = Vec::new();
        let mut i: usize = 0;
        while i < n
            invariant
                n == self.members().len(),
                i <= n,
                out@.len() == i,
                forall|k: int| 0 <= k < i ==> {
                    let s = #[trigger] self.members()[k].1;
                    &&& out@[k].id == s.id
                    &&& out@[k].created_at_ms == s.created_at_ms
                    &&& out@[k].user_count == s.users@.dom().len()
                    &&& out@[k].users@.map_values(|u: User| u@) == s.users.members().map_values(
                        |m: (u128, UserInfo)| m.1@.user,
                    )
                },
            decreases n - i,
        {
            let (_, s) = self.sessions.member_at(i);
            let summary = SessionSummary {
                id: s.id,
                created_at_ms: s.created_at_ms,
                user_count: s.users.len(),
                users: s.get_active_users(),
            };
            out.push(summary);
            i = i + 1;
        }
        out
    }

    /// The detail view of the session under `session_id`: its participants
    /// in the order they joined.
    pub fn get_session_info(&self, session_id: u128) -> (r: Option<SessionDetails>)
        ensures
            r is Some <==> self@.dom().contains(session_id),
            r matches Some(d) ==> exists|i: int|
                0 <= i < self.members().len() && (#[trigger] self.members()[i]).0 == session_id && {
                    let s = self.members()[i].1;
                    &&& d.id == s.id
                    &&& d.created_at_ms == s.created_at_ms
                    &&& d.user_count == s.users@.dom().len()
                    &&& d.users@.map_values(|u: UserInfo| u@) == s.users.members().map_values(
                        |m: (u128, UserInfo)| m.1@,
                    )
                },
    {
        let n = self.sessions.len();
        let mut i: usize = 0;
        while i < n
            invariant
                n == self.members().len(),
                i <= n,
                forall|k: int| 0 <= k < i ==> (#[trigger] self.members()[k]).0 != session_id,
            decreases n - i,
        {
            let (id, s) = self.sessions.member_at(i);
            if id == session_id {
                let _ = self.sessions.len();
                let count = s.users.len();
                let m = s.users.len();
                let ghost members = s.users.members();
                let mut users: Vec<UserInfo> = Vec::new();
                let mut j: usize = 0;
                while j < m
                    invariant
                        m == members.len(),
                        members == s.users.members(),
                        j <= m,
                        users@.map_values(|u: UserInfo| u@) == members.subrange(0, j as int).map_values(
                            |x: (u128, UserInfo)| x.1@,
                        ),
                    decreases m - j,
                {
                    let (_, info) = s.users.member_at(j);
                    let ghost before = users@.map_values(|u: UserInfo| u@);
                    users.push(info.duplicate());
                    assert(users@.map_values(|u: UserInfo| u@) =~= before.push(members[j as int].1@));
                    assert(users@.map_values(|u: UserInfo| u@) =~= members.subrange(0, j + 1).map_values(
                        |x: (u128, UserInfo)| x.1@,
                    ));
                    j = j + 1;
                }
                assert(members.subrange(0, m as int) =~= members);
                return Some(SessionDetails { id: s.id, created_at_ms: s.created_at_ms, user_count: count, users });
            }
            i = i + 1;
        }
        None
    }
}


/// What the server does after a client's message: the reply to that
/// client, and the message for every participant.
#[derive(Debug)]
pub struct SyncOutcome {
    pub reply: Option<SyncMessage>,
    pub broadcast: Option<SyncMessage>,
}

/// The value of an optional message.
pub open spec fn opt_msg(o: Option<SyncMessage>) -> Option<MessageV> {
    match o {
        Some(m) => Some(m@),
        None => None,
    }
}

/// The clock of a list of operations: for each author, how many
/// operations it wrote.
pub open spec fn clock_of(ops: Seq<OperationV>) -> Map<u128, u64>
    decreases ops.len(),
{
    if ops.len() == 0 {
        Map::empty()
    } else {
        let prev = clock_of(ops.drop_last());
        prev.insert(ops.last().user_id, (clock_get(prev, ops.last().user_id) + 1) as u64)
    }
}

/// No counter of the clock of `ops` exceeds the number of operations.
proof fn lemma_clock_of_bound(ops: Seq<OperationV>, u: u128)
    ensures
        clock_get(clock_of(ops), u) <= ops.len(),
    decreases ops.len(),
{
    if ops.len() > 0 {
        lemma_clock_of_bound(ops.drop_last(), u);
        lemma_clock_of_bound(ops.drop_last(), ops.last().user_id);
    }
}

/// The session after a client's message, and what is sent: an operation is
/// logged, acknowledged to its author and sent to everyone; a sync request
/// is answered with the operations the client has not seen and their
/// clock; a presence change is recorded and sent to everyone; a ping is
/// answered with a pong; anything else changes nothing.
pub open spec fn handle_spec(session: SessionV, user_id: u128, msg: MessageV, now_ms: i64) -> (SessionV, Option<MessageV>, Option<MessageV>) {
    match msg {
        MessageV::Operation { operation } => (
            SessionV { log: session.log.push(operation), ..session },
            Some(MessageV::OperationAck { operation_id: operation.id }),
            Some(MessageV::Operation { operation }),
        ),
        MessageV::SyncRequest { since } => (
            session,
            Some(MessageV::SyncResponse {
                operations: ops_since(session.log, since),
                vector_clock: clock_of(ops_since(session.log, since)),
            }),
            None,
        ),
        MessageV::Presence { update } => (
            SessionV {
                users: if session.users.dom().contains(user_id) {
                    session.users.insert(
                        user_id,
                        UserInfoV {
                            last_activity_ms: now_ms,
                            presence: presence_after(session.users[user_id].presence, update),
                            ..session.users[user_id]
                        },
                    )
                } else {
                    session.users
                },
                ..session
            },
            None,
            Some(MessageV::Presence { update }),
        ),
        MessageV::Ping => (session, Some(MessageV::Pong), None),
        _ => (session, None, None),
    }
}

/// The decision the server takes for a message from participant `user_id`.
pub fn decide_sync_message(session: &mut Session, user_id: u128, msg: SyncMessage, now_ms: i64) -> (r: SyncOutcome)
    ensures
        (final(session)@, opt_msg(r.reply), opt_msg(r.broadcast)) == handle_spec(old(session)@, user_id, msg@, now_ms),
{
    match msg {
        SyncMessage::Operation { operation } => {
            let operation_id = operation.id;
            let b = session.add_operation(operation);
            SyncOutcome { reply: Some(SyncMessage::OperationAck { operation_id }), broadcast: Some(b) }
        },
        SyncMessage::SyncRequest { since } => {
            let operations = session.get_operations_since(&since);
            let ghost ov = ops_view(operations@);
            let mut vector_clock = VectorClock::new();
            let mut i: usize = 0;
            assert(ov.subrange(0, 0) =~= Seq::<OperationV>::empty());
            while i < operations.len()
                invariant
                    ov == ops_view(operations@),
                    i <= operations@.len(),
                    vector_clock@ == clock_of(ov.subrange(0, i as int)),
                decreases operations@.len() - i,
            {
                proof {
                    assert(ov.subrange(0, i + 1).drop_last() =~= ov.subrange(0, i as int));
                    assert(ov[i as int] == operations@[i as int]@);
                    lemma_clock_of_bound(ov.subrange(0, i as int), operations@[i as int].user_id);
                }
                vector_clock.increment(operations[i].user_id);
                i = i + 1;
            }
            assert(ov.subrange(0, operations@.len() as int) =~= ov);
            SyncOutcome { reply: Some(SyncMessage::SyncResponse { operations, vector_clock }), broadcast: None }
        },
        SyncMessage::Presence { update } => {
            let b = session.update_presence(user_id, update, now_ms);
            SyncOutcome { reply: None, broadcast: Some(b) }
        },
        SyncMessage::Ping => SyncOutcome { reply: Some(SyncMessage::Pong), broadcast: None },
        _ => SyncOutcome { reply: None, broadcast: None },
    }
}

/// Whether a message sent to everyone goes to participant `user_id`: its
/// own operations are not sent back to it.
pub fn should_forward(msg: &SyncMessage, user_id: u128) -> (r: bool)
    ensures
        r == !(msg@ matches MessageV::Operation { operation } && operation.user_id == user_id),
{
    match msg {
        SyncMessage::Operation { operation } => operation.user_id != user_id,
        _ => true,
    }
}

/// What a new connection brings about: the message telling the others, and
/// the reply with the session's log.
#[derive(Debug)]
pub struct JoinOutcome {
    pub broadcast: SyncMessage,
    pub reply: SyncMessage,
}

/// A participant connects: it joins the session, the others are told, and
/// it is sent the whole log.
pub fn join_session(session: &mut Session, user_id: u128, user_name: String, now_ms: i64) -> (r: JoinOutcome)
    ensures
        final(session)@ == (SessionV {
            users: old(session)@.users.insert(
                user_id,
                UserInfoV {
                    user: UserV { id: user_id, name: user_name@ },
                    connected_at_ms: now_ms,
                    last_activity_ms: now_ms,
                    presence: fresh_presence(UserV { id: user_id, name: user_name@ }, old(session)@.id),
                },
            ),
            ..old(session)@
        }),
        r.broadcast@ == (MessageV::Presence {
            update: PresenceUpdateV::UserJoined { user: UserV { id: user_id, name: user_name@ } },
        }),
        r.reply@ == (MessageV::Connected { session_id: old(session)@.id, user_id, initial_state: old(session)@.log }),
{
    let user = User::new(user_id, user_name);
    let broadcast = session.add_user(user_id, user, now_ms);
    let initial_state = session.get_initial_state();
    JoinOutcome { broadcast, reply: SyncMessage::Connected { session_id: session.id, user_id, initial_state } }
}

} // verus!
