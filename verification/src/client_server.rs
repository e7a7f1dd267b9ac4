//! The registry of sessions: which names exist, which of them can still be
//! written to, and what is to be sent when one is added, written to or closed.

use vstd::prelude::*;
use vstd::string::*;
use crate::identity::identity;
use crate::payload::{MessageType, Payload};
use crate::presence::{arrival_text, Presence};

verus! {

/// Why an operation of the registry did not do what was asked.
#[derive(Debug, Clone, Copy, PartialEq, Eq, Structural)]
pub enum RegistryError {
    /// The name is already registered.
    DuplicateName,
    /// The connection could not be opened.
    ConnectionError,
    /// No session has this name.
    SessionNotFound,
    /// The message could not be delivered.
    SendFailure,
    /// The closing frame could not be delivered.
    CloseFailure,
}

/// The frame that closes a connection in good order.
#[derive(Debug)]
pub struct CloseNotice {
    pub code: u16,
    pub reason: String,
}

/// What the registry knows of one session.
pub struct ClientView {
    pub name: Seq<char>,
    pub created_at: u64,
    pub writable: bool,
}

/// One session: its name, when it was created, and whether its connection can
/// still be written to.
#[derive(Debug)]
pub struct Client {
    username: String,
    created_at: u64,
    writable: bool,
}

/// The sessions of one process, in the order in which they were added.
#[derive(Debug)]
pub struct ClientServer {
    clients: Vec<Client>,
}

/// The status code of a normal closure.
pub const NORMAL_CLOSURE: u16 = 1000;

/// No two sessions share a name.
pub open spec fn distinct_names(s: Seq<ClientView>) -> bool {
    forall|i: int, j: int|
        0 <= i < j < s.len() ==> (#[trigger] s[i]).name != (#[trigger] s[j]).name
}

/// Some session is called `name`.
pub open spec fn has_name(s: Seq<ClientView>, name: Seq<char>) -> bool {
    exists|i: int| 0 <= i < s.len() && (#[trigger] s[i]).name == name
}

/// Some session is called `name` and can be written to.
pub open spec fn has_writable(s: Seq<ClientView>, name: Seq<char>) -> bool {
    exists|i: int| 0 <= i < s.len() && (#[trigger] s[i]).name == name && s[i].writable
}

/// The sessions that a listing shows, in order: all of them, or only those
/// that can be written to.
pub open spec fn selected(s: Seq<ClientView>, writable_only: bool) -> Seq<ClientView>
    decreases s.len(),
{
    if s.len() == 0 {
        Seq::empty()
    } else if !writable_only || s.last().writable {
        selected(s.drop_last(), writable_only).push(s.last())
    } else {
        selected(s.drop_last(), writable_only)
    }
}

/// The names that a listing shows.
pub open spec fn listed(s: Seq<ClientView>, writable_only: bool) -> Seq<Seq<char>> {
    selected(s, writable_only).map_values(|c: ClientView| c.name)
}

/// The sessions after the one called `name` has been closed: it stays
/// registered and can no longer be written to.
pub open spec fn closed(s: Seq<ClientView>, name: Seq<char>) -> Seq<ClientView> {
    Seq::new(
        s.len(),
        |i: int|
            if s[i].name == name {
                ClientView { name: s[i].name, created_at: s[i].created_at, writable: false }
            } else {
                s[i]
            },
    )
}

/// The session that `add_client` registers.
pub open spec fn fresh(name: Seq<char>, now: u64) -> ClientView {
    ClientView { name, created_at: now, writable: true }
}

/// The sessions after `add_client` for `name` at `now`: one more where the
/// name was free and the connection was opened, the same otherwise.
pub open spec fn after_add(s: Seq<ClientView>, name: Seq<char>, now: u64, connected: bool) -> Seq<
    ClientView,
> {
    if has_name(s, name) || !connected {
        s
    } else {
        s.push(fresh(name, now))
    }
}

/// The address at which the session with the given identity connects.
pub open spec fn endpoint_text(origin: Seq<char>, id: Seq<char>) -> Seq<char> {
    origin + "/echo_channel/"@ + id
}

/// The contents of a vector of strings.
pub open spec fn texts(v: Seq<String>) -> Seq<Seq<char>> {
    v.map_values(|s: String| s@)
}

/// What a vector of borrowed sessions, each beside its name, shows.
pub open spec fn views(v: Seq<(&String, &Client)>) -> Seq<ClientView> {
    v.map_values(|p: (&String, &Client)| p.1@)
}

impl RegistryError {
    /// Whether the error is handed to the caller as the result of the
    /// operation. The others are only reported, and the registry goes on.
    pub fn is_surfaced(&self) -> (r: bool)
        ensures
            r == (*self == RegistryError::DuplicateName || *self
                == RegistryError::ConnectionError),
    {
        match self {
            RegistryError::DuplicateName => true,
            RegistryError::ConnectionError => true,
            _ => false,
        }
    }

    /// What it means for the caller that a message was, or was not, delivered.
    pub fn of_send(delivered: bool) -> (r: Result<(), RegistryError>)
        ensures
            delivered ==> r == Ok::<(), RegistryError>(()),
            !delivered ==> r == Err::<(), RegistryError>(RegistryError::SendFailure),
    {
        if delivered {
            Ok(())
        } else {
            Err(RegistryError::SendFailure)
        }
    }

    /// What it means for the caller that a closing frame was, or was not,
    /// delivered.
    pub fn of_close(delivered: bool) -> (r: Result<(), RegistryError>)
        ensures
            delivered ==> r == Ok::<(), RegistryError>(()),
            !delivered ==> r == Err::<(), RegistryError>(RegistryError::CloseFailure),
    {
        if delivered {
            Ok(())
        } else {
            Err(RegistryError::CloseFailure)
        }
    }
}

impl View for Client {
    type V = ClientView;

    closed spec fn view(&self) -> ClientView {
        ClientView {
            name: self.username@,
            created_at: self.created_at,
            writable: self.writable,
        }
    }
}

impl View for ClientServer {
    type V = Seq<ClientView>;

    closed spec fn view(&self) -> Seq<ClientView> {
        Seq::new(self.clients@.len(), |i: int| self.clients@[i]@)
    }
}

impl ClientServer {
    /// The invariant of the registry: no two sessions share a name.
    pub open spec fn wf(&self) -> bool {
        distinct_names(self@)
    }

    /// A registry without sessions.
    pub fn new() -> (r: ClientServer)
        ensures
            r@ == Seq::<ClientView>::empty(),
            r.wf(),
    {
        let r = ClientServer { clients: Vec::new() };
        assert(r@ =~= Seq::<ClientView>::empty());
        r
    }

    /// Where the session called `user_id` stands, if there is one.
    fn position(&self, user_id: &str) -> (r: Option<usize>)
        ensures
            match r {
                Some(i) => i < self@.len() && self@[i as int].name == user_id@,
                None => !has_name(self@, user_id@),
            },
    {
        let wanted: String = user_id.to_owned();
        let mut i: usize = 0;
        while i < self.clients.len()
            invariant
                i <= self.clients.len(),
                wanted@ == user_id@,
                forall|j: int| 0 <= j < i ==> (#[trigger] self@[j]).name != user_id@,
            decreases self.clients.len() - i,
        {
            if self.clients[i].username == wanted {
                return Some(i);
            }
            i = i + 1;
        }
        None
    }

    /// Turns the session at `i` into one that cannot be written to.
    fn mark_closed(&mut self, i: usize)
        requires
            old(self).wf(),
            i < old(self)@.len(),
        ensures
            final(self).wf(),
            final(self)@ == closed(old(self)@, old(self)@[i as int].name),
    {
        let username = self.clients[i].username.clone();
        let created_at = self.clients[i].created_at;
        self.clients.set(i, Client { username, created_at, writable: false });
        proof {
            let before = old(self)@;
            let after = closed(before, before[i as int].name);
            assert forall|j: int| 0 <= j < before.len() implies self@[j] == after[j] by {
                if j != i {
                    assert(before[j].name != before[i as int].name);
                }
            }
            assert(self@ =~= after);
        }
    }
}

impl Client {
    /// The name under which the session is registered.
    pub fn username(&self) -> (r: &String)
        ensures
            r@ == self@.name,
    {
        &self.username
    }

    /// When the session was created, in seconds since the epoch.
    pub fn created_at(&self) -> (r: u64)
        ensures
            r == self@.created_at,
    {
        self.created_at
    }

    /// Whether the session's connection can still be written to.
    pub fn can_write(&self) -> (r: bool)
        ensures
            r == self@.writable,
    {
        self.writable
    }

    /// The identity of the session, as it is shown and as it stands in the
    /// address of its connection.
    pub fn socket_id(&self) -> (r: String)
        ensures
            r@ == identity(self@.name, self@.created_at),
            r@.len() == 64,
    {
        crate::identity::derive(self.username.as_str(), self.created_at)
    }
}

impl ClientServer {
    /// The sessions that can be written to, each beside its name, in the
    /// order in which they were added.
    pub fn get_clients(&self) -> (r: Vec<(&String, &Client)>)
        ensures
            views(r@) == selected(self@, true),
            forall|i: int| 0 <= i < r@.len() ==> (#[trigger] r@[i]).0@ == r@[i].1@.name,
    {
        let mut out: Vec<(&String, &Client)> = Vec::new();
        let mut i: usize = 0;
        while i < self.clients.len()
            invariant
                i <= self.clients.len(),
                views(out@) == selected(self@.take(i as int), true),
                forall|k: int| 0 <= k < out@.len() ==> (#[trigger] out@[k]).0@ == out@[k].1@.name,
            decreases self.clients.len() - i,
        {
            let ghost shown = views(out@);
            let client = &self.clients[i];
            if client.writable {
                out.push((&client.username, client));
            }
            proof {
                let next = self@.take(i as int + 1);
                assert(next.drop_last() =~= self@.take(i as int));
                assert(next.last() == client@);
                if client.writable {
                    assert(views(out@) =~= shown.push(client@));
                }
            }
            i = i + 1;
        }
        assert(self@.take(i as int) =~= self@);
        out
    }

    /// The names of the sessions, in the order in which they were added: of
    /// those that can be written to if `writable` is set, of all of them if
    /// it is not.
    pub fn list_user_ids(&self, writable: bool) -> (r: Vec<String>)
        ensures
            texts(r@) == listed(self@, writable),
    {
        let mut out: Vec<String> = Vec::new();
        let mut i: usize = 0;
        while i < self.clients.len()
            invariant
                i <= self.clients.len(),
                texts(out@) == listed(self@.take(i as int), writable),
            decreases self.clients.len() - i,
        {
            let ghost shown = texts(out@);
            let client = &self.clients[i];
            let take_it = !writable || client.writable;
            if take_it {
                out.push(client.username.clone());
            }
            proof {
                let before = self@.take(i as int);
                let next = self@.take(i as int + 1);
                assert(next.drop_last() =~= before);
                assert(next.last() == client@);
                if take_it {
                    assert(texts(out@) =~= shown.push(client@.name));
                    assert(listed(next, writable) =~= listed(before, writable).push(
                        client@.name,
                    ));
                }
            }
            i = i + 1;
        }
        assert(self@.take(i as int) =~= self@);
        out
    }

    /// The address at which a new session called `user_id`, created at `now`,
    /// is to connect, below `origin` (scheme, host and port). A name that is
    /// already registered gets none, so that no connection is opened for it.
    pub fn plan_connection(&self, origin: &str, user_id: &str, now: u64) -> (r: Result<
        String,
        RegistryError,
    >)
        ensures
            has_name(self@, user_id@) ==> r == Err::<String, RegistryError>(
                RegistryError::DuplicateName,
            ),
            !has_name(self@, user_id@) ==> r is Ok && r->Ok_0@ == endpoint_text(
                origin@,
                identity(user_id@, now),
            ),
    {
        match self.position(user_id) {
            Some(_) => Err(RegistryError::DuplicateName),
            None => {
                let id = crate::identity::derive(user_id, now);
                let mut out = origin.to_owned();
                out.append("/echo_channel/");
                out.append(id.as_str());
                Ok(out)
            },
        }
    }

    /// Registers the session `user_id`, created at `now`, once its connection
    /// has been tried: `connected` says whether it was opened. On success the
    /// result is the announcement that is to be sent over the new connection
    /// at once.
    pub fn add_client(&mut self, user_id: &str, now: u64, connected: bool) -> (r: Result<
        Payload,
        RegistryError,
    >)
        requires
            old(self).wf(),
        ensures
            final(self).wf(),
            final(self)@ == after_add(old(self)@, user_id@, now, connected),
            has_name(old(self)@, user_id@) ==> r is Err && r->Err_0
                == RegistryError::DuplicateName && final(self)@ == old(self)@,
            !has_name(old(self)@, user_id@) && !connected ==> r is Err && r->Err_0
                == RegistryError::ConnectionError && final(self)@ == old(self)@,
            !has_name(old(self)@, user_id@) && connected ==> r is Ok && final(self)@ == old(
                self,
            )@.push(fresh(user_id@, now)) && r->Ok_0.from@ == user_id@ && r->Ok_0.kind
                == MessageType::System && r->Ok_0.text@ == arrival_text(user_id@)
                && r->Ok_0.timestamp == now,
            r is Ok ==> has_writable(final(self)@, user_id@),
    {
        match self.position(user_id) {
            Some(_) => Err(RegistryError::DuplicateName),
            None => {
                if !connected {
                    return Err(RegistryError::ConnectionError);
                }
                self.clients.push(
                    Client { username: user_id.to_owned(), created_at: now, writable: true },
                );
                let arrival = Presence { user_id: user_id.to_owned(), timestamp: now };
                proof {
                    let after = old(self)@.push(fresh(user_id@, now));
                    assert(self@ =~= after);
                    assert(after[after.len() - 1].name == user_id@);
                }
                Ok(arrival.announcement())
            },
        }
    }

    /// The session called `user_id`, if there is one.
    pub fn get_client(&self, user_id: &str) -> (r: Option<&Client>)
        ensures
            has_name(self@, user_id@) <==> r is Some,
            r is Some ==> r->Some_0@.name == user_id@ && self@.contains(r->Some_0@),
    {
        match self.position(user_id) {
            Some(i) => {
                assert(self@[i as int] == self.clients@[i as int]@);
                Some(&self.clients[i])
            },
            None => None,
        }
    }

    /// Records that the connection of `user_id` has ended without a call of
    /// `close_client`. Says whether there is such a session.
    pub fn connection_lost(&mut self, user_id: &str) -> (r: bool)
        requires
            old(self).wf(),
        ensures
            final(self).wf(),
            r == has_name(old(self)@, user_id@),
            final(self)@ == closed(old(self)@, user_id@),
    {
        match self.position(user_id) {
            Some(i) => {
                self.mark_closed(i);
                true
            },
            None => {
                assert(self@ =~= closed(self@, user_id@));
                false
            },
        }
    }

    /// Closes the session called `user_id`: it stays registered and can no
    /// longer be written to. The result is the frame that is to be sent to
    /// end its connection. Without such a session nothing changes.
    pub fn close_client(&mut self, user_id: &str) -> (r: Result<CloseNotice, RegistryError>)
        requires
            old(self).wf(),
        ensures
            final(self).wf(),
            !has_name(old(self)@, user_id@) ==> r is Err && r->Err_0
                == RegistryError::SessionNotFound && final(self)@ == old(self)@,
            has_name(old(self)@, user_id@) ==> r is Ok && r->Ok_0.code == NORMAL_CLOSURE
                && r->Ok_0.reason@ == "Client disconnected"@ && final(self)@ == closed(
                old(self)@,
                user_id@,
            ),
    {
        match self.position(user_id) {
            Some(i) => {
                self.mark_closed(i);
                Ok(CloseNotice { code: NORMAL_CLOSURE, reason: "Client disconnected".to_owned() })
            },
            None => Err(RegistryError::SessionNotFound),
        }
    }

    /// The text that is to be sent to the session called `user_id` for
    /// `payload`. The registry itself does not change.
    pub fn write(&mut self, user_id: &str, payload: &Payload) -> (r: Result<
        String,
        RegistryError,
    >)
        requires
            old(self).wf(),
        ensures
            final(self).wf(),
            final(self)@ == old(self)@,
            !has_name(old(self)@, user_id@) ==> r == Err::<String, RegistryError>(
                RegistryError::SessionNotFound,
            ),
            has_name(old(self)@, user_id@) && !has_writable(old(self)@, user_id@) ==> r
                == Err::<String, RegistryError>(RegistryError::SendFailure),
            has_writable(old(self)@, user_id@) ==> r is Ok && r->Ok_0@ == payload.wire_text(),
    {
        match self.position(user_id) {
            Some(i) => {
                if self.clients[i].writable {
                    assert(self@[i as int].writable);
                    Ok(payload.to_message())
                } else {
                    assert forall|j: int|
                        0 <= j < self@.len() && (#[trigger] self@[j]).name
                            == user_id@ implies !self@[j].writable by {
                        if j != i {
                            assert(self@[j].name != self@[i as int].name);
                        }
                    }
                    Err(RegistryError::SendFailure)
                }
            },
            None => Err(RegistryError::SessionNotFound),
        }
    }
}

/// A name that was added is taken: adding it once more, at whatever time,
/// leaves every session as it was, the first one's creation time included.
pub proof fn second_add_changes_nothing(
    s: Seq<ClientView>,
    name: Seq<char>,
    t1: u64,
    t2: u64,
    connected: bool,
)
    ensures
        has_name(after_add(s, name, t1, true), name),
        after_add(after_add(s, name, t1, true), name, t2, connected) == after_add(
            s,
            name,
            t1,
            true,
        ),
{
    let first = after_add(s, name, t1, true);
    if !has_name(s, name) {
        assert(first[first.len() - 1].name == name);
    }
}

/// Adding keeps the names distinct.
pub proof fn add_keeps_names_distinct(s: Seq<ClientView>, name: Seq<char>, now: u64, connected: bool)
    requires
        distinct_names(s),
    ensures
        distinct_names(after_add(s, name, now, connected)),
{
    let after = after_add(s, name, now, connected);
    assert forall|i: int, j: int| 0 <= i < j < after.len() implies (#[trigger] after[i]).name != (
    #[trigger] after[j]).name by {
        if j == s.len() {
            assert(s[i].name != name);
        }
    }
}

/// Closing keeps every session registered, under its name and creation time.
pub proof fn close_keeps_sessions(s: Seq<ClientView>, name: Seq<char>)
    ensures
        closed(s, name).len() == s.len(),
        listed(closed(s, name), false) == listed(s, false),
        distinct_names(s) ==> distinct_names(closed(s, name)),
    decreases s.len(),
{
    if s.len() > 0 {
        close_keeps_sessions(s.drop_last(), name);
        let after = closed(s, name);
        assert(after.drop_last() =~= closed(s.drop_last(), name));
        assert(after.last().name == s.last().name);
        assert(listed(after, false) =~= listed(after.drop_last(), false).push(s.last().name));
        assert(listed(s, false) =~= listed(s.drop_last(), false).push(s.last().name));
    } else {
        assert(listed(closed(s, name), false) =~= listed(s, false));
    }
}

/// After a session has been closed, the listing of the writable sessions does
/// not show its name.
pub proof fn closed_session_is_not_listed(s: Seq<ClientView>, name: Seq<char>)
    ensures
        !listed(closed(s, name), true).contains(name),
        !has_writable(closed(s, name), name),
    decreases s.len(),
{
    let after = closed(s, name);
    if s.len() > 0 {
        closed_session_is_not_listed(s.drop_last(), name);
        assert(after.drop_last() =~= closed(s.drop_last(), name));
        let rest = listed(after.drop_last(), true);
        if after.last().writable {
            assert(after.last().name != name);
            assert(listed(after, true) =~= rest.push(after.last().name));
            if listed(after, true).contains(name) {
                let k = choose|k: int|
                    0 <= k < listed(after, true).len() && listed(after, true)[k] == name;
                assert(rest[k] == name);
                assert(rest.contains(name));
            }
        } else {
            assert(listed(after, true) =~= rest);
        }
    }
}

/// Closing a name that is not registered changes nothing.
pub proof fn closing_unknown_name_changes_nothing(s: Seq<ClientView>, name: Seq<char>)
    requires
        !has_name(s, name),
    ensures
        closed(s, name) == s,
{
    assert(closed(s, name) =~= s);
}

} // verus!
