//! The connection registry and which connection is active.
//!
//! The app operates through exactly one active connection at a time; keys and
//! repository actions run against it. `connected_id == None` means every
//! connection is offline, and connection-bound actions must then be blocked.

use vstd::prelude::*;
use vstd::string::*;
use crate::api::ConnectionDto;
use crate::text::str_eq;

verus! {

/// Id of the built-in local connection.
pub const LOCAL_ID: &'static str = "local";

#[derive(Debug, Clone, Copy, PartialEq, Eq, Structural)]
pub enum ConnectionKind {
    Local,
    Remote,
}

#[derive(Debug, Clone, PartialEq, Eq)]
pub struct Connection {
    pub id: String,
    pub alias: String,
    pub kind: ConnectionKind,
    pub host: Option<String>,
    pub port: Option<u16>,
    pub username: Option<String>,
    pub auth_method: Option<String>,
    pub key_base_dir: String,
}

impl Connection {
    /// The built-in connection to this device.
    pub fn local() -> (c: Self)
        ensures
            c.id@ == "local"@,
            c.alias@ == "Local"@,
            c.kind == ConnectionKind::Local,
            c.host is None,
            c.port is None,
            c.username is None,
            c.auth_method is None,
            c.key_base_dir@.len() == 0,
    {
        Connection {
            id: String::from_str("local"),
            alias: String::from_str("Local"),
            kind: ConnectionKind::Local,
            host: None,
            port: None,
            username: None,
            auth_method: None,
            key_base_dir: String::new(),
        }
    }

    /// A connection from the host's record: the kind is `Remote` exactly when
    /// the record says `"remote"`, every other field is carried over.
    pub fn from_dto(dto: ConnectionDto) -> (c: Self)
        ensures
            c == connection_from_dto(dto),
    {
        let kind = if str_eq(dto.kind.as_str(), "remote") { ConnectionKind::Remote } else { ConnectionKind::Local };
        Connection {
            id: dto.id,
            alias: dto.alias,
            kind,
            host: dto.host,
            port: dto.port,
            username: dto.username,
            auth_method: dto.auth_method,
            key_base_dir: dto.key_base_dir,
        }
    }
}

/// The connection described by the host's record `dto`.
pub open spec fn connection_from_dto(dto: ConnectionDto) -> Connection {
    Connection {
        id: dto.id,
        alias: dto.alias,
        kind: if dto.kind@ == "remote"@ { ConnectionKind::Remote } else { ConnectionKind::Local },
        host: dto.host,
        port: dto.port,
        username: dto.username,
        auth_method: dto.auth_method,
        key_base_dir: dto.key_base_dir,
    }
}

/// The connections described by the host's records, in order.
pub fn connections_from_dtos(dtos: Vec<ConnectionDto>) -> (r: Vec<Connection>)
    ensures
        r@ == dtos@.map_values(|d: ConnectionDto| connection_from_dto(d)),
{
    let mut dtos = dtos;
    let ghost all = dtos@;
    let mut rev: Vec<Connection> = Vec::new();
    while dtos.len() > 0
        invariant
            dtos@ == all.take(dtos@.len() as int),
            forall|i: int| 0 <= i < rev@.len() ==> #[trigger] rev@[i] == connection_from_dto(all[all.len() - 1 - i]),
            rev@.len() + dtos@.len() == all.len(),
        decreases dtos@.len(),
    {
        let d = dtos.pop().unwrap();
        rev.push(Connection::from_dto(d));
        assert(all[all.len() - rev@.len()] == d);
    }
    let mut r: Vec<Connection> = Vec::new();
    while rev.len() > 0
        invariant
            rev@.len() + r@.len() == all.len(),
            forall|i: int| 0 <= i < rev@.len() ==> #[trigger] rev@[i] == connection_from_dto(all[all.len() - 1 - i]),
            forall|i: int| 0 <= i < r@.len() ==> #[trigger] r@[i] == connection_from_dto(all[i]),
        decreases rev@.len(),
    {
        let c = rev.pop().unwrap();
        r.push(c);
    }
    assert(r@ =~= all.map_values(|d: ConnectionDto| connection_from_dto(d)));
    r
}

/// Whether some connection in `cs` has id `id`.
pub open spec fn lists_id(cs: Seq<Connection>, id: Seq<char>) -> bool {
    exists|i: int| 0 <= i < cs.len() && #[trigger] cs[i].id@ == id
}

/// Whether `connected` names `id`.
pub open spec fn names(connected: Option<String>, id: Seq<char>) -> bool {
    connected is Some && connected->0@ == id
}

/// The connection registry plus which one is connected.
pub struct ConnectionState {
    pub connections: Vec<Connection>,
    pub connected_id: Option<String>,
}

impl ConnectionState {
    /// A single local connection, connected: the app starts operating on this
    /// device.
    pub fn initial() -> (s: Self)
        ensures
            s.connections@.len() == 1,
            s.connections@[0].id@ == "local"@,
            s.connections@[0].alias@ == "Local"@,
            s.connections@[0].kind == ConnectionKind::Local,
            s.connections@[0].host is None,
            s.connections@[0].port is None,
            s.connections@[0].username is None,
            s.connections@[0].auth_method is None,
            s.connections@[0].key_base_dir@.len() == 0,
            names(s.connected_id, "local"@),
    {
        let mut connections = Vec::new();
        connections.push(Connection::local());
        ConnectionState { connections, connected_id: Some(String::from_str(LOCAL_ID)) }
    }

    /// Make `id` the single connected connection.
    pub fn connect(&mut self, id: &str)
        ensures
            final(self).connections == old(self).connections,
            names(final(self).connected_id, id@),
    {
        self.connected_id = Some(String::from_str(id));
    }

    /// Take `id` offline if it is the connected one; no-op otherwise.
    pub fn disconnect(&mut self, id: &str)
        ensures
            final(self).connections == old(self).connections,
            names(old(self).connected_id, id@) ==> final(self).connected_id is None,
            !names(old(self).connected_id, id@) ==> final(self).connected_id == old(self).connected_id,
    {
        let matches = match &self.connected_id {
            Some(current) => str_eq(current.as_str(), id),
            None => false,
        };
        if matches {
            self.connected_id = None;
        }
    }

    /// Apply the persisted value loaded from the host: the empty string means
    /// offline, anything else is the connected id.
    pub fn apply_persisted(&mut self, value: String)
        ensures
            final(self).connections == old(self).connections,
            value@.len() == 0 ==> final(self).connected_id is None,
            value@.len() != 0 ==> final(self).connected_id == Some(value),
    {
        if value.as_str().is_empty() {
            self.connected_id = None;
        } else {
            self.connected_id = Some(value);
        }
    }

    /// Whether `id` is the connected connection.
    pub fn is_connected(&self, id: &str) -> (r: bool)
        ensures
            r == names(self.connected_id, id@),
    {
        match &self.connected_id {
            Some(current) => str_eq(current.as_str(), id),
            None => false,
        }
    }

    /// Whether any connection is connected.
    pub fn has_active(&self) -> (r: bool)
        ensures
            r == self.connected_id is Some,
    {
        self.connected_id.is_some()
    }

    /// Replace the registry; the connected id survives only while a listed
    /// connection still carries it.
    pub fn set_connections(&mut self, next: Vec<Connection>)
        ensures
            final(self).connections == next,
            old(self).connected_id is Some && lists_id(next@, old(self).connected_id->0@) ==> final(self).connected_id == old(self).connected_id,
            old(self).connected_id is Some && !lists_id(next@, old(self).connected_id->0@) ==> final(self).connected_id is None,
            old(self).connected_id is None ==> final(self).connected_id is None,
    {
        self.connections = next;
        let keep = match &self.connected_id {
            Some(active) => {
                let mut found = false;
                let mut i: usize = 0;
                while i < self.connections.len()
                    invariant
                        i <= self.connections@.len(),
                        found == exists|k: int| 0 <= k < i && #[trigger] self.connections@[k].id@ == active@,
                    decreases self.connections@.len() - i,
                {
                    if str_eq(self.connections[i].id.as_str(), active.as_str()) {
                        found = true;
                    }
                    i = i + 1;
                }
                found
            },
            None => true,
        };
        if !keep {
            self.connected_id = None;
        }
    }

    /// Whether the connected connection is listed and is a remote one (the
    /// first listed connection with that id decides).
    pub fn active_is_remote(&self) -> (r: bool)
        ensures
            r == (self.connected_id is Some && kind_of(self.connections@, self.connected_id->0@)
                == Some(ConnectionKind::Remote)),
    {
        match &self.connected_id {
            Some(active) => {
                assert(self.connected_id->0 == *active);
                let n = self.connections.len();
                let mut i: usize = 0;
                assert(self.connections@.subrange(0, n as int) =~= self.connections@);
                while i < n
                    invariant
                        n == self.connections@.len(),
                        self.connected_id->0 == *active,
                        self.connected_id is Some,
                        i <= n,
                        kind_of(self.connections@, active@) == kind_of(self.connections@.subrange(i as int, n as int), active@),
                    decreases n - i,
                {
                    let ghost rest = self.connections@.subrange(i as int, n as int);
                    assert(rest[0] == self.connections@[i as int]);
                    if str_eq(self.connections[i].id.as_str(), active.as_str()) {
                        assert(kind_of(rest, active@) == Some(rest[0].kind));
                        let k = self.connections[i].kind;
                        let r = match k {
                            ConnectionKind::Remote => true,
                            ConnectionKind::Local => false,
                        };
                        return r;
                    }
                    assert(rest.drop_first() =~= self.connections@.subrange(i as int + 1, n as int));
                    i = i + 1;
                }
                false
            },
            None => false,
        }
    }
}

/// The kind of the first connection in `cs` with id `id`.
pub open spec fn kind_of(cs: Seq<Connection>, id: Seq<char>) -> Option<ConnectionKind>
    decreases cs.len(),
{
    if cs.len() == 0 {
        None
    } else if cs[0].id@ == id {
        Some(cs[0].kind)
    } else {
        kind_of(cs.drop_first(), id)
    }
}


/// At most one connection is connected at a time: while `id` is the connected
/// one, every other id is offline.
pub proof fn law_single_active_connection(connected: Option<String>, id: Seq<char>, other: Seq<char>)
    requires
        names(connected, id),
        other != id,
    ensures
        !names(connected, other),
{
}

} // verus!
