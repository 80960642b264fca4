//! The Connect screen's rules: the search, type and status filters over the
//! connection registry, and what switching a row on or off does.

use vstd::prelude::*;
use vstd::string::*;
use crate::connection::{names, Connection, ConnectionKind, ConnectionState};
use crate::listing::{indices_where, lemma_indices_where_contains, lemma_indices_where_split};
use crate::text::{
    chars_of, contains_chars, has_infix, str_eq, string_of, to_lowercase, trim, trim_seq, unicode_lowercase,
};

verus! {

/// The code a connection kind has in the type filter.
pub open spec fn kind_code_of(kind: ConnectionKind) -> Seq<char> {
    match kind {
        ConnectionKind::Local => "local"@,
        ConnectionKind::Remote => "remote"@,
    }
}

/// The code a connection kind has in the type filter.
pub fn kind_code(kind: ConnectionKind) -> (r: &'static str)
    ensures
        r@ == kind_code_of(kind),
{
    match kind {
        ConnectionKind::Local => "local",
        ConnectionKind::Remote => "remote",
    }
}

/// The type filter's values with their label keys; empty means every type.
pub fn type_filter_choices() -> (r: Vec<(&'static str, &'static str)>)
    ensures
        r@.len() == 2,
        r@[0].0@ == ""@ && r@[0].1@ == "connect.filter_type_all"@,
        r@[1].0@ == "local"@ && r@[1].1@ == "connect.type_local"@,
{
    vec![("", "connect.filter_type_all"), ("local", "connect.type_local")]
}

/// The status filter's values with their label keys; empty means every status.
pub fn status_filter_choices() -> (r: Vec<(&'static str, &'static str)>)
    ensures
        r@.len() == 3,
        r@[0].0@ == ""@ && r@[0].1@ == "connect.filter_status_all"@,
        r@[1].0@ == "connected"@ && r@[1].1@ == "connect.status_connected"@,
        r@[2].0@ == "offline"@ && r@[2].1@ == "connect.status_offline"@,
{
    vec![
        ("", "connect.filter_status_all"),
        ("connected", "connect.status_connected"),
        ("offline", "connect.status_offline"),
    ]
}

/// The labels a row is searched by: its name and its type, as displayed.
pub struct ConnectionLabels {
    pub name: String,
    pub type_label: String,
}

/// Whether a connection is listed: the query `q` (already trimmed and
/// lower-cased) occurs in the lower-cased name or type label (an empty query
/// passes); the type filter is empty or the kind's code; the status filter is
/// empty, `connected` for the connected one, or `offline` for the others.
pub open spec fn connection_listed(
    c: Connection,
    labels: ConnectionLabels,
    connected: Option<String>,
    q: Seq<char>,
    type_filter: Seq<char>,
    status_filter: Seq<char>,
) -> bool {
    let is_connected = names(connected, c.id@);
    &&& (q.len() == 0 || has_infix(unicode_lowercase(labels.name@), q) || has_infix(
        unicode_lowercase(labels.type_label@),
        q,
    ))
    &&& (type_filter.len() == 0 || kind_code_of(c.kind) == type_filter)
    &&& (status_filter.len() == 0 || (status_filter == "connected"@ && is_connected) || (status_filter
        == "offline"@ && !is_connected))
}

/// The search text as it is matched: trimmed, then lower-cased.
pub open spec fn connection_query(query: Seq<char>) -> Seq<char> {
    unicode_lowercase(trim_seq(query))
}

/// Positions of the listed connections, in registry order. `labels[i]` holds
/// the displayed name and type of `state.connections[i]`.
pub fn filter_connections(
    state: &ConnectionState,
    labels: &[ConnectionLabels],
    query: &str,
    type_filter: &str,
    status_filter: &str,
) -> (r: Vec<usize>)
    requires
        labels@.len() == state.connections@.len(),
    ensures
        r@ == indices_where(
            state.connections@.len(),
            |i: int|
                connection_listed(
                    state.connections@[i],
                    labels@[i],
                    state.connected_id,
                    connection_query(query@),
                    type_filter@,
                    status_filter@,
                ),
        ),
{
    let trimmed = string_of(&trim(query));
    let q = chars_of(to_lowercase(trimmed.as_str()).as_str());
    let ghost keep = |i: int|
        connection_listed(
            state.connections@[i],
            labels@[i],
            state.connected_id,
            connection_query(query@),
            type_filter@,
            status_filter@,
        );
    let mut r: Vec<usize> = Vec::new();
    let mut i: usize = 0;
    while i < state.connections.len()
        invariant
            i <= state.connections@.len(),
            labels@.len() == state.connections@.len(),
            q@ == connection_query(query@),
            keep == (|i: int|
                connection_listed(
                    state.connections@[i],
                    labels@[i],
                    state.connected_id,
                    connection_query(query@),
                    type_filter@,
                    status_filter@,
                )),
            r@ == indices_where(i as nat, keep),
        decreases state.connections@.len() - i,
    {
        let c = &state.connections[i];
        let l = &labels[i];
        let query_ok = q.len() == 0 || contains_chars(&chars_of(to_lowercase(l.name.as_str()).as_str()), &q)
            || contains_chars(&chars_of(to_lowercase(l.type_label.as_str()).as_str()), &q);
        let type_ok = type_filter.is_empty() || str_eq(kind_code(c.kind), type_filter);
        let connected = state.is_connected(c.id.as_str());
        let status_ok = status_filter.is_empty() || (str_eq(status_filter, "connected") && connected) || (
        str_eq(status_filter, "offline") && !connected);
        if query_ok && type_ok && status_ok {
            r.push(i);
        }
        i = i + 1;
    }
    r
}

/// What a row's switch did.
#[derive(Debug, Clone, Copy, PartialEq, Eq, Structural)]
pub enum ConnectionSwitch {
    Connected,
    Disconnected,
}

/// The row's switch: take the connection offline when it is the connected
/// one, otherwise make it the single connected connection.
pub fn toggle_connection(state: &mut ConnectionState, id: &str) -> (r: ConnectionSwitch)
    ensures
        final(state).connections == old(state).connections,
        names(old(state).connected_id, id@) ==> r == ConnectionSwitch::Disconnected
            && final(state).connected_id is None,
        !names(old(state).connected_id, id@) ==> r == ConnectionSwitch::Connected
            && names(final(state).connected_id, id@),
{
    if state.is_connected(id) {
        state.disconnect(id);
        ConnectionSwitch::Disconnected
    } else {
        state.connect(id);
        ConnectionSwitch::Connected
    }
}

/// String-table key of the notice shown after the switch; its `{}` stands for
/// the connection's name.
pub fn switch_notice_key(s: ConnectionSwitch) -> (r: &'static str)
    ensures
        s == ConnectionSwitch::Connected ==> r@ == "connect.connect_success"@,
        s == ConnectionSwitch::Disconnected ==> r@ == "connect.disconnect_success"@,
{
    match s {
        ConnectionSwitch::Connected => "connect.connect_success",
        ConnectionSwitch::Disconnected => "connect.disconnect_success",
    }
}


/// The status filter splits the list: every row that the other filters keep
/// is listed under exactly one of "connected" and "offline", and a row is
/// listed under "connected" exactly when it is the connected one.
pub proof fn law_status_filter_partitions(
    c: Connection,
    labels: ConnectionLabels,
    connected: Option<String>,
    q: Seq<char>,
    type_filter: Seq<char>,
)
    ensures
        connection_listed(c, labels, connected, q, type_filter, ""@) <==> (connection_listed(
            c,
            labels,
            connected,
            q,
            type_filter,
            "connected"@,
        ) || connection_listed(c, labels, connected, q, type_filter, "offline"@)),
        !(connection_listed(c, labels, connected, q, type_filter, "connected"@) && connection_listed(
            c,
            labels,
            connected,
            q,
            type_filter,
            "offline"@,
        )),
        connection_listed(c, labels, connected, q, type_filter, "connected"@) ==> names(connected, c.id@),
        connection_listed(c, labels, connected, q, type_filter, "offline"@) ==> !names(connected, c.id@),
{
    reveal_strlit("");
    reveal_strlit("connected");
    reveal_strlit("offline");
    assert("connected"@ != "offline"@) by {
        assert("connected"@.len() != "offline"@.len());
    }
}

/// The rows the list shows under a status filter: positions of the
/// connections that pass the query, type and status filters, in registry
/// order (what `filter_connections` returns).
pub open spec fn listed_under(
    conns: Seq<Connection>,
    labels: Seq<ConnectionLabels>,
    connected: Option<String>,
    q: Seq<char>,
    type_filter: Seq<char>,
    status_filter: Seq<char>,
) -> Seq<usize> {
    indices_where(
        conns.len(),
        |i: int| connection_listed(conns[i], labels[i], connected, q, type_filter, status_filter),
    )
}

/// The "connected" list followed by the "offline" list holds exactly the rows
/// of the list without a status filter, each once: the two status filters
/// part the registry between them.
pub proof fn law_status_lists_split(
    conns: Seq<Connection>,
    labels: Seq<ConnectionLabels>,
    connected: Option<String>,
    q: Seq<char>,
    type_filter: Seq<char>,
)
    ensures
        (listed_under(conns, labels, connected, q, type_filter, "connected"@) + listed_under(
            conns,
            labels,
            connected,
            q,
            type_filter,
            "offline"@,
        )).to_multiset() =~= listed_under(conns, labels, connected, q, type_filter, ""@).to_multiset(),
{
    let keep = |i: int| connection_listed(conns[i], labels[i], connected, q, type_filter, ""@);
    let on = |i: int| connection_listed(conns[i], labels[i], connected, q, type_filter, "connected"@);
    let off = |i: int| connection_listed(conns[i], labels[i], connected, q, type_filter, "offline"@);
    assert forall|i: int| 0 <= i < conns.len() implies (#[trigger] keep(i) <==> (on(i) || off(i))) by {
        law_status_filter_partitions(conns[i], labels[i], connected, q, type_filter);
    }
    assert forall|i: int| 0 <= i < conns.len() implies !(#[trigger] on(i) && off(i)) by {
        law_status_filter_partitions(conns[i], labels[i], connected, q, type_filter);
    }
    lemma_indices_where_split(conns.len(), keep, on, off);
}

/// The search looks at a row's displayed name and type: for a non-empty
/// (lower-cased) query, a connection is listed exactly when the query occurs
/// in one of the two, lower-cased, and it is listed with no query. The type
/// filter "local" keeps exactly the listed local connections, "remote" the
/// remote ones.
pub proof fn law_connection_search_and_type(
    conns: Seq<Connection>,
    labels: Seq<ConnectionLabels>,
    connected: Option<String>,
    q: Seq<char>,
    type_filter: Seq<char>,
    status: Seq<char>,
    i: int,
)
    requires
        conns.len() <= usize::MAX,
        0 <= i < conns.len(),
    ensures
        q.len() > 0 ==> (listed_under(conns, labels, connected, q, type_filter, status).contains(i as usize) <==> ((
        has_infix(unicode_lowercase(labels[i].name@), q) || has_infix(unicode_lowercase(labels[i].type_label@), q))
            && listed_under(conns, labels, connected, Seq::empty(), type_filter, status).contains(i as usize))),
        listed_under(conns, labels, connected, q, "local"@, status).contains(i as usize) <==> (conns[i].kind
            == ConnectionKind::Local && listed_under(conns, labels, connected, q, Seq::empty(), status).contains(
            i as usize,
        )),
        listed_under(conns, labels, connected, q, "remote"@, status).contains(i as usize) <==> (conns[i].kind
            == ConnectionKind::Remote && listed_under(conns, labels, connected, q, Seq::empty(), status).contains(
            i as usize,
        )),
{
    reveal_strlit("local");
    reveal_strlit("remote");
    let n = conns.len();
    lemma_indices_where_contains(n, |j: int| connection_listed(conns[j], labels[j], connected, q, type_filter, status), i);
    lemma_indices_where_contains(n, |j: int| connection_listed(conns[j], labels[j], connected, Seq::empty(), type_filter, status), i);
    lemma_indices_where_contains(n, |j: int| connection_listed(conns[j], labels[j], connected, q, "local"@, status), i);
    lemma_indices_where_contains(n, |j: int| connection_listed(conns[j], labels[j], connected, q, "remote"@, status), i);
    lemma_indices_where_contains(n, |j: int| connection_listed(conns[j], labels[j], connected, q, Seq::empty(), status), i);
    assert("local"@ != "remote"@) by {
        assert("local"@.len() != "remote"@.len());
    }
}

} // verus!
