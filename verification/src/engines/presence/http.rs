//! The presence endpoints of the tenant API: one user's presence, the presence of a
//! stream's members, and the presence of a batch of users.
use vstd::prelude::*;
use vstd::string::*;
use crate::engines::presence::{BatchPresenceQuery, batch_ids};
use crate::http::openapi::{
    UserPresenceResponse, StreamPresenceMember, StreamPresenceResponse, BatchPresenceUser,
    BatchPresenceResponse,
};
use crate::presence::PresenceStatus;
use crate::registry::connection::{ConnectionRegistry, conn_set};
use crate::registry::presence::{PresenceTracker, resolution, user_key};
use crate::registry::stream::StreamRegistry;
use crate::text::copy_str;

verus! {

broadcast use vstd::string::group_string_axioms;

/// The presence of the user `u` of the tenant `t`, who has `count` connections, at
/// `now_ms`: status, until, last seen.
pub open spec fn presence_of(
    tracker: PresenceTracker,
    t: Seq<char>,
    u: Seq<char>,
    count: nat,
    now_ms: i64,
) -> (PresenceStatus, Option<Seq<char>>, Option<i64>) {
    resolution(tracker.overrides(), tracker.last_seen(), user_key(t, u), count, now_ms)
}

/// The number of connections of the user `u` of the tenant `t`.
pub open spec fn connections_of(c: ConnectionRegistry, t: Seq<char>, u: Seq<char>) -> nat {
    conn_set(c.user_conns(), (t, u)).len()
}

/// The answer to `GET /presence/{user_id}` at `now_ms`: the user's resolved status, their
/// number of connections, and when they were last seen (while offline).
pub fn user_presence(
    tracker: &PresenceTracker,
    connections: &mut ConnectionRegistry,
    tenant_id: &str,
    user_id: &str,
    now_ms: i64,
) -> (r: UserPresenceResponse)
    requires
        tracker.wf(),
        old(connections).wf(),
    ensures
        final(connections).wf(),
        final(connections).same_as(*old(connections)),
        r.user_id@ == user_id@,
        r.connections as nat == connections_of(*old(connections), tenant_id@, user_id@),
        r.status == presence_of(*tracker, tenant_id@, user_id@, r.connections as nat, now_ms).0,
        r.last_seen_at == presence_of(*tracker, tenant_id@, user_id@, r.connections as nat, now_ms).2,
{
    let count = connections.user_connection_count(tenant_id, user_id);
    let resolved = tracker.resolve_at(tenant_id, user_id, count, now_ms);
    UserPresenceResponse {
        user_id: copy_str(user_id),
        status: resolved.status,
        connections: count,
        last_seen_at: resolved.last_seen_at,
    }
}

/// The answer to `GET /streams/{id}/presence` at `now_ms`: each member of the stream once,
/// with their resolved status and when they were last seen (none for a stream that does
/// not exist).
pub fn stream_presence(
    streams: &mut StreamRegistry,
    tracker: &PresenceTracker,
    connections: &mut ConnectionRegistry,
    tenant_id: &str,
    stream_id: &str,
    now_ms: i64,
) -> (r: StreamPresenceResponse)
    requires
        old(streams).wf(),
        tracker.wf(),
        old(connections).wf(),
    ensures
        final(streams).wf(),
        final(streams).streams() == old(streams).streams(),
        final(connections).wf(),
        final(connections).same_as(*old(connections)),
        !old(streams).streams().contains_key((tenant_id@, stream_id@)) ==> r.members@.len() == 0,
        old(streams).streams().contains_key((tenant_id@, stream_id@)) ==> {
            let s = old(streams).streams()[(tenant_id@, stream_id@)];
            &&& forall|i: int|
                0 <= i < r.members@.len() ==> s.members_of().contains(#[trigger] r.members@[i].user_id@)
            &&& forall|u: Seq<char>| #[trigger]
                s.members_of().contains(u) ==> exists|i: int|
                    0 <= i < r.members@.len() && r.members@[i].user_id@ == u
            &&& forall|i: int, j: int|
                0 <= i < r.members@.len() && 0 <= j < r.members@.len() && i != j
                    ==> r.members@[i].user_id@ != r.members@[j].user_id@
        },
        forall|i: int|
            0 <= i < r.members@.len() ==> {
                let m = #[trigger] r.members@[i];
                let p = presence_of(
                    *tracker,
                    tenant_id@,
                    m.user_id@,
                    connections_of(*old(connections), tenant_id@, m.user_id@),
                    now_ms,
                );
                m.status == p.0 && m.last_seen_at == p.2
            },
{
    let ids = streams.get_members(tenant_id, stream_id);
    let mut members: Vec<StreamPresenceMember> = Vec::new();
    let mut i: usize = 0;
    while i < ids.len()
        invariant
            tracker.wf(),
            connections.wf(),
            connections.same_as(*old(connections)),
            i <= ids@.len(),
            members@.len() == i,
            forall|j: int| 0 <= j < i ==> #[trigger] members@[j].user_id@ == ids@[j]@,
            forall|j: int|
                0 <= j < i ==> {
                    let m = #[trigger] members@[j];
                    let p = presence_of(
                        *tracker,
                        tenant_id@,
                        m.user_id@,
                        connections_of(*old(connections), tenant_id@, m.user_id@),
                        now_ms,
                    );
                    m.status == p.0 && m.last_seen_at == p.2
                },
        decreases ids@.len() - i,
    {
        let uid = ids[i].as_str();
        let count = connections.user_connection_count(tenant_id, uid);
        let resolved = tracker.resolve_at(tenant_id, uid, count, now_ms);
        members.push(
            StreamPresenceMember {
                user_id: copy_str(uid),
                status: resolved.status,
                last_seen_at: resolved.last_seen_at,
            },
        );
        i += 1;
    }
    proof {
        if old(streams).streams().contains_key((tenant_id@, stream_id@)) {
            let s = old(streams).streams()[(tenant_id@, stream_id@)];
            assert forall|i: int| 0 <= i < members@.len() implies s.members_of().contains(
                #[trigger] members@[i].user_id@,
            ) by {
                assert(members@[i].user_id@ == ids@[i]@);
            }
            assert forall|u: Seq<char>| #[trigger] s.members_of().contains(u) implies exists|i: int|
                0 <= i < members@.len() && members@[i].user_id@ == u by {
                let j = choose|j: int| 0 <= j < ids@.len() && ids@[j]@ == u;
                assert(members@[j].user_id@ == ids@[j]@);
            }
            assert forall|i: int, j: int|
                0 <= i < members@.len() && 0 <= j < members@.len() && i != j implies members@[i].user_id@
                != members@[j].user_id@ by {
                assert(members@[i].user_id@ == ids@[i]@);
                assert(members@[j].user_id@ == ids@[j]@);
            }
        }
    }
    StreamPresenceResponse { members }
}

/// The answer to `GET /presence?user_ids=…` at `now_ms`: for each user id of the query
/// (the comma-separated pieces, trimmed, empty ones left out), in order, the user's
/// resolved status, number of connections, and when they were last seen.
pub fn batch_presence(
    tracker: &PresenceTracker,
    connections: &mut ConnectionRegistry,
    tenant_id: &str,
    query: &BatchPresenceQuery,
    now_ms: i64,
) -> (r: BatchPresenceResponse)
    requires
        tracker.wf(),
        old(connections).wf(),
    ensures
        final(connections).wf(),
        final(connections).same_as(*old(connections)),
        r.users@.len() == batch_ids(query.user_ids@).len(),
        forall|i: int|
            0 <= i < r.users@.len() ==> {
                let u = #[trigger] r.users@[i];
                let p = presence_of(*tracker, tenant_id@, u.user_id@, u.connections as nat, now_ms);
                &&& u.user_id@ == batch_ids(query.user_ids@)[i]
                &&& u.connections as nat == connections_of(*old(connections), tenant_id@, u.user_id@)
                &&& u.status == p.0
                &&& u.last_seen_at == p.2
            },
{
    let ids = query.ids();
    let ghost want = batch_ids(query.user_ids@);
    assert(ids@.len() == want.len()) by {
        assert(ids@.map_values(|s: String| s@).len() == ids@.len());
    }
    let mut users: Vec<BatchPresenceUser> = Vec::new();
    let mut i: usize = 0;
    while i < ids.len()
        invariant
            tracker.wf(),
            connections.wf(),
            connections.same_as(*old(connections)),
            ids@.map_values(|s: String| s@) == want,
            ids@.len() == want.len(),
            i <= ids@.len(),
            users@.len() == i,
            forall|j: int|
                0 <= j < i ==> {
                    let u = #[trigger] users@[j];
                    let p = presence_of(*tracker, tenant_id@, u.user_id@, u.connections as nat, now_ms);
                    &&& u.user_id@ == want[j]
                    &&& u.connections as nat == connections_of(*old(connections), tenant_id@, u.user_id@)
                    &&& u.status == p.0
                    &&& u.last_seen_at == p.2
                },
        decreases ids@.len() - i,
    {
        let uid = ids[i].as_str();
        assert(want[i as int] == ids@[i as int]@);
        let count = connections.user_connection_count(tenant_id, uid);
        let resolved = tracker.resolve_at(tenant_id, uid, count, now_ms);
        users.push(
            BatchPresenceUser {
                user_id: copy_str(uid),
                status: resolved.status,
                connections: count,
                last_seen_at: resolved.last_seen_at,
            },
        );
        i += 1;
    }
    BatchPresenceResponse { users }
}

} // verus!
