//! The relay's shared table of rooms.
//!
//! The registry decides who is told what; it never sends anything itself. Each
//! operation changes the table and hands back the messages that the change
//! calls for, each addressed to a connection.

use crate::message::{chat_capable, supports_chat, MessageView, WsMessage};
use crate::room::{
    chat_notices, deliveries_view, has_member, member_ids, member_index, members_distinct,
    members_view, party_notices, resume_schedule, seek_notices, BatchView, Delivery, DeliveryView,
    Member, MemberView, ResumeBatch, Room, RoomView, ScheduledResume,
};
use vstd::prelude::*;

verus! {

/// The rooms that currently have members, and the token of the next batch.
pub struct Registry {
    rooms: Vec<Room>,
    next_batch: u64,
}

/// The mathematical content of a [`Registry`].
pub struct RegistryView {
    pub rooms: Seq<RoomView>,
    pub next_batch: u64,
}

/// The contents of a list of rooms, in order.
pub open spec fn rooms_view(v: Seq<Room>) -> Seq<RoomView> {
    v.map_values(|r: Room| r@)
}

impl View for Registry {
    type V = RegistryView;

    closed spec fn view(&self) -> RegistryView {
        RegistryView { rooms: rooms_view(self.rooms@), next_batch: self.next_batch }
    }
}

/// Whether a room named `id` exists.
pub open spec fn has_room(rooms: Seq<RoomView>, id: Seq<char>) -> bool {
    exists|i: int| 0 <= i < rooms.len() && (#[trigger] rooms[i]).id == id
}

/// The place of the room named `id`, where it exists.
pub open spec fn room_index(rooms: Seq<RoomView>, id: Seq<char>) -> int {
    choose|i: int| 0 <= i < rooms.len() && (#[trigger] rooms[i]).id == id
}

/// Whether connection `conn` is a member of some room.
pub open spec fn is_connected(rooms: Seq<RoomView>, conn: u64) -> bool {
    exists|i: int| 0 <= i < rooms.len() && has_member((#[trigger] rooms[i]).members, conn)
}

/// The place of the room that connection `conn` is a member of, where it is one.
pub open spec fn room_of(rooms: Seq<RoomView>, conn: u64) -> int {
    choose|i: int| 0 <= i < rooms.len() && has_member((#[trigger] rooms[i]).members, conn)
}

/// What holds of every room in the table: it has a name and at least one
/// member, and a pending batch was issued by this registry, still has sends
/// outstanding and names no connection twice.
pub open spec fn room_well_formed(room: RoomView, next_batch: u64) -> bool {
    &&& room.id.len() > 0
    &&& room.members.len() > 0
    &&& room.pending matches Some(b) ==> {
        &&& b.id < next_batch
        &&& b.outstanding.len() > 0
        &&& b.outstanding.no_duplicates()
    }
}

/// What holds of the table as a whole: no two rooms share a name, every room is
/// well formed, and no connection is a member twice, in one room or in two.
pub open spec fn well_formed(r: RegistryView) -> bool {
    &&& forall|i: int, k: int|
        0 <= i < r.rooms.len() && 0 <= k < r.rooms.len() && (#[trigger] r.rooms[i]).id == (
        #[trigger] r.rooms[k]).id ==> i == k
    &&& forall|i: int| 0 <= i < r.rooms.len() ==> room_well_formed(#[trigger] r.rooms[i], r.next_batch)
    &&& forall|i: int, j: int, k: int, l: int|
        0 <= i < r.rooms.len() && 0 <= j < r.rooms[i].members.len() && 0 <= k < r.rooms.len() && 0
            <= l < r.rooms[k].members.len() && (#[trigger] r.rooms[i].members[j]).id == (
        #[trigger] r.rooms[k].members[l]).id ==> i == k && j == l
}

/// The table after member `j` of room `i` has left. A room that loses its last
/// member goes with it, and so does its pending batch.
pub open spec fn departed(rooms: Seq<RoomView>, i: int, j: int) -> Seq<RoomView> {
    if rooms[i].members.len() <= 1 {
        rooms.remove(i)
    } else {
        rooms.update(
            i,
            RoomView { id: rooms[i].id, members: rooms[i].members.remove(j), pending: rooms[i].pending },
        )
    }
}

/// What the members who stay are told when member `j` of room `i` leaves.
pub open spec fn departure_notices(rooms: Seq<RoomView>, i: int, j: int) -> Seq<DeliveryView> {
    if rooms[i].members.len() <= 1 {
        Seq::empty()
    } else {
        party_notices(rooms[i].members.remove(j))
    }
}

/// The table after `m` has entered the room named `id`, which is created where
/// it did not exist.
pub open spec fn entered(rooms: Seq<RoomView>, id: Seq<char>, m: MemberView) -> Seq<RoomView> {
    if has_room(rooms, id) {
        let i = room_index(rooms, id);
        rooms.update(
            i,
            RoomView { id: rooms[i].id, members: rooms[i].members.push(m), pending: rooms[i].pending },
        )
    } else {
        rooms.push(RoomView { id, members: seq![m], pending: None })
    }
}

/// What the members of the room named `id` are told when `m` enters it: the
/// new count, to each of them and to `m`.
pub open spec fn entry_notices(rooms: Seq<RoomView>, id: Seq<char>, m: MemberView) -> Seq<
    DeliveryView,
> {
    if has_room(rooms, id) {
        party_notices(rooms[room_index(rooms, id)].members.push(m))
    } else {
        party_notices(seq![m])
    }
}

/// The table after connection `conn` has left whatever room it was in.
pub open spec fn vacated(rooms: Seq<RoomView>, conn: u64) -> Seq<RoomView> {
    if is_connected(rooms, conn) {
        let i = room_of(rooms, conn);
        departed(rooms, i, member_index(rooms[i].members, conn))
    } else {
        rooms
    }
}

/// What is sent when connection `conn` leaves whatever room it was in.
pub open spec fn vacate_notices(rooms: Seq<RoomView>, conn: u64) -> Seq<DeliveryView> {
    if is_connected(rooms, conn) {
        let i = room_of(rooms, conn);
        departure_notices(rooms, i, member_index(rooms[i].members, conn))
    } else {
        Seq::empty()
    }
}

/// The record of connection `conn`, where it is a member of a room.
pub open spec fn member_of(rooms: Seq<RoomView>, conn: u64) -> MemberView {
    let i = room_of(rooms, conn);
    rooms[i].members[member_index(rooms[i].members, conn)]
}

/// The record under which `m`'s connection joins a room: the one it already
/// has in the table, so that its latency estimate is kept, or else `m`.
pub open spec fn record_of(rooms: Seq<RoomView>, m: MemberView) -> MemberView {
    if is_connected(rooms, m.id) {
        member_of(rooms, m.id)
    } else {
        m
    }
}

/// The table after `m`'s connection has joined the room named `id`: it leaves
/// the room it was in, if any, and enters `id` unless that name is empty.
pub open spec fn joined(rooms: Seq<RoomView>, m: MemberView, id: Seq<char>) -> Seq<RoomView> {
    if id.len() == 0 {
        vacated(rooms, m.id)
    } else {
        entered(vacated(rooms, m.id), id, record_of(rooms, m))
    }
}

/// What is sent when `m`'s connection joins the room named `id`: first the
/// notices of its departure, then those of its entry.
pub open spec fn join_notices(rooms: Seq<RoomView>, m: MemberView, id: Seq<char>) -> Seq<
    DeliveryView,
> {
    if id.len() == 0 {
        vacate_notices(rooms, m.id)
    } else {
        vacate_notices(rooms, m.id) + entry_notices(vacated(rooms, m.id), id, record_of(rooms, m))
    }
}

/// Whether connection `conn` is a member of the room named `id`.
pub open spec fn is_member_of(rooms: Seq<RoomView>, id: Seq<char>, conn: u64) -> bool {
    has_room(rooms, id) && has_member(rooms[room_index(rooms, id)].members, conn)
}

/// The table after connection `conn` has left the room named `id`. Nothing
/// changes where it was not a member of that room.
pub open spec fn left(rooms: Seq<RoomView>, conn: u64, id: Seq<char>) -> Seq<RoomView> {
    if is_member_of(rooms, id, conn) {
        let i = room_index(rooms, id);
        departed(rooms, i, member_index(rooms[i].members, conn))
    } else {
        rooms
    }
}

/// What is sent when connection `conn` leaves the room named `id`.
pub open spec fn leave_notices(rooms: Seq<RoomView>, conn: u64, id: Seq<char>) -> Seq<
    DeliveryView,
> {
    if is_member_of(rooms, id, conn) {
        let i = room_index(rooms, id);
        departure_notices(rooms, i, member_index(rooms[i].members, conn))
    } else {
        Seq::empty()
    }
}

/// The table after a seek in the room named `id`: the room's pending batch,
/// if it had one, is gone.
pub open spec fn sought(rooms: Seq<RoomView>, id: Seq<char>) -> Seq<RoomView> {
    if has_room(rooms, id) {
        let i = room_index(rooms, id);
        rooms.update(i, RoomView { id: rooms[i].id, members: rooms[i].members, pending: None })
    } else {
        rooms
    }
}

/// What is sent when connection `excluding` seeks to `time` in the room named
/// `id`: the seek, to every other member.
pub open spec fn seek_deliveries(
    rooms: Seq<RoomView>,
    id: Seq<char>,
    time: i64,
    excluding: u64,
) -> Seq<DeliveryView> {
    if has_room(rooms, id) {
        seek_notices(rooms[room_index(rooms, id)].members, time, excluding)
    } else {
        Seq::empty()
    }
}

/// The token of the batch that is pending in the room named `id`.
pub open spec fn pending_batch(rooms: Seq<RoomView>, id: Seq<char>) -> Option<u64> {
    if has_room(rooms, id) {
        match rooms[room_index(rooms, id)].pending {
            Some(b) => Some(b.id),
            None => None,
        }
    } else {
        None
    }
}

/// Whether a resume request for the room named `id` starts a batch: the room
/// exists, no batch is pending in it, and a token is left to name the new one.
pub open spec fn can_schedule(r: RegistryView, id: Seq<char>) -> bool {
    &&& has_room(r.rooms, id)
    &&& r.rooms[room_index(r.rooms, id)].pending is None
    &&& r.next_batch < u64::MAX
}

/// The table after a resume request for the room named `id`.
pub open spec fn resume_requested(r: RegistryView, id: Seq<char>) -> RegistryView {
    if can_schedule(r, id) {
        let i = room_index(r.rooms, id);
        RegistryView {
            rooms: r.rooms.update(
                i,
                RoomView {
                    id: r.rooms[i].id,
                    members: r.rooms[i].members,
                    pending: Some(
                        BatchView { id: r.next_batch, outstanding: member_ids(r.rooms[i].members) },
                    ),
                },
            ),
            next_batch: (r.next_batch + 1) as u64,
        }
    } else {
        r
    }
}

/// The delayed sends that a resume request for the room named `id` starts.
pub open spec fn resume_sends(r: RegistryView, id: Seq<char>) -> Seq<ScheduledResume> {
    if can_schedule(r, id) {
        resume_schedule(r.rooms[room_index(r.rooms, id)].members, r.next_batch)
    } else {
        Seq::empty()
    }
}

/// Whether the delayed send of batch `batch` to connection `conn` in the room
/// named `id` is still wanted: the batch is the one pending there and the send
/// has not fired before.
pub open spec fn is_due(rooms: Seq<RoomView>, id: Seq<char>, batch: u64, conn: u64) -> bool {
    &&& has_room(rooms, id)
    &&& rooms[room_index(rooms, id)].pending matches Some(b)
    &&& b.id == batch
    &&& b.outstanding.contains(conn)
}

/// The table after the delayed send of batch `batch` to connection `conn` has
/// fired. The batch ends with its last send.
pub open spec fn resume_fired(rooms: Seq<RoomView>, id: Seq<char>, batch: u64, conn: u64) -> Seq<
    RoomView,
> {
    if is_due(rooms, id, batch, conn) {
        let i = room_index(rooms, id);
        let b = rooms[i].pending->0;
        let rest = b.outstanding.remove(b.outstanding.index_of(conn));
        rooms.update(
            i,
            RoomView {
                id: rooms[i].id,
                members: rooms[i].members,
                pending: if rest.len() == 0 {
                    None
                } else {
                    Some(BatchView { id: b.id, outstanding: rest })
                },
            },
        )
    } else {
        rooms
    }
}

/// What the firing of a delayed send delivers: a `Resume`, if the send is still
/// wanted and its connection is still a member of the room.
pub open spec fn resume_delivery(rooms: Seq<RoomView>, id: Seq<char>, batch: u64, conn: u64) -> Option<
    DeliveryView,
> {
    if is_due(rooms, id, batch, conn) && has_member(rooms[room_index(rooms, id)].members, conn) {
        Some(DeliveryView { to: conn, message: MessageView::Resume })
    } else {
        None
    }
}

/// The latency estimate that a measured round trip of `rtt` nanoseconds gives:
/// half of it.
pub open spec fn latency_from_rtt(rtt: u64) -> u64 {
    rtt / 2
}

/// The table after a round trip of `rtt` nanoseconds has been measured for
/// connection `conn`.
pub open spec fn pong_recorded(rooms: Seq<RoomView>, conn: u64, rtt: u64) -> Seq<RoomView> {
    if is_connected(rooms, conn) {
        let i = room_of(rooms, conn);
        let j = member_index(rooms[i].members, conn);
        let m = rooms[i].members[j];
        rooms.update(
            i,
            RoomView {
                id: rooms[i].id,
                members: rooms[i].members.update(
                    j,
                    MemberView { id: m.id, latency: latency_from_rtt(rtt), version: m.version },
                ),
                pending: rooms[i].pending,
            },
        )
    } else {
        rooms
    }
}

/// What is sent when connection `from` says `text` in the room named `id`.
/// Chat passes among the members whose version understands it: from a sender
/// who is such a member, to every such member, the sender included.
pub open spec fn chat_deliveries(rooms: Seq<RoomView>, id: Seq<char>, from: u64, text: Seq<char>) -> Seq<
    DeliveryView,
> {
    if is_member_of(rooms, id, from) && chat_capable(
        rooms[room_index(rooms, id)].members[member_index(
            rooms[room_index(rooms, id)].members,
            from,
        )].version,
    ) {
        chat_notices(rooms[room_index(rooms, id)].members, text)
    } else {
        Seq::empty()
    }
}

/// In a well-formed table a room is found by its name alone.
pub proof fn lemma_room_index(r: RegistryView, i: int)
    requires
        well_formed(r),
        0 <= i < r.rooms.len(),
    ensures
        has_room(r.rooms, r.rooms[i].id),
        room_index(r.rooms, r.rooms[i].id) == i,
{
}

/// In a well-formed table a member is found by its connection alone.
pub proof fn lemma_room_of(r: RegistryView, i: int, j: int)
    requires
        well_formed(r),
        0 <= i < r.rooms.len(),
        0 <= j < r.rooms[i].members.len(),
    ensures
        is_connected(r.rooms, r.rooms[i].members[j].id),
        room_of(r.rooms, r.rooms[i].members[j].id) == i,
        has_member(r.rooms[i].members, r.rooms[i].members[j].id),
        member_index(r.rooms[i].members, r.rooms[i].members[j].id) == j,
        members_distinct(r.rooms[i].members),
{
}

/// A departure leaves the table well formed, and the one who left is in no
/// room afterwards.
pub proof fn lemma_departed(r: RegistryView, i: int, j: int)
    requires
        well_formed(r),
        0 <= i < r.rooms.len(),
        0 <= j < r.rooms[i].members.len(),
    ensures
        well_formed(RegistryView { rooms: departed(r.rooms, i, j), next_batch: r.next_batch }),
        !is_connected(departed(r.rooms, i, j), r.rooms[i].members[j].id),
{
    let conn = r.rooms[i].members[j].id;
    let after = departed(r.rooms, i, j);
    let single = r.rooms[i].members.len() <= 1;
    // Where each room and member of the new table stood in the old one.
    let from_room = |k: int| if single && k >= i { k + 1 } else { k };
    let from_member = |k: int, l: int| if !single && k == i && l >= j { l + 1 } else { l };
    assert forall|k: int| 0 <= k < after.len() implies {
        &&& 0 <= from_room(k) < r.rooms.len()
        &&& (#[trigger] after[k]).id == r.rooms[from_room(k)].id
        &&& after[k].pending == r.rooms[from_room(k)].pending
        &&& after[k].members.len() > 0
        &&& forall|l: int|
            0 <= l < after[k].members.len() ==> 0 <= from_member(k, l) < r.rooms[from_room(
                k,
            )].members.len() && #[trigger] after[k].members[l] == r.rooms[from_room(k)].members[from_member(k, l)]
    } by {
        assert(room_well_formed(r.rooms[from_room(k)], r.next_batch));
    }
    assert forall|k: int, m: int|
        0 <= k < after.len() && 0 <= m < after.len() && (#[trigger] after[k]).id == (
        #[trigger] after[m]).id implies k == m by {
        assert(r.rooms[from_room(k)].id == r.rooms[from_room(m)].id);
    }
    assert forall|k: int| 0 <= k < after.len() implies room_well_formed(
        #[trigger] after[k],
        r.next_batch,
    ) by {
        assert(room_well_formed(r.rooms[from_room(k)], r.next_batch));
    }
    assert forall|k: int, l: int, m: int, n: int|
        0 <= k < after.len() && 0 <= l < after[k].members.len() && 0 <= m < after.len() && 0 <= n
            < after[m].members.len() && (#[trigger] after[k].members[l]).id == (
        #[trigger] after[m].members[n]).id implies k == m && l == n by {
        assert(after[k].members[l] == r.rooms[from_room(k)].members[from_member(k, l)]);
        assert(after[m].members[n] == r.rooms[from_room(m)].members[from_member(m, n)]);
    }
    if is_connected(after, conn) {
        let k = room_of(after, conn);
        let l = member_index(after[k].members, conn);
        assert(after[k].members[l] == r.rooms[from_room(k)].members[from_member(k, l)]);
        assert(r.rooms[from_room(k)].members[from_member(k, l)].id == r.rooms[i].members[j].id);
        assert(false);
    }
}

/// An entry leaves the table well formed, if the one who enters was in no room
/// and the room has a name.
pub proof fn lemma_entered(r: RegistryView, id: Seq<char>, m: MemberView)
    requires
        well_formed(r),
        id.len() > 0,
        !is_connected(r.rooms, m.id),
    ensures
        well_formed(RegistryView { rooms: entered(r.rooms, id, m), next_batch: r.next_batch }),
{
    let after = entered(r.rooms, id, m);
    let grown = if has_room(r.rooms, id) {
        room_index(r.rooms, id)
    } else {
        r.rooms.len() as int
    };
    assert forall|k: int| 0 <= k < after.len() implies {
        &&& k != grown ==> #[trigger] after[k] == r.rooms[k]
        &&& k == grown ==> after[k].id == id && after[k].members.len() > 0
        &&& k == grown && k < r.rooms.len() ==> after[k].id == r.rooms[k].id && after[k].pending
            == r.rooms[k].pending && after[k].members == r.rooms[k].members.push(m)
        &&& k == grown && k == r.rooms.len() ==> after[k].pending is None && after[k].members
            == seq![m]
    } by {}
}

/// Two tables have the same rooms with the same connections in the same
/// places; pending batches and latency estimates may differ.
pub open spec fn same_membership(a: Seq<RoomView>, b: Seq<RoomView>) -> bool {
    &&& a.len() == b.len()
    &&& forall|k: int|
        0 <= k < a.len() ==> (#[trigger] a[k]).id == b[k].id && a[k].members.len()
            == b[k].members.len()
    &&& forall|k: int, l: int|
        0 <= k < a.len() && 0 <= l < a[k].members.len() ==> (#[trigger] a[k].members[l]).id
            == b[k].members[l].id
}

/// A change that keeps every connection in its place keeps the table well
/// formed, if every pending batch of the new table is in order.
pub proof fn lemma_same_membership(r: RegistryView, after: RegistryView)
    requires
        well_formed(r),
        same_membership(after.rooms, r.rooms),
        forall|k: int|
            0 <= k < after.rooms.len() ==> room_well_formed(#[trigger] after.rooms[k], after.next_batch),
    ensures
        well_formed(after),
{
}

/// Joining leaves the table well formed.
pub proof fn lemma_joined(r: RegistryView, m: MemberView, id: Seq<char>)
    requires
        well_formed(r),
    ensures
        well_formed(RegistryView { rooms: joined(r.rooms, m, id), next_batch: r.next_batch }),
        well_formed(RegistryView { rooms: vacated(r.rooms, m.id), next_batch: r.next_batch }),
        !is_connected(vacated(r.rooms, m.id), m.id),
        record_of(r.rooms, m).id == m.id,
{
    if is_connected(r.rooms, m.id) {
        let i = room_of(r.rooms, m.id);
        let j = member_index(r.rooms[i].members, m.id);
        lemma_departed(r, i, j);
    }
    if id.len() > 0 {
        lemma_entered(
            RegistryView { rooms: vacated(r.rooms, m.id), next_batch: r.next_batch },
            id,
            record_of(r.rooms, m),
        );
    }
}

/// Leaving leaves the table well formed, and the one who left is in no room.
pub proof fn lemma_left(r: RegistryView, conn: u64, id: Seq<char>)
    requires
        well_formed(r),
    ensures
        well_formed(RegistryView { rooms: left(r.rooms, conn, id), next_batch: r.next_batch }),
        is_member_of(r.rooms, id, conn) ==> !is_connected(left(r.rooms, conn, id), conn),
{
    if is_member_of(r.rooms, id, conn) {
        let i = room_index(r.rooms, id);
        let j = member_index(r.rooms[i].members, conn);
        lemma_departed(r, i, j);
    }
}

/// A seek leaves the table well formed.
pub proof fn lemma_sought(r: RegistryView, id: Seq<char>)
    requires
        well_formed(r),
    ensures
        well_formed(RegistryView { rooms: sought(r.rooms, id), next_batch: r.next_batch }),
        same_membership(sought(r.rooms, id), r.rooms),
        pending_batch(sought(r.rooms, id), id) is None,
{
    let after = RegistryView { rooms: sought(r.rooms, id), next_batch: r.next_batch };
    lemma_same_membership(r, after);
    if has_room(r.rooms, id) {
        let i = room_index(r.rooms, id);
        lemma_room_index(after, i);
    }
}

/// A resume request leaves the table well formed.
pub proof fn lemma_resume_requested(r: RegistryView, id: Seq<char>)
    requires
        well_formed(r),
    ensures
        well_formed(resume_requested(r, id)),
        same_membership(resume_requested(r, id).rooms, r.rooms),
{
    let after = resume_requested(r, id);
    if can_schedule(r, id) {
        let i = room_index(r.rooms, id);
        lemma_room_of(r, i, 0);
    }
    lemma_same_membership(r, after);
}

/// The firing of a delayed send leaves the table well formed.
pub proof fn lemma_resume_fired(r: RegistryView, id: Seq<char>, batch: u64, conn: u64)
    requires
        well_formed(r),
    ensures
        well_formed(
            RegistryView { rooms: resume_fired(r.rooms, id, batch, conn), next_batch: r.next_batch },
        ),
        same_membership(resume_fired(r.rooms, id, batch, conn), r.rooms),
{
    let after = RegistryView {
        rooms: resume_fired(r.rooms, id, batch, conn),
        next_batch: r.next_batch,
    };
    lemma_same_membership(r, after);
}

/// A recorded round trip leaves the table well formed.
pub proof fn lemma_pong_recorded(r: RegistryView, conn: u64, rtt: u64)
    requires
        well_formed(r),
    ensures
        well_formed(RegistryView { rooms: pong_recorded(r.rooms, conn, rtt), next_batch: r.next_batch }),
        same_membership(pong_recorded(r.rooms, conn, rtt), r.rooms),
{
    let after = RegistryView { rooms: pong_recorded(r.rooms, conn, rtt), next_batch: r.next_batch };
    lemma_same_membership(r, after);
}

/// The place of `x` in `v`.
fn position_in(v: &Vec<u64>, x: u64) -> (r: Option<usize>)
    ensures
        match r {
            Some(k) => k < v.len() && v[k as int] == x,
            None => !v@.contains(x),
        },
        v@.no_duplicates() && r is Some ==> v@.index_of(x) == r->0,
{
    let mut k: usize = 0;
    while k < v.len()
        invariant
            k <= v.len(),
            forall|l: int| 0 <= l < k ==> v[l] != x,
        decreases v.len() - k,
    {
        if v[k] == x {
            return Some(k);
        }
        k += 1;
    }
    None
}

/// Whether no number occurs twice in `v`.
fn all_distinct(v: &Vec<u64>) -> (r: bool)
    ensures
        r == v@.no_duplicates(),
{
    let mut i: usize = 0;
    while i < v.len()
        invariant
            i <= v.len(),
            forall|a: int, b: int| 0 <= a < i && 0 <= b < v.len() && a != b ==> v[a] != v[b],
        decreases v.len() - i,
    {
        let mut k: usize = 0;
        while k < v.len()
            invariant
                i < v.len(),
                k <= v.len(),
                forall|a: int, b: int| 0 <= a < i && 0 <= b < v.len() && a != b ==> v[a] != v[b],
                forall|b: int| 0 <= b < k && b != i ==> v[i as int] != v[b],
            decreases v.len() - k,
        {
            if k != i && v[k] == v[i] {
                return false;
            }
            k += 1;
        }
        i += 1;
    }
    true
}

impl Registry {
    /// The invariant of the table; see [`well_formed`].
    pub open spec fn wf(&self) -> bool {
        well_formed(self@)
    }

    /// A table without rooms.
    pub fn new() -> (r: Registry)
        ensures
            r.wf(),
            r@.rooms.len() == 0,
            r@.next_batch == 0,
    {
        Registry { rooms: Vec::new(), next_batch: 0 }
    }

    /// The number of rooms.
    pub fn room_count(&self) -> (n: usize)
        ensures
            n == self@.rooms.len(),
    {
        self.rooms.len()
    }

    fn find_room(&self, id: &String) -> (r: Option<usize>)
        requires
            self.wf(),
        ensures
            match r {
                Some(i) => i < self@.rooms.len() && self@.rooms[i as int].id == id@ && room_index(
                    self@.rooms,
                    id@,
                ) == i,
                None => true,
            },
            r is Some <==> has_room(self@.rooms, id@),
    {
        let mut i: usize = 0;
        while i < self.rooms.len()
            invariant
                self.wf(),
                i <= self.rooms.len(),
                forall|k: int| 0 <= k < i ==> (#[trigger] self@.rooms[k]).id != id@,
            decreases self.rooms.len() - i,
        {
            if self.rooms[i].id == *id {
                proof {
                    lemma_room_index(self@, i as int);
                }
                return Some(i);
            }
            i += 1;
        }
        None
    }

    fn locate(&self, conn: u64) -> (r: Option<(usize, usize)>)
        requires
            self.wf(),
        ensures
            match r {
                Some((i, j)) => {
                    &&& i < self@.rooms.len()
                    &&& j < self@.rooms[i as int].members.len()
                    &&& self@.rooms[i as int].members[j as int].id == conn
                    &&& room_of(self@.rooms, conn) == i
                    &&& member_index(self@.rooms[i as int].members, conn) == j
                },
                None => true,
            },
            r is Some <==> is_connected(self@.rooms, conn),
    {
        let mut i: usize = 0;
        while i < self.rooms.len()
            invariant
                self.wf(),
                i <= self.rooms.len(),
                forall|k: int| 0 <= k < i ==> !has_member((#[trigger] self@.rooms[k]).members, conn),
            decreases self.rooms.len() - i,
        {
            match self.rooms[i].position_of(conn) {
                Some(j) => {
                    proof {
                        lemma_room_of(self@, i as int, j as int);
                    }
                    return Some((i, j));
                },
                None => {},
            }
            i += 1;
        }
        None
    }

    fn remove_at(&mut self, i: usize, j: usize) -> (r: (Member, Vec<Delivery>))
        requires
            old(self).wf(),
            i < old(self)@.rooms.len(),
            j < old(self)@.rooms[i as int].members.len(),
        ensures
            final(self).wf(),
            final(self)@.next_batch == old(self)@.next_batch,
            final(self)@.rooms == departed(old(self)@.rooms, i as int, j as int),
            r.0@ == old(self)@.rooms[i as int].members[j as int],
            deliveries_view(r.1@) == departure_notices(old(self)@.rooms, i as int, j as int),
            !is_connected(final(self)@.rooms, r.0.id),
    {
        proof {
            lemma_departed(self@, i as int, j as int);
        }
        if self.rooms[i].members.len() <= 1 {
            let mut room = self.rooms.remove(i);
            let me = room.members.remove(j);
            assert(self@.rooms =~= old(self)@.rooms.remove(i as int));
            (me, Vec::new())
        } else {
            let me = self.rooms[i].members.remove(j);
            let out = self.rooms[i].party_notices();
            assert(self.rooms[i as int]@.members =~= old(self)@.rooms[i as int].members.remove(
                j as int,
            ));
            assert(self@.rooms =~= departed(old(self)@.rooms, i as int, j as int));
            (me, out)
        }
    }

    fn insert(&mut self, id: String, m: Member) -> (out: Vec<Delivery>)
        requires
            old(self).wf(),
            id@.len() > 0,
            !is_connected(old(self)@.rooms, m.id),
        ensures
            final(self).wf(),
            final(self)@.next_batch == old(self)@.next_batch,
            final(self)@.rooms == entered(old(self)@.rooms, id@, m@),
            deliveries_view(out@) == entry_notices(old(self)@.rooms, id@, m@),
    {
        proof {
            lemma_entered(self@, id@, m@);
        }
        match self.find_room(&id) {
            Some(i) => {
                self.rooms[i].members.push(m);
                assert(self.rooms[i as int]@.members =~= old(self)@.rooms[i as int].members.push(m@));
                assert(self@.rooms =~= entered(old(self)@.rooms, id@, m@));
                self.rooms[i].party_notices()
            },
            None => {
                let room = Room::open(id, m);
                let out = room.party_notices();
                self.rooms.push(room);
                assert(self@.rooms =~= entered(old(self)@.rooms, id@, m@));
                out
            },
        }
    }

    /// Moves `member`'s connection into the room named `room_id`.
    ///
    /// A connection that is already in a room leaves it first, and the others
    /// there are told the new count, unless the room is left empty, in which
    /// case it is deleted. The connection keeps the record it had, so that its
    /// latency estimate survives the move; `member` is used only for a
    /// connection that was in no room. Unless `room_id` is empty, the record
    /// then enters the named room, which is created if need be, and every
    /// member of it, the newcomer included, is told the new count.
    pub fn join(&mut self, member: Member, room_id: &str) -> (out: Vec<Delivery>)
        requires
            old(self).wf(),
        ensures
            final(self).wf(),
            final(self)@.next_batch == old(self)@.next_batch,
            final(self)@.rooms == joined(old(self)@.rooms, member@, room_id@),
            deliveries_view(out@) == join_notices(old(self)@.rooms, member@, room_id@),
    {
        let (record, mut out) = match self.locate(member.id) {
            Some((i, j)) => self.remove_at(i, j),
            None => (member, Vec::new()),
        };
        if room_id.is_empty() {
            out
        } else {
            let mut more = self.insert(room_id.to_owned(), record);
            out.append(&mut more);
            out
        }
    }

    /// Takes connection `connection` out of the room named `room_id` and hands
    /// back its record.
    ///
    /// The members who stay are told the new count; a room left empty is
    /// deleted. Where the connection is not a member of that room nothing
    /// changes and nothing is sent.
    pub fn leave(&mut self, connection: u64, room_id: &str) -> (r: (Option<Member>, Vec<Delivery>))
        requires
            old(self).wf(),
        ensures
            final(self).wf(),
            final(self)@.next_batch == old(self)@.next_batch,
            final(self)@.rooms == left(old(self)@.rooms, connection, room_id@),
            deliveries_view(r.1@) == leave_notices(old(self)@.rooms, connection, room_id@),
            r.0 is Some <==> is_member_of(old(self)@.rooms, room_id@, connection),
            r.0 is Some ==> r.0->0@ == member_of(old(self)@.rooms, connection),
            is_member_of(old(self)@.rooms, room_id@, connection) ==> !is_connected(
                final(self)@.rooms,
                connection,
            ),
    {
        let id = room_id.to_owned();
        match self.find_room(&id) {
            Some(i) => {
                match self.rooms[i].position_of(connection) {
                    Some(j) => {
                        proof {
                            lemma_room_of(self@, i as int, j as int);
                        }
                        let (me, out) = self.remove_at(i, j);
                        (Some(me), out)
                    },
                    None => {
                        (None, Vec::new())
                    },
                }
            },
            None => {
                (None, Vec::new())
            },
        }
    }

    /// Relays a seek to `time` that connection `excluding` made in the room
    /// named `room_id`.
    ///
    /// A batch of delayed resumes that is pending in the room is cancelled:
    /// its token is handed back and none of its sends will be delivered. Every
    /// member but `excluding` is sent the seek. Nothing happens where no such
    /// room exists.
    pub fn broadcast_seek(&mut self, room_id: &str, time: i64, excluding: u64) -> (r: (
        Vec<Delivery>,
        Option<u64>,
    ))
        requires
            old(self).wf(),
        ensures
            final(self).wf(),
            final(self)@.next_batch == old(self)@.next_batch,
            final(self)@.rooms == sought(old(self)@.rooms, room_id@),
            deliveries_view(r.0@) == seek_deliveries(old(self)@.rooms, room_id@, time, excluding),
            r.1 == pending_batch(old(self)@.rooms, room_id@),
            pending_batch(final(self)@.rooms, room_id@) is None,
    {
        let id = room_id.to_owned();
        match self.find_room(&id) {
            Some(i) => {
                let cancelled = match self.rooms[i].pending.take() {
                    Some(b) => Some(b.id),
                    None => None,
                };
                let out = self.rooms[i].seek_notices(time, excluding);
                proof {
                    assert(self@.rooms =~= sought(old(self)@.rooms, room_id@));
                    lemma_sought(old(self)@, room_id@);
                }
                (out, cancelled)
            },
            None => {
                (Vec::new(), None)
            },
        }
    }

    /// Answers a resume request for the room named `room_id`.
    ///
    /// Where the room exists and no batch is pending in it, a batch is started:
    /// it gets the next token, and for every member a `Resume` is scheduled,
    /// held back by as much as the member's latency falls short of the largest
    /// in the room, so that all of them arrive together. The result lists
    /// those sends. The request is dropped, and the result is empty, where a
    /// batch is still pending (a resume is already on its way), where the room
    /// does not exist, or where the tokens are used up.
    pub fn schedule_resume(&mut self, room_id: &str) -> (out: Vec<ScheduledResume>)
        requires
            old(self).wf(),
        ensures
            final(self).wf(),
            final(self)@ == resume_requested(old(self)@, room_id@),
            out@ == resume_sends(old(self)@, room_id@),
            out@.len() > 0 <==> can_schedule(old(self)@, room_id@),
    {
        let id = room_id.to_owned();
        match self.find_room(&id) {
            Some(i) => {
                if self.rooms[i].pending.is_some() || self.next_batch == u64::MAX {
                    return Vec::new();
                }
                let batch = self.next_batch;
                let out = self.rooms[i].resume_schedule(batch);
                let outstanding = self.rooms[i].member_ids();
                self.rooms[i].pending = Some(ResumeBatch { id: batch, outstanding });
                self.next_batch = batch + 1;
                proof {
                    assert(self@.rooms =~= resume_requested(old(self)@, room_id@).rooms);
                    lemma_resume_requested(old(self)@, room_id@);
                }
                out
            },
            None => Vec::new(),
        }
    }

    /// Reports that the timer of a delayed send has run out: the one of batch
    /// `batch` for connection `connection` in the room named `room_id`.
    ///
    /// The send is delivered only if it is still wanted, that is if the batch
    /// is the one pending in the room and this send has not fired before, and
    /// if the connection is still a member of the room. A wanted send is
    /// struck from the batch, and the batch ends with its last send. A timer of
    /// a batch that was cancelled or has ended delivers nothing and changes
    /// nothing.
    pub fn resume_due(&mut self, room_id: &str, batch: u64, connection: u64) -> (r: Option<Delivery>)
        requires
            old(self).wf(),
        ensures
            final(self).wf(),
            final(self)@.next_batch == old(self)@.next_batch,
            final(self)@.rooms == resume_fired(old(self)@.rooms, room_id@, batch, connection),
            match r {
                Some(d) => Some(d@) == resume_delivery(old(self)@.rooms, room_id@, batch, connection),
                None => resume_delivery(old(self)@.rooms, room_id@, batch, connection) is None,
            },
    {
        let id = room_id.to_owned();
        let i = match self.find_room(&id) {
            Some(i) => i,
            None => {
                return None;
            },
        };
        let mut taken = match self.rooms[i].pending.take() {
            Some(b) => b,
            None => {
                assert(self@.rooms =~= old(self)@.rooms);
                return None;
            },
        };
        let found = if taken.id == batch {
            position_in(&taken.outstanding, connection)
        } else {
            None
        };
        let k = match found {
            Some(k) => k,
            None => {
                self.rooms[i].pending = Some(taken);
                assert(self@.rooms =~= old(self)@.rooms);
                return None;
            },
        };
        taken.outstanding.remove(k);
        if taken.outstanding.len() > 0 {
            self.rooms[i].pending = Some(taken);
        }
        let r = match self.rooms[i].position_of(connection) {
            Some(_) => Some(Delivery { to: connection, message: WsMessage::Resume }),
            None => None,
        };
        proof {
            assert(self@.rooms =~= resume_fired(old(self)@.rooms, room_id@, batch, connection));
            lemma_resume_fired(old(self)@, room_id@, batch, connection);
        }
        r
    }

    /// Records a round trip of `rtt` nanoseconds measured for connection
    /// `connection`: its latency estimate becomes half of that. Nothing
    /// changes where the connection is in no room.
    pub fn record_pong(&mut self, connection: u64, rtt: u64)
        requires
            old(self).wf(),
        ensures
            final(self).wf(),
            final(self)@.next_batch == old(self)@.next_batch,
            final(self)@.rooms == pong_recorded(old(self)@.rooms, connection, rtt),
    {
        match self.locate(connection) {
            Some((i, j)) => {
                self.rooms[i].members[j].latency = rtt / 2;
                proof {
                    assert(self.rooms[i as int]@.members =~= old(self)@.rooms[i as int].members.update(
                        j as int,
                        MemberView {
                            id: connection,
                            latency: latency_from_rtt(rtt),
                            version: old(self)@.rooms[i as int].members[j as int].version,
                        },
                    ));
                    assert(self@.rooms =~= pong_recorded(old(self)@.rooms, connection, rtt));
                    lemma_pong_recorded(old(self)@, connection, rtt);
                }
            },
            None => {},
        }
    }

    /// Relays chat `text` that connection `from` sent in the room named
    /// `room_id`.
    ///
    /// Chat passes only among members whose version understands it. If `from`
    /// is such a member of the room, every such member, `from` included, is
    /// sent the text; otherwise nothing is sent.
    pub fn relay_chat(&self, room_id: &str, from: u64, text: &String) -> (out: Vec<Delivery>)
        requires
            self.wf(),
        ensures
            deliveries_view(out@) == chat_deliveries(self@.rooms, room_id@, from, text@),
    {
        let id = room_id.to_owned();
        match self.find_room(&id) {
            Some(i) => {
                match self.rooms[i].position_of(from) {
                    Some(j) => {
                        proof {
                            lemma_room_of(self@, i as int, j as int);
                        }
                        if supports_chat(&self.rooms[i].members[j].version) {
                            self.rooms[i].chat_notices(text)
                        } else {
                            Vec::new()
                        }
                    },
                    None => Vec::new(),
                }
            },
            None => Vec::new(),
        }
    }

    /// Whether member `j` of room `i` shares its connection with another
    /// member of the table.
    fn occurs_twice(&self, i: usize, j: usize) -> (r: bool)
        requires
            i < self@.rooms.len(),
            j < self@.rooms[i as int].members.len(),
        ensures
            r == exists|k: int, l: int|
                0 <= k < self@.rooms.len() && 0 <= l < self@.rooms[k].members.len() && !(k == i && l
                    == j) && (#[trigger] self@.rooms[k].members[l]).id
                    == self@.rooms[i as int].members[j as int].id,
    {
        let id = self.rooms[i].members[j].id;
        let mut k: usize = 0;
        while k < self.rooms.len()
            invariant
                k <= self.rooms.len(),
                i < self@.rooms.len(),
                j < self@.rooms[i as int].members.len(),
                id == self@.rooms[i as int].members[j as int].id,
                forall|a: int, b: int|
                    0 <= a < k && 0 <= b < self@.rooms[a].members.len() && !(a == i && b == j) ==> (
                    #[trigger] self@.rooms[a].members[b]).id != id,
            decreases self.rooms.len() - k,
        {
            let mut l: usize = 0;
            while l < self.rooms[k].members.len()
                invariant
                    k < self.rooms.len(),
                    l <= self.rooms[k as int].members.len(),
                    self.rooms[k as int]@ == self@.rooms[k as int],
                    i < self@.rooms.len(),
                    j < self@.rooms[i as int].members.len(),
                    id == self@.rooms[i as int].members[j as int].id,
                    forall|a: int, b: int|
                        0 <= a < k && 0 <= b < self@.rooms[a].members.len() && !(a == i && b == j) ==> (
                        #[trigger] self@.rooms[a].members[b]).id != id,
                    forall|b: int|
                        0 <= b < l && !(k == i && b == j) ==> (
                        #[trigger] self@.rooms[k as int].members[b]).id != id,
                decreases self.rooms[k as int].members.len() - l,
            {
                assert(self.rooms[k as int].members[l as int]@ == self@.rooms[k as int].members[l as int]);
                if !(k == i && l == j) && self.rooms[k].members[l].id == id {
                    return true;
                }
                l += 1;
            }
            k += 1;
        }
        false
    }

    /// Whether no connection is a member twice.
    fn connections_distinct(&self) -> (r: bool)
        ensures
            r == forall|i: int, j: int, k: int, l: int|
                0 <= i < self@.rooms.len() && 0 <= j < self@.rooms[i].members.len() && 0 <= k
                    < self@.rooms.len() && 0 <= l < self@.rooms[k].members.len() && (
                #[trigger] self@.rooms[i].members[j]).id == (#[trigger] self@.rooms[k].members[l]).id
                    ==> i == k && j == l,
    {
        let mut i: usize = 0;
        while i < self.rooms.len()
            invariant
                i <= self.rooms.len(),
                forall|a: int, b: int, k: int, l: int|
                    0 <= a < i && 0 <= b < self@.rooms[a].members.len() && 0 <= k < self@.rooms.len()
                        && 0 <= l < self@.rooms[k].members.len() && (
                    #[trigger] self@.rooms[a].members[b]).id == (
                    #[trigger] self@.rooms[k].members[l]).id ==> a == k && b == l,
            decreases self.rooms.len() - i,
        {
            let mut j: usize = 0;
            while j < self.rooms[i].members.len()
                invariant
                    i < self.rooms.len(),
                    j <= self.rooms[i as int].members.len(),
                    self.rooms[i as int]@ == self@.rooms[i as int],
                    forall|a: int, b: int, k: int, l: int|
                        0 <= a < i && 0 <= b < self@.rooms[a].members.len() && 0 <= k
                            < self@.rooms.len() && 0 <= l < self@.rooms[k].members.len() && (
                        #[trigger] self@.rooms[a].members[b]).id == (
                        #[trigger] self@.rooms[k].members[l]).id ==> a == k && b == l,
                    forall|b: int, k: int, l: int|
                        0 <= b < j && 0 <= k < self@.rooms.len() && 0 <= l
                            < self@.rooms[k].members.len() && (
                        #[trigger] self@.rooms[i as int].members[b]).id == (
                        #[trigger] self@.rooms[k].members[l]).id ==> i == k && b == l,
                decreases self.rooms[i as int].members.len() - j,
            {
                if self.occurs_twice(i, j) {
                    return false;
                }
                j += 1;
            }
            i += 1;
        }
        true
    }

    /// Whether no two rooms share a name.
    fn names_distinct(&self) -> (r: bool)
        ensures
            r == forall|i: int, k: int|
                0 <= i < self@.rooms.len() && 0 <= k < self@.rooms.len() && (
                #[trigger] self@.rooms[i]).id == (#[trigger] self@.rooms[k]).id ==> i == k,
    {
        let mut i: usize = 0;
        while i < self.rooms.len()
            invariant
                i <= self.rooms.len(),
                forall|a: int, k: int|
                    0 <= a < i && 0 <= k < self@.rooms.len() && (#[trigger] self@.rooms[a]).id == (
                    #[trigger] self@.rooms[k]).id ==> a == k,
            decreases self.rooms.len() - i,
        {
            let mut k: usize = 0;
            while k < self.rooms.len()
                invariant
                    i < self.rooms.len(),
                    k <= self.rooms.len(),
                    self.rooms[i as int]@ == self@.rooms[i as int],
                    forall|a: int, b: int|
                        0 <= a < i && 0 <= b < self@.rooms.len() && (#[trigger] self@.rooms[a]).id == (
                        #[trigger] self@.rooms[b]).id ==> a == b,
                    forall|b: int|
                        0 <= b < k && self@.rooms[i as int].id == (#[trigger] self@.rooms[b]).id ==> i
                            == b,
                decreases self.rooms.len() - k,
            {
                assert(self.rooms[k as int]@ == self@.rooms[k as int]);
                if k != i && self.rooms[k].id == self.rooms[i].id {
                    return false;
                }
                k += 1;
            }
            i += 1;
        }
        true
    }

    /// Whether every room is well formed.
    fn rooms_well_formed(&self) -> (r: bool)
        ensures
            r == forall|i: int|
                0 <= i < self@.rooms.len() ==> room_well_formed(#[trigger] self@.rooms[i], self@.next_batch),
    {
        let mut i: usize = 0;
        while i < self.rooms.len()
            invariant
                i <= self.rooms.len(),
                forall|a: int| 0 <= a < i ==> room_well_formed(#[trigger] self@.rooms[a], self@.next_batch),
            decreases self.rooms.len() - i,
        {
            assert(self.rooms[i as int]@ == self@.rooms[i as int]);
            let room = &self.rooms[i];
            let pending_ok = match &room.pending {
                Some(b) => b.id < self.next_batch && b.outstanding.len() > 0 && all_distinct(
                    &b.outstanding,
                ),
                None => true,
            };
            if room.id.as_str().is_empty() || room.members.len() == 0 || !pending_ok {
                return false;
            }
            i += 1;
        }
        true
    }

    /// Tests the invariant of the table; see [`well_formed`]. Every table that
    /// comes from [`Registry::new`] and the operations passes.
    pub fn is_well_formed(&self) -> (r: bool)
        ensures
            r == self.wf(),
    {
        self.names_distinct() && self.rooms_well_formed() && self.connections_distinct()
    }

    /// Whether a room named `room_id` exists.
    pub fn contains_room(&self, room_id: &str) -> (r: bool)
        requires
            self.wf(),
        ensures
            r == has_room(self@.rooms, room_id@),
    {
        let id = room_id.to_owned();
        self.find_room(&id).is_some()
    }

    /// The number of members of the room named `room_id`; zero where no such
    /// room exists.
    pub fn member_count(&self, room_id: &str) -> (n: usize)
        requires
            self.wf(),
        ensures
            has_room(self@.rooms, room_id@) ==> n == self@.rooms[room_index(
                self@.rooms,
                room_id@,
            )].members.len() && n > 0,
            !has_room(self@.rooms, room_id@) ==> n == 0,
    {
        let id = room_id.to_owned();
        match self.find_room(&id) {
            Some(i) => {
                self.rooms[i].members.len()
            },
            None => 0,
        }
    }

    /// Copies of the records of the members of the room named `room_id`, in
    /// order; none where no such room exists.
    pub fn members_of(&self, room_id: &str) -> (out: Vec<Member>)
        requires
            self.wf(),
        ensures
            members_view(out@) == if has_room(self@.rooms, room_id@) {
                self@.rooms[room_index(self@.rooms, room_id@)].members
            } else {
                Seq::empty()
            },
    {
        let id = room_id.to_owned();
        let mut out: Vec<Member> = Vec::new();
        match self.find_room(&id) {
            Some(i) => {
                let mut k: usize = 0;
                while k < self.rooms[i].members.len()
                    invariant
                        i < self.rooms.len(),
                        k <= self.rooms[i as int].members.len(),
                        members_view(out@) == members_view(self.rooms[i as int].members@).take(k as int),
                    decreases self.rooms[i as int].members.len() - k,
                {
                    let ghost before = out@;
                    let copy = self.rooms[i].members[k].duplicate();
                    out.push(copy);
                    assert(members_view(out@) =~= members_view(before).push(copy@));
                    k += 1;
                }
                out
            },
            None => {
                out
            },
        }
    }

    /// The token of the batch that is pending in the room named `room_id`.
    pub fn pending_batch(&self, room_id: &str) -> (r: Option<u64>)
        requires
            self.wf(),
        ensures
            r == pending_batch(self@.rooms, room_id@),
    {
        let id = room_id.to_owned();
        match self.find_room(&id) {
            Some(i) => {
                match &self.rooms[i].pending {
                    Some(b) => Some(b.id),
                    None => None,
                }
            },
            None => None,
        }
    }

    /// The name of the room that connection `conn` is a member of.
    pub fn room_of(&self, conn: u64) -> (r: Option<String>)
        requires
            self.wf(),
        ensures
            r is Some <==> is_connected(self@.rooms, conn),
            r matches Some(id) ==> id@ == self@.rooms[room_of(self@.rooms, conn)].id && is_member_of(
                self@.rooms,
                id@,
                conn,
            ),
    {
        match self.locate(conn) {
            Some((i, j)) => {
                proof {
                    lemma_room_index(self@, i as int);
                    lemma_room_of(self@, i as int, j as int);
                }
                Some(self.rooms[i].id.clone())
            },
            None => None,
        }
    }

    /// Whether connection `conn` is a member of some room.
    pub fn is_connected(&self, conn: u64) -> (r: bool)
        requires
            self.wf(),
        ensures
            r == is_connected(self@.rooms, conn),
    {
        self.locate(conn).is_some()
    }

    /// The latency estimate held for connection `conn`, where it is a member
    /// of a room.
    pub fn latency_of(&self, conn: u64) -> (r: Option<u64>)
        requires
            self.wf(),
        ensures
            r is Some <==> is_connected(self@.rooms, conn),
            r is Some ==> r->0 == member_of(self@.rooms, conn).latency,
    {
        match self.locate(conn) {
            Some((i, j)) => {
                Some(self.rooms[i].members[j].latency)
            },
            None => None,
        }
    }
}

} // verus!
