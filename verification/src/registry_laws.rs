//! What holds of the room table over any course of events.

use crate::message::{chat_capable, MessageView};
use crate::registry::{
    can_schedule, resume_sends, chat_deliveries, departed, entered, has_room, is_connected, is_due, is_member_of, join_notices,
    joined, leave_notices, left, lemma_departed, lemma_entered, lemma_joined, lemma_left,
    lemma_pong_recorded, lemma_resume_fired, lemma_resume_requested, lemma_room_index,
    lemma_room_of, lemma_sought, member_of, pending_batch, pong_recorded, record_of,
    resume_delivery, resume_fired, resume_requested, room_index, room_of, room_well_formed,
    same_membership,
    seek_deliveries, sought, vacate_notices, vacated, well_formed, RegistryView,
};
use crate::room::{
    resume_schedule, law_resume_delays, max_latency, member_ids, BatchView, has_member, is_notice_for, lemma_notices_for, member_index, party_notices, reaches, MemberView,
    RoomView,
};
use vstd::prelude::*;

verus! {

/// One event at the room table.
pub enum RegistryOp {
    Join { member: MemberView, room: Seq<char> },
    Leave { connection: u64, room: Seq<char> },
    Seek { room: Seq<char>, time: i64, excluding: u64 },
    Resume { room: Seq<char> },
    ResumeDue { room: Seq<char>, batch: u64, connection: u64 },
    Pong { connection: u64, rtt: u64 },
}

/// The table after one event.
pub open spec fn step(r: RegistryView, op: RegistryOp) -> RegistryView {
    match op {
        RegistryOp::Join { member, room } => RegistryView {
            rooms: joined(r.rooms, member, room),
            next_batch: r.next_batch,
        },
        RegistryOp::Leave { connection, room } => RegistryView {
            rooms: left(r.rooms, connection, room),
            next_batch: r.next_batch,
        },
        RegistryOp::Seek { room, time, excluding } => RegistryView {
            rooms: sought(r.rooms, room),
            next_batch: r.next_batch,
        },
        RegistryOp::Resume { room } => resume_requested(r, room),
        RegistryOp::ResumeDue { room, batch, connection } => RegistryView {
            rooms: resume_fired(r.rooms, room, batch, connection),
            next_batch: r.next_batch,
        },
        RegistryOp::Pong { connection, rtt } => RegistryView {
            rooms: pong_recorded(r.rooms, connection, rtt),
            next_batch: r.next_batch,
        },
    }
}

/// The table after a course of events.
pub open spec fn run(r: RegistryView, ops: Seq<RegistryOp>) -> RegistryView
    decreases ops.len(),
{
    if ops.len() == 0 {
        r
    } else {
        step(run(r, ops.drop_last()), ops.last())
    }
}

/// The empty table.
pub open spec fn empty_table() -> RegistryView {
    RegistryView { rooms: Seq::empty(), next_batch: 0 }
}

/// Every event leaves a well-formed table well formed.
pub proof fn law_step_well_formed(r: RegistryView, op: RegistryOp)
    requires
        well_formed(r),
    ensures
        well_formed(step(r, op)),
{
    match op {
        RegistryOp::Join { member, room } => lemma_joined(r, member, room),
        RegistryOp::Leave { connection, room } => lemma_left(r, connection, room),
        RegistryOp::Seek { room, time, excluding } => lemma_sought(r, room),
        RegistryOp::Resume { room } => lemma_resume_requested(r, room),
        RegistryOp::ResumeDue { room, batch, connection } => lemma_resume_fired(
            r,
            room,
            batch,
            connection,
        ),
        RegistryOp::Pong { connection, rtt } => lemma_pong_recorded(r, connection, rtt),
    }
}

/// Whatever happens to a table that starts out empty, at every moment each of
/// its rooms has a name of its own and at least one member, no connection is
/// in two rooms or twice in one, and at most one batch is pending in a room.
pub proof fn law_table_stays_well_formed(ops: Seq<RegistryOp>)
    ensures
        well_formed(run(empty_table(), ops)),
        forall|i: int|
            0 <= i < run(empty_table(), ops).rooms.len() ==> (#[trigger] run(
                empty_table(),
                ops,
            ).rooms[i]).members.len() > 0,
    decreases ops.len(),
{
    if ops.len() > 0 {
        law_table_stays_well_formed(ops.drop_last());
        law_step_well_formed(run(empty_table(), ops.drop_last()), ops.last());
    }
}

/// When a connection leaves a room, the count that the others are told is the
/// number of members the room has afterwards, each of them is told once, and
/// the room is gone exactly if that number is zero.
pub proof fn law_leave_counts(r: RegistryView, connection: u64, room: Seq<char>)
    requires
        well_formed(r),
        is_member_of(r.rooms, room, connection),
    ensures
        ({
            let before = r.rooms[room_index(r.rooms, room)].members.len();
            let after = left(r.rooms, connection, room);
            let told = leave_notices(r.rooms, connection, room);
            &&& has_room(after, room) <==> before > 1
            &&& has_room(after, room) ==> {
                let members = after[room_index(after, room)].members;
                &&& members.len() == before - 1
                &&& told == party_notices(members)
                &&& !has_member(members, connection)
            }
            &&& !has_room(after, room) ==> told.len() == 0
        }),
{
    let i = room_index(r.rooms, room);
    let j = member_index(r.rooms[i].members, connection);
    let after = left(r.rooms, connection, room);
    lemma_departed(r, i, j);
    let ra = RegistryView { rooms: after, next_batch: r.next_batch };
    if r.rooms[i].members.len() > 1 {
        lemma_room_index(ra, i);
    }
}

/// When a connection joins a room, it first leaves the one it was in, and what
/// that room is told is as for any leave. Then every member of the room it
/// joins, the newcomer last, is told the number of members that the room has
/// afterwards, which is one more than before.
pub proof fn law_join_counts(r: RegistryView, member: MemberView, room: Seq<char>)
    requires
        well_formed(r),
        room.len() > 0,
    ensures
        ({
            let between = vacated(r.rooms, member.id);
            let after = joined(r.rooms, member, room);
            let told = join_notices(r.rooms, member, room);
            let members = after[room_index(after, room)].members;
            let before = if has_room(between, room) {
                between[room_index(between, room)].members.len()
            } else {
                0
            };
            &&& has_room(after, room)
            &&& members.len() == before + 1
            &&& members.last().id == member.id
            &&& told == vacate_notices(r.rooms, member.id) + party_notices(members)
        }),
{
    let between = vacated(r.rooms, member.id);
    let rb = RegistryView { rooms: between, next_batch: r.next_batch };
    let rec = record_of(r.rooms, member);
    lemma_joined(r, member, room);
    let after = entered(between, room, rec);
    let ra = RegistryView { rooms: after, next_batch: r.next_batch };
    lemma_entered(rb, room, rec);
    let i = if has_room(between, room) {
        room_index(between, room)
    } else {
        between.len() as int
    };
    lemma_room_index(ra, i);
}

/// A relayed seek reaches every member of the room but the one who made it,
/// and no one else: not the one who made it, and no connection outside the
/// room.
pub proof fn law_seek_reaches_the_others(
    r: RegistryView,
    room: Seq<char>,
    time: i64,
    excluding: u64,
    conn: u64,
)
    requires
        well_formed(r),
    ensures
        reaches(seek_deliveries(r.rooms, room, time, excluding), conn) <==> is_member_of(
            r.rooms,
            room,
            conn,
        ) && conn != excluding,
        forall|x: int|
            0 <= x < seek_deliveries(r.rooms, room, time, excluding).len() ==> (
            #[trigger] seek_deliveries(r.rooms, room, time, excluding)[x]).message
                == MessageView::AbsoluteSeek(time),
{
    let told = seek_deliveries(r.rooms, room, time, excluding);
    if has_room(r.rooms, room) {
        let members = r.rooms[room_index(r.rooms, room)].members;
        let wanted = |m: MemberView| m.id != excluding;
        lemma_notices_for(members, wanted, MessageView::AbsoluteSeek(time));
    }
}

/// Chat reaches exactly the members of the room whose version understands it,
/// and only if the one who sent it is such a member: it never passes between a
/// peer below the first version with chat and one at or above it, in either
/// direction.
pub proof fn law_chat_stays_among_the_capable(
    r: RegistryView,
    room: Seq<char>,
    from: u64,
    text: Seq<char>,
    conn: u64,
)
    requires
        well_formed(r),
    ensures
        reaches(chat_deliveries(r.rooms, room, from, text), conn) <==> {
            &&& is_member_of(r.rooms, room, from)
            &&& is_member_of(r.rooms, room, conn)
            &&& chat_capable(member_of(r.rooms, from).version)
            &&& chat_capable(member_of(r.rooms, conn).version)
        },
        forall|x: int|
            0 <= x < chat_deliveries(r.rooms, room, from, text).len() ==> (#[trigger] chat_deliveries(
                r.rooms,
                room,
                from,
                text,
            )[x]).message == MessageView::Chat(text),
{
    let told = chat_deliveries(r.rooms, room, from, text);
    if has_room(r.rooms, room) {
        let i = room_index(r.rooms, room);
        let members = r.rooms[i].members;
        let wanted = |m: MemberView| chat_capable(m.version);
        lemma_notices_for(members, wanted, MessageView::Chat(text));
        if has_member(members, from) {
            lemma_room_of(r, i, member_index(members, from));
        }
        if has_member(members, conn) {
            let j = member_index(members, conn);
            lemma_room_of(r, i, j);
        }
        if reaches(told, conn) {
            let x = choose|x: int| 0 <= x < told.len() && (#[trigger] told[x]).to == conn;
            let j = choose|j: int|
                0 <= j < members.len() && wanted(#[trigger] members[j]) && members[j].id == told[x].to;
            lemma_room_of(r, i, j);
        }
    }
}

/// A resume request for a room in which no batch is pending, made while a
/// token is left for the batch, schedules one `Resume` for every member of the
/// room, the one who asked included. Each is held back by the largest latency
/// in the room less the member's own, so that delay and latency add up to the
/// same for all of them; none is held back by less than nothing, and the
/// member with the largest latency is not held back at all. The sends make up
/// the one batch that is pending in the room afterwards.
pub proof fn law_resume_request(r: RegistryView, room: Seq<char>)
    requires
        well_formed(r),
        can_schedule(r, room),
    ensures
        ({
            let members = r.rooms[room_index(r.rooms, room)].members;
            let sends = resume_sends(r, room);
            let after = resume_requested(r, room);
            &&& sends.len() == members.len()
            &&& members.len() > 0
            &&& forall|k: int|
                0 <= k < members.len() ==> {
                    &&& (#[trigger] sends[k]).to == members[k].id
                    &&& sends[k].batch == r.next_batch
                    &&& sends[k].delay as int == max_latency(members) as int - members[k].latency as int
                    &&& sends[k].delay >= 0
                }
            &&& forall|i: int, k: int|
                0 <= i < members.len() && 0 <= k < members.len() ==> (#[trigger] sends[i]).delay
                    + members[i].latency == (#[trigger] sends[k]).delay + members[k].latency
            &&& exists|k: int| 0 <= k < members.len() && (#[trigger] sends[k]).delay == 0
            &&& has_room(after.rooms, room)
            &&& after.rooms[room_index(after.rooms, room)].pending == Some(
                BatchView { id: r.next_batch, outstanding: member_ids(members) },
            )
            &&& after.rooms[room_index(after.rooms, room)].members == members
        }),
{
    let i = room_index(r.rooms, room);
    let members = r.rooms[i].members;
    let sends = resume_sends(r, room);
    let after = resume_requested(r, room);
    law_resume_delays(members, r.next_batch);
    lemma_resume_requested(r, room);
    assert(after.rooms[i].id == room);
    lemma_room_index(after, i);
    assert(room_well_formed(r.rooms[i], r.next_batch));
    assert forall|a: int, b: int| 0 <= a < members.len() && 0 <= b < members.len() implies (
    #[trigger] sends[a]).delay + members[a].latency == (#[trigger] sends[b]).delay
        + members[b].latency by {
        assert(sends[a].delay + members[a].latency == max_latency(members));
        assert(sends[b].delay + members[b].latency == max_latency(members));
    }
    let k = choose|k: int|
        0 <= k < members.len() && (#[trigger] resume_schedule(members, r.next_batch)[k]).delay == 0;
    assert(sends[k].delay == 0);
}

/// A measured round trip makes half of it the latency estimate of its
/// connection, and changes the estimate of no other.
pub proof fn law_pong_sets_latency(r: RegistryView, conn: u64, rtt: u64, other: u64)
    requires
        well_formed(r),
        is_connected(r.rooms, conn),
    ensures
        is_connected(pong_recorded(r.rooms, conn, rtt), conn),
        member_of(pong_recorded(r.rooms, conn, rtt), conn).latency == rtt / 2,
        is_connected(r.rooms, other) && other != conn ==> member_of(
            pong_recorded(r.rooms, conn, rtt),
            other,
        ) == member_of(r.rooms, other),
{
    let after = RegistryView { rooms: pong_recorded(r.rooms, conn, rtt), next_batch: r.next_batch };
    let i = room_of(r.rooms, conn);
    let j = member_index(r.rooms[i].members, conn);
    lemma_pong_recorded(r, conn, rtt);
    lemma_room_of(r, i, j);
    lemma_room_of(after, i, j);
    if is_connected(r.rooms, other) && other != conn {
        let k = room_of(r.rooms, other);
        let l = member_index(r.rooms[k].members, other);
        lemma_room_of(r, k, l);
        assert(after.rooms[k].members[l].id == other);
        lemma_room_of(after, k, l);
    }
}

/// A batch token that has been issued and is not pending in the room named
/// `room`: its batch has ended or was cancelled.
pub open spec fn batch_over(r: RegistryView, room: Seq<char>, batch: u64) -> bool {
    batch < r.next_batch && pending_batch(r.rooms, room) != Some(batch)
}

/// A timer of a batch that is over delivers nothing and changes nothing.
pub proof fn law_batch_over_is_silent(r: RegistryView, room: Seq<char>, batch: u64, connection: u64)
    requires
        batch_over(r, room, batch),
    ensures
        resume_delivery(r.rooms, room, batch, connection) is None,
        resume_fired(r.rooms, room, batch, connection) == r.rooms,
        !is_due(r.rooms, room, batch, connection),
{
}

/// Whether a room named `room` has batch `batch` pending.
pub open spec fn holds_batch(rooms: Seq<RoomView>, room: Seq<char>, batch: u64) -> bool {
    exists|k: int|
        0 <= k < rooms.len() && (#[trigger] rooms[k]).id == room && rooms[k].pending is Some
            && rooms[k].pending->0.id == batch
}

/// In a well-formed table the batch that a room holds is the one pending
/// under its name.
proof fn lemma_holds_batch(r: RegistryView, room: Seq<char>, batch: u64)
    requires
        well_formed(r),
    ensures
        holds_batch(r.rooms, room, batch) <==> pending_batch(r.rooms, room) == Some(batch),
{
    if holds_batch(r.rooms, room, batch) {
        let k = choose|k: int|
            0 <= k < r.rooms.len() && (#[trigger] r.rooms[k]).id == room && r.rooms[k].pending is Some
                && r.rooms[k].pending->0.id == batch;
        lemma_room_index(r, k);
    }
}

/// A departure makes no batch pending.
proof fn lemma_departure_starts_no_batch(r: RegistryView, i: int, j: int, room: Seq<char>, batch: u64)
    requires
        0 <= i < r.rooms.len(),
        0 <= j < r.rooms[i].members.len(),
        holds_batch(departed(r.rooms, i, j), room, batch),
    ensures
        holds_batch(r.rooms, room, batch),
{
}

/// An entry makes no batch pending.
proof fn lemma_entry_starts_no_batch(
    r: RegistryView,
    id: Seq<char>,
    m: MemberView,
    room: Seq<char>,
    batch: u64,
)
    requires
        holds_batch(entered(r.rooms, id, m), room, batch),
    ensures
        holds_batch(r.rooms, room, batch),
{
}

/// A batch that is over stays over, whatever happens next.
pub proof fn law_batch_stays_over(r: RegistryView, op: RegistryOp, room: Seq<char>, batch: u64)
    requires
        well_formed(r),
        batch_over(r, room, batch),
    ensures
        batch_over(step(r, op), room, batch),
{
    let after = step(r, op);
    law_step_well_formed(r, op);
    lemma_holds_batch(r, room, batch);
    lemma_holds_batch(after, room, batch);
    if holds_batch(after.rooms, room, batch) {
        match op {
            RegistryOp::Join { member, room: target } => {
                if target.len() > 0 {
                    lemma_entry_starts_no_batch(
                        RegistryView { rooms: vacated(r.rooms, member.id), next_batch: r.next_batch },
                        target,
                        record_of(r.rooms, member),
                        room,
                        batch,
                    );
                }
                if is_connected(r.rooms, member.id) {
                    let i = room_of(r.rooms, member.id);
                    lemma_departure_starts_no_batch(
                        r,
                        i,
                        member_index(r.rooms[i].members, member.id),
                        room,
                        batch,
                    );
                }
            },
            RegistryOp::Leave { connection, room: target } => {
                if is_member_of(r.rooms, target, connection) {
                    let i = room_index(r.rooms, target);
                    lemma_departure_starts_no_batch(
                        r,
                        i,
                        member_index(r.rooms[i].members, connection),
                        room,
                        batch,
                    );
                }
            },
            _ => {
                let k = choose|k: int|
                    0 <= k < after.rooms.len() && (#[trigger] after.rooms[k]).id == room
                        && after.rooms[k].pending is Some && after.rooms[k].pending->0.id == batch;
                lemma_room_index(r, k);
                lemma_room_index(after, k);
            },
        }
    }
}

/// A batch that is over delivers nothing at any later time.
pub proof fn law_batch_over_for_good(
    r: RegistryView,
    ops: Seq<RegistryOp>,
    room: Seq<char>,
    batch: u64,
    connection: u64,
)
    requires
        well_formed(r),
        batch_over(r, room, batch),
    ensures
        well_formed(run(r, ops)),
        batch_over(run(r, ops), room, batch),
        resume_delivery(run(r, ops).rooms, room, batch, connection) is None,
    decreases ops.len(),
{
    if ops.len() > 0 {
        law_batch_over_for_good(r, ops.drop_last(), room, batch, connection);
        law_step_well_formed(run(r, ops.drop_last()), ops.last());
        law_batch_stays_over(run(r, ops.drop_last()), ops.last(), room, batch);
    }
}

/// A seek cancels the batch that is pending in its room: whatever happens
/// afterwards, no timer of that batch delivers a `Resume`.
pub proof fn law_seek_cancels_pending_batch(
    r: RegistryView,
    room: Seq<char>,
    time: i64,
    excluding: u64,
    later: Seq<RegistryOp>,
    batch: u64,
    connection: u64,
)
    requires
        well_formed(r),
        pending_batch(r.rooms, room) == Some(batch),
    ensures
        resume_delivery(
            run(step(r, RegistryOp::Seek { room, time, excluding }), later).rooms,
            room,
            batch,
            connection,
        ) is None,
{
    let after = step(r, RegistryOp::Seek { room, time, excluding });
    lemma_sought(r, room);
    law_batch_over_for_good(after, later, room, batch, connection);
}

} // verus!
