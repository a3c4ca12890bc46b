//! What holds between the connections and the room table.

use crate::clock::{nanos_between, rfc3339_instant, Clock};
use crate::connection::{handled, ConnectionView, Handled, ReactionView};
use crate::message::MessageView;
use crate::registry::{
    can_schedule, pending_batch, departed, entered, has_room, is_connected, is_member_of, joined, left, lemma_departed,
    lemma_entered, lemma_joined, lemma_left, lemma_pong_recorded, lemma_resume_fired,
    lemma_resume_requested, lemma_room_index, lemma_room_of, lemma_sought, record_of,
    resume_fired, room_index, room_of, same_membership, vacated, well_formed, RegistryView,
};
use crate::registry_laws::law_resume_request;
use crate::room::{has_member, member_index, resume_schedule, MemberView};
use vstd::prelude::*;

verus! {

/// The connection and the table agree on where the connection is: it is a
/// member of the room it takes itself to be in and of no other, and of none
/// while it takes itself to be in none.
pub open spec fn in_step(c: ConnectionView, r: RegistryView) -> bool {
    if c.current_room.len() == 0 {
        !is_connected(r.rooms, c.id)
    } else {
        is_member_of(r.rooms, c.current_room, c.id)
    }
}

/// In a well-formed table the room that a connection is a member of is the
/// only one.
pub proof fn lemma_member_of_one_room(r: RegistryView, id: Seq<char>, conn: u64)
    requires
        well_formed(r),
        is_member_of(r.rooms, id, conn),
    ensures
        is_connected(r.rooms, conn),
        room_of(r.rooms, conn) == room_index(r.rooms, id),
        forall|other: Seq<char>| is_member_of(r.rooms, other, conn) ==> other == id,
{
    let i = room_index(r.rooms, id);
    let j = member_index(r.rooms[i].members, conn);
    lemma_room_of(r, i, j);
}

/// A connection that is a member of some room is a member of the room that
/// the table names for it.
pub proof fn lemma_connected_is_member(r: RegistryView, conn: u64)
    requires
        well_formed(r),
        is_connected(r.rooms, conn),
    ensures
        is_member_of(r.rooms, r.rooms[room_of(r.rooms, conn)].id, conn),
{
    let i = room_of(r.rooms, conn);
    lemma_room_index(r, i);
}

/// Tables with the same membership have the same members in the same rooms.
pub proof fn lemma_same_members(r: RegistryView, after: RegistryView, conn: u64, id: Seq<char>)
    requires
        well_formed(r),
        well_formed(after),
        same_membership(after.rooms, r.rooms),
    ensures
        is_connected(after.rooms, conn) <==> is_connected(r.rooms, conn),
        is_member_of(after.rooms, id, conn) <==> is_member_of(r.rooms, id, conn),
{
    assert forall|k: int| 0 <= k < r.rooms.len() implies (has_member(
        (#[trigger] after.rooms[k]).members,
        conn,
    ) <==> has_member(r.rooms[k].members, conn)) by {
        if has_member(r.rooms[k].members, conn) {
            let l = member_index(r.rooms[k].members, conn);
            assert(after.rooms[k].members[l].id == conn);
        }
    }
    if is_connected(r.rooms, conn) {
        let k = room_of(r.rooms, conn);
        assert(has_member(after.rooms[k].members, conn));
    }
    if has_room(after.rooms, id) {
        let k = room_index(after.rooms, id);
        lemma_room_index(r, k);
    }
    if has_room(r.rooms, id) {
        let k = room_index(r.rooms, id);
        lemma_room_index(after, k);
    }
}

/// A departure changes nothing for the connections that stay.
pub proof fn lemma_departure_spares_others(r: RegistryView, i: int, j: int, conn: u64, id: Seq<char>)
    requires
        well_formed(r),
        0 <= i < r.rooms.len(),
        0 <= j < r.rooms[i].members.len(),
        conn != r.rooms[i].members[j].id,
    ensures
        is_connected(departed(r.rooms, i, j), conn) <==> is_connected(r.rooms, conn),
        is_member_of(departed(r.rooms, i, j), id, conn) <==> is_member_of(r.rooms, id, conn),
{
    let after = departed(r.rooms, i, j);
    let ra = RegistryView { rooms: after, next_batch: r.next_batch };
    lemma_departed(r, i, j);
    let single = r.rooms[i].members.len() <= 1;
    // Where a room of the new table stood in the old one, and the other way.
    let from_room = |k: int| if single && k >= i { k + 1 } else { k };
    let to_room = |k: int| if single && k > i { k - 1 } else { k };
    assert forall|k: int| 0 <= k < after.len() implies (#[trigger] after[k]).id == r.rooms[from_room(k)].id
        && (has_member(after[k].members, conn) <==> has_member(r.rooms[from_room(k)].members, conn)) by {
        let k0 = from_room(k);
        if has_member(r.rooms[k0].members, conn) {
            let l0 = member_index(r.rooms[k0].members, conn);
            let l = if !single && k == i && l0 > j { l0 - 1 } else { l0 };
            assert(after[k].members[l].id == conn);
        }
    }
    if is_connected(r.rooms, conn) {
        let k0 = room_of(r.rooms, conn);
        assert(has_member(after[to_room(k0)].members, conn));
    }
    if is_member_of(after, id, conn) {
        let k = room_index(after, id);
        lemma_room_index(r, from_room(k));
    }
    if is_member_of(r.rooms, id, conn) {
        let k0 = room_index(r.rooms, id);
        lemma_room_index(ra, to_room(k0));
    }
}

/// An entry makes the newcomer a member of the room it enters and changes
/// nothing for the other connections.
pub proof fn lemma_entry_spares_others(r: RegistryView, room: Seq<char>, m: MemberView, conn: u64, id: Seq<char>)
    requires
        well_formed(r),
        room.len() > 0,
        !is_connected(r.rooms, m.id),
    ensures
        is_member_of(entered(r.rooms, room, m), room, m.id),
        conn != m.id ==> (is_connected(entered(r.rooms, room, m), conn) <==> is_connected(
            r.rooms,
            conn,
        )),
        conn != m.id ==> (is_member_of(entered(r.rooms, room, m), id, conn) <==> is_member_of(
            r.rooms,
            id,
            conn,
        )),
{
    let after = entered(r.rooms, room, m);
    let ra = RegistryView { rooms: after, next_batch: r.next_batch };
    lemma_entered(r, room, m);
    let grown = if has_room(r.rooms, room) {
        room_index(r.rooms, room)
    } else {
        r.rooms.len() as int
    };
    assert(after[grown].id == room);
    lemma_room_index(ra, grown);
    assert(after[grown].members[after[grown].members.len() - 1].id == m.id);
    if conn != m.id {
        assert forall|k: int| 0 <= k < r.rooms.len() implies (has_member(
            (#[trigger] after[k]).members,
            conn,
        ) <==> has_member(r.rooms[k].members, conn)) && after[k].id == r.rooms[k].id by {
            if has_member(after[k].members, conn) {
                let l = member_index(after[k].members, conn);
                assert(r.rooms[k].members[l].id == conn);
            }
            if has_member(r.rooms[k].members, conn) {
                let l = member_index(r.rooms[k].members, conn);
                assert(after[k].members[l].id == conn);
            }
        }
        if grown == r.rooms.len() {
            if has_member(after[grown].members, conn) {
                let l = member_index(after[grown].members, conn);
                assert(after[grown].members[l] == m);
            }
        }
        if is_connected(after, conn) {
            let k = room_of(after, conn);
            assert(has_member(r.rooms[k].members, conn));
        }
        if is_connected(r.rooms, conn) {
            let k = room_of(r.rooms, conn);
            assert(has_member(after[k].members, conn));
        }
        if is_member_of(after, id, conn) {
            let k = room_index(after, id);
            assert(r.rooms[k].id == id);
            lemma_room_index(r, k);
        }
        if is_member_of(r.rooms, id, conn) {
            let k = room_index(r.rooms, id);
            assert(after[k].id == id);
            lemma_room_index(ra, k);
        }
    }
}

/// A join puts the connection in the room it names, or in none if the name is
/// empty, and changes nothing for the other connections.
pub proof fn lemma_join_moves_one(r: RegistryView, m: MemberView, room: Seq<char>, conn: u64, id: Seq<char>)
    requires
        well_formed(r),
    ensures
        room.len() == 0 ==> !is_connected(joined(r.rooms, m, room), m.id),
        room.len() > 0 ==> is_member_of(joined(r.rooms, m, room), room, m.id),
        conn != m.id ==> (is_connected(joined(r.rooms, m, room), conn) <==> is_connected(r.rooms, conn)),
        conn != m.id ==> (is_member_of(joined(r.rooms, m, room), id, conn) <==> is_member_of(
            r.rooms,
            id,
            conn,
        )),
{
    lemma_joined(r, m, room);
    let between = RegistryView { rooms: vacated(r.rooms, m.id), next_batch: r.next_batch };
    if is_connected(r.rooms, m.id) {
        let i = room_of(r.rooms, m.id);
        let j = member_index(r.rooms[i].members, m.id);
        if conn != m.id {
            lemma_departure_spares_others(r, i, j, conn, id);
        }
    }
    if room.len() > 0 {
        lemma_entry_spares_others(between, room, record_of(r.rooms, m), conn, id);
    }
}

/// A leave takes the connection out of its room and changes nothing for the
/// other connections.
pub proof fn lemma_leave_moves_one(r: RegistryView, who: u64, room: Seq<char>, conn: u64, id: Seq<char>)
    requires
        well_formed(r),
    ensures
        is_member_of(r.rooms, room, who) ==> !is_connected(left(r.rooms, who, room), who),
        conn != who ==> (is_connected(left(r.rooms, who, room), conn) <==> is_connected(r.rooms, conn)),
        conn != who ==> (is_member_of(left(r.rooms, who, room), id, conn) <==> is_member_of(
            r.rooms,
            id,
            conn,
        )),
{
    lemma_left(r, who, room);
    if is_member_of(r.rooms, room, who) && conn != who {
        let i = room_index(r.rooms, room);
        let j = member_index(r.rooms[i].members, who);
        lemma_departure_spares_others(r, i, j, conn, id);
    }
}

/// Whatever a connection in step with the table is sent, it stays in step.
pub proof fn law_stays_in_step(c: ConnectionView, r: RegistryView, msg: MessageView, now: Clock, info: Seq<char>)
    requires
        well_formed(r),
        in_step(c, r),
    ensures
        well_formed(handled(c, r, msg, now, info).table),
        in_step(handled(c, r, msg, now, info).connection, handled(c, r, msg, now, info).table),
{
    let after = handled(c, r, msg, now, info);
    lemma_handled_well_formed(c, r, msg, now, info);
    match msg {
        MessageView::Join(room) => {
            if room != c.current_room {
                lemma_join_moves_one(r, c.member(), room, c.id, room);
            }
        },
        _ => {
            if after.table != r {
                lemma_handled_same_membership(c, r, msg, now, info);
                lemma_same_members(r, after.table, c.id, c.current_room);
            }
        },
    }
}

/// Whatever another connection is sent, this one stays in step with the
/// table: no connection is moved by what another one says.
pub proof fn law_others_stay_in_step(
    c: ConnectionView,
    other: ConnectionView,
    r: RegistryView,
    msg: MessageView,
    now: Clock,
    info: Seq<char>,
)
    requires
        well_formed(r),
        in_step(c, r),
        c.id != other.id,
    ensures
        in_step(c, handled(other, r, msg, now, info).table),
{
    let after = handled(other, r, msg, now, info);
    lemma_handled_well_formed(other, r, msg, now, info);
    match msg {
        MessageView::Join(room) => {
            if room != other.current_room {
                lemma_join_moves_one(r, other.member(), room, c.id, c.current_room);
            }
        },
        _ => {
            if after.table != r {
                lemma_handled_same_membership(other, r, msg, now, info);
                lemma_same_members(r, after.table, c.id, c.current_room);
            }
        },
    }
}

/// A connection that ends is a member of no room afterwards, and every other
/// connection stays where it was.
pub proof fn law_disconnect_leaves(c: ConnectionView, other: ConnectionView, r: RegistryView)
    requires
        well_formed(r),
        in_step(c, r),
        in_step(other, r),
        c.id != other.id,
    ensures
        c.current_room.len() > 0 ==> !is_connected(left(r.rooms, c.id, c.current_room), c.id)
            && in_step(
            other,
            RegistryView { rooms: left(r.rooms, c.id, c.current_room), next_batch: r.next_batch },
        ),
        c.current_room.len() == 0 ==> !is_connected(r.rooms, c.id),
{
    if c.current_room.len() > 0 {
        lemma_leave_moves_one(r, c.id, c.current_room, other.id, other.current_room);
    }
}

/// The firing of a timer moves no connection.
pub proof fn law_timers_move_no_one(c: ConnectionView, r: RegistryView, room: Seq<char>, batch: u64, to: u64)
    requires
        well_formed(r),
        in_step(c, r),
    ensures
        in_step(
            c,
            RegistryView { rooms: resume_fired(r.rooms, room, batch, to), next_batch: r.next_batch },
        ),
{
    let after = RegistryView { rooms: resume_fired(r.rooms, room, batch, to), next_batch: r.next_batch };
    lemma_resume_fired(r, room, batch, to);
    lemma_same_members(r, after, c.id, c.current_room);
}

/// A `Resume` from a connection in a room that has no batch pending, sent
/// while a token is left for the batch, has one `Resume` scheduled for every
/// member of that room and for no one else, each held back by the largest
/// latency in the room less the member's own; nothing is sent at once and
/// nothing is cancelled.
pub proof fn law_resume_is_scheduled_for_the_room(
    c: ConnectionView,
    r: RegistryView,
    now: Clock,
    info: Seq<char>,
)
    requires
        well_formed(r),
        c.current_room.len() > 0,
        can_schedule(r, c.current_room),
    ensures
        ({
            let members = r.rooms[room_index(r.rooms, c.current_room)].members;
            let after = handled(c, r, MessageView::Resume, now, info);
            &&& after.reaction.deliveries.len() == 0
            &&& after.reaction.cancelled is None
            &&& after.reaction.scheduled == resume_schedule(members, r.next_batch)
            &&& after.connection == c
            &&& pending_batch(after.table.rooms, c.current_room) == Some(r.next_batch)
        }),
{
    law_resume_request(r, c.current_room);
}

/// A `Pong` whose token is no timestamp, or a timestamp that lies after the
/// moment it arrives, is passed over: the connection and the table stay as
/// they are, the connection stays in its room, and nothing is sent.
pub proof fn law_bad_pong_is_passed_over(
    c: ConnectionView,
    r: RegistryView,
    token: Seq<char>,
    now: Clock,
    info: Seq<char>,
)
    requires
        rfc3339_instant(token) matches Some(sent) ==> nanos_between(sent, now.calendar) < 0,
    ensures
        handled(c, r, MessageView::Pong(token), now, info) == (Handled {
            connection: c,
            table: r,
            reaction: ReactionView::nothing(),
        }),
{
}

/// Every message leaves the table well formed.
pub proof fn lemma_handled_well_formed(c: ConnectionView, r: RegistryView, msg: MessageView, now: Clock, info: Seq<char>)
    requires
        well_formed(r),
    ensures
        well_formed(handled(c, r, msg, now, info).table),
{
    match msg {
        MessageView::Join(room) => lemma_joined(r, c.member(), room),
        MessageView::Resume => lemma_resume_requested(r, c.current_room),
        MessageView::AbsoluteSeek(_) => lemma_sought(r, c.current_room),
        MessageView::Pong(_) => {
            let after = handled(c, r, msg, now, info).table;
            if after != r {
                let rtt = choose|rtt: u64|
                    after == (RegistryView {
                        rooms: crate::registry::pong_recorded(r.rooms, c.id, rtt),
                        next_batch: r.next_batch,
                    });
                lemma_pong_recorded(r, c.id, rtt);
            }
        },
        _ => {},
    }
}

/// Every message but a join keeps every connection in its place.
pub proof fn lemma_handled_same_membership(
    c: ConnectionView,
    r: RegistryView,
    msg: MessageView,
    now: Clock,
    info: Seq<char>,
)
    requires
        well_formed(r),
        !(msg is Join),
    ensures
        same_membership(handled(c, r, msg, now, info).table.rooms, r.rooms),
{
    match msg {
        MessageView::Resume => lemma_resume_requested(r, c.current_room),
        MessageView::AbsoluteSeek(_) => lemma_sought(r, c.current_room),
        MessageView::Pong(_) => {
            let after = handled(c, r, msg, now, info).table;
            if after != r {
                let rtt = choose|rtt: u64|
                    after == (RegistryView {
                        rooms: crate::registry::pong_recorded(r.rooms, c.id, rtt),
                        next_batch: r.next_batch,
                    });
                lemma_pong_recorded(r, c.id, rtt);
            }
        },
        _ => {},
    }
}

} // verus!
