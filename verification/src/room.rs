//! One room of the relay: its members, the notices it sends them and its
//! pending batch of delayed resumes.

use crate::message::{chat_capable, supports_chat, MessageView, Version, VersionView, WsMessage};
use vstd::prelude::*;

verus! {

/// A connection's membership record.
#[derive(Clone, Debug, PartialEq, Eq)]
pub struct Member {
    /// The connection this record belongs to.
    pub id: u64,
    /// Estimated one-way delay from the relay to the member, in nanoseconds.
    pub latency: u64,
    /// The protocol version the connection had announced when it first joined.
    pub version: Version,
}

/// The mathematical content of a [`Member`].
pub struct MemberView {
    pub id: u64,
    pub latency: u64,
    pub version: VersionView,
}

impl View for Member {
    type V = MemberView;

    open spec fn view(&self) -> MemberView {
        MemberView { id: self.id, latency: self.latency, version: self.version@ }
    }
}

impl Member {
    /// An independent copy with the same content.
    pub fn duplicate(&self) -> (r: Member)
        ensures
            r@ == self@,
    {
        Member { id: self.id, latency: self.latency, version: self.version.duplicate() }
    }
}

/// A message for one connection.
#[derive(Clone, Debug, PartialEq, Eq)]
pub struct Delivery {
    pub to: u64,
    pub message: WsMessage,
}

/// The mathematical content of a [`Delivery`].
pub struct DeliveryView {
    pub to: u64,
    pub message: MessageView,
}

impl View for Delivery {
    type V = DeliveryView;

    open spec fn view(&self) -> DeliveryView {
        DeliveryView { to: self.to, message: self.message@ }
    }
}

/// The contents of a list of deliveries, in order.
pub open spec fn deliveries_view(v: Seq<Delivery>) -> Seq<DeliveryView> {
    v.map_values(|d: Delivery| d@)
}

/// A `Resume` that is to reach connection `to` once `delay` nanoseconds have
/// passed, unless batch `batch` has been cancelled by then.
#[derive(Clone, Copy, Debug, PartialEq, Eq, Structural)]
pub struct ScheduledResume {
    pub to: u64,
    pub delay: u64,
    pub batch: u64,
}

/// The delayed resumes of one request that have not fired yet.
#[derive(Clone, Debug, PartialEq, Eq)]
pub struct ResumeBatch {
    /// The token by which a firing timer names its batch.
    pub id: u64,
    /// The connections whose delayed `Resume` is still to come.
    pub outstanding: Vec<u64>,
}

/// The mathematical content of a [`ResumeBatch`].
pub struct BatchView {
    pub id: u64,
    pub outstanding: Seq<u64>,
}

impl View for ResumeBatch {
    type V = BatchView;

    open spec fn view(&self) -> BatchView {
        BatchView { id: self.id, outstanding: self.outstanding@ }
    }
}

/// A named group of connections that are kept in sync.
#[derive(Clone, Debug, PartialEq, Eq)]
pub struct Room {
    pub id: String,
    pub members: Vec<Member>,
    pub pending: Option<ResumeBatch>,
}

/// The mathematical content of a [`Room`].
pub struct RoomView {
    pub id: Seq<char>,
    pub members: Seq<MemberView>,
    pub pending: Option<BatchView>,
}

/// The contents of a list of members, in order.
pub open spec fn members_view(v: Seq<Member>) -> Seq<MemberView> {
    v.map_values(|m: Member| m@)
}

/// The content of an optional batch.
pub open spec fn pending_view(p: Option<ResumeBatch>) -> Option<BatchView> {
    match p {
        Some(b) => Some(b@),
        None => None,
    }
}

impl View for Room {
    type V = RoomView;

    open spec fn view(&self) -> RoomView {
        RoomView {
            id: self.id@,
            members: members_view(self.members@),
            pending: pending_view(self.pending),
        }
    }
}

/// The count that a `Party` message carries for a room of `n` members. The
/// message has room for 32 bits; a larger count is reported as the largest
/// value that fits.
pub open spec fn party_value(n: nat) -> u32 {
    if n <= u32::MAX {
        n as u32
    } else {
        u32::MAX
    }
}

/// One `Party` message for each member, carrying the number of members.
pub open spec fn party_notices(members: Seq<MemberView>) -> Seq<DeliveryView> {
    Seq::new(
        members.len(),
        |k: int|
            DeliveryView {
                to: members[k].id,
                message: MessageView::Party(party_value(members.len())),
            },
    )
}

/// The members that `message` goes to when it is sent to all that satisfy
/// `wanted`, each with its copy, in the order of the member list.
pub open spec fn notices_for(
    members: Seq<MemberView>,
    wanted: spec_fn(MemberView) -> bool,
    message: MessageView,
) -> Seq<DeliveryView>
    decreases members.len(),
{
    if members.len() == 0 {
        Seq::empty()
    } else {
        let before = notices_for(members.drop_last(), wanted, message);
        if wanted(members.last()) {
            before.push(DeliveryView { to: members.last().id, message })
        } else {
            before
        }
    }
}

/// An `AbsoluteSeek` for every member but the one who asked for it.
pub open spec fn seek_notices(members: Seq<MemberView>, time: i64, excluding: u64) -> Seq<
    DeliveryView,
> {
    notices_for(members, |m: MemberView| m.id != excluding, MessageView::AbsoluteSeek(time))
}

/// A `Chat` for every member whose version understands chat.
pub open spec fn chat_notices(members: Seq<MemberView>, text: Seq<char>) -> Seq<DeliveryView> {
    notices_for(members, |m: MemberView| chat_capable(m.version), MessageView::Chat(text))
}

/// The largest latency among the members; zero for an empty list.
pub open spec fn max_latency(members: Seq<MemberView>) -> u64
    decreases members.len(),
{
    if members.len() == 0 {
        0
    } else {
        let before = max_latency(members.drop_last());
        if members.last().latency > before {
            members.last().latency
        } else {
            before
        }
    }
}

/// The delayed resumes of batch `batch`: one for each member, held back by as
/// much as the member's latency falls short of the largest in the room.
pub open spec fn resume_schedule(members: Seq<MemberView>, batch: u64) -> Seq<ScheduledResume> {
    Seq::new(
        members.len(),
        |k: int|
            ScheduledResume {
                to: members[k].id,
                delay: (max_latency(members) - members[k].latency) as u64,
                batch,
            },
    )
}

/// The connection identifiers of the members, in order.
pub open spec fn member_ids(members: Seq<MemberView>) -> Seq<u64> {
    Seq::new(members.len(), |k: int| members[k].id)
}

/// Whether connection `conn` is among the members.
pub open spec fn has_member(members: Seq<MemberView>, conn: u64) -> bool {
    exists|j: int| 0 <= j < members.len() && #[trigger] members[j].id == conn
}

/// The place of connection `conn` in the member list, where it is a member.
pub open spec fn member_index(members: Seq<MemberView>, conn: u64) -> int {
    choose|j: int| 0 <= j < members.len() && #[trigger] members[j].id == conn
}

/// No connection occurs twice in the list.
pub open spec fn members_distinct(members: Seq<MemberView>) -> bool {
    forall|j: int, l: int|
        0 <= j < members.len() && 0 <= l < members.len() && #[trigger] members[j].id
            == #[trigger] members[l].id ==> j == l
}

/// No member's latency exceeds the room's largest, and a room with members has
/// one whose latency is the largest.
pub proof fn lemma_max_latency(members: Seq<MemberView>)
    ensures
        forall|k: int| 0 <= k < members.len() ==> #[trigger] members[k].latency <= max_latency(members),
        members.len() > 0 ==> exists|k: int|
            0 <= k < members.len() && #[trigger] members[k].latency == max_latency(members),
    decreases members.len(),
{
    if members.len() > 0 {
        let front = members.drop_last();
        lemma_max_latency(front);
        assert forall|k: int| 0 <= k < members.len() implies #[trigger] members[k].latency
            <= max_latency(members) by {
            if k < front.len() {
                assert(front[k] == members[k]);
            }
        }
        if members.last().latency > max_latency(front) || front.len() == 0 {
            assert(members[members.len() - 1].latency == max_latency(members));
        } else {
            let k = choose|k: int| 0 <= k < front.len() && #[trigger] front[k].latency == max_latency(front);
            assert(members[k] == front[k]);
            assert(members[k].latency == max_latency(members));
        }
    }
}

/// Every scheduled delay is the largest latency in the room less the member's
/// own, and so never negative; the member with the largest latency is not held
/// back at all.
pub proof fn law_resume_delays(members: Seq<MemberView>, batch: u64)
    ensures
        resume_schedule(members, batch).len() == members.len(),
        forall|k: int|
            0 <= k < members.len() ==> {
                let s = #[trigger] resume_schedule(members, batch)[k];
                &&& s.to == members[k].id
                &&& s.batch == batch
                &&& s.delay as int == max_latency(members) as int - members[k].latency as int
                &&& s.delay as int + members[k].latency as int == max_latency(members) as int
            },
        forall|k: int|
            0 <= k < members.len() ==> #[trigger] members[k].latency <= max_latency(members),
        members.len() > 0 ==> exists|k: int|
            0 <= k < members.len() && (#[trigger] resume_schedule(members, batch)[k]).delay == 0,
{
    lemma_max_latency(members);
    if members.len() > 0 {
        let k = choose|k: int| 0 <= k < members.len() && #[trigger] members[k].latency == max_latency(members);
        assert(resume_schedule(members, batch)[k].delay == 0);
    }
}

/// Whether `d` is `message` addressed to a member of `members` that satisfies
/// `wanted`.
pub open spec fn is_notice_for(
    d: DeliveryView,
    members: Seq<MemberView>,
    wanted: spec_fn(MemberView) -> bool,
    message: MessageView,
) -> bool {
    d.message == message && exists|j: int|
        0 <= j < members.len() && wanted(#[trigger] members[j]) && members[j].id == d.to
}

/// Whether `notices` holds something addressed to connection `conn`.
pub open spec fn reaches(notices: Seq<DeliveryView>, conn: u64) -> bool {
    exists|x: int| 0 <= x < notices.len() && (#[trigger] notices[x]).to == conn
}

/// A message that is sent to the members that satisfy `wanted` goes to them
/// and to no one else: every delivery carries the message to such a member,
/// and every such member is reached.
pub proof fn lemma_notices_for(
    members: Seq<MemberView>,
    wanted: spec_fn(MemberView) -> bool,
    message: MessageView,
)
    ensures
        forall|x: int|
            0 <= x < notices_for(members, wanted, message).len() ==> is_notice_for(
                #[trigger] notices_for(members, wanted, message)[x],
                members,
                wanted,
                message,
            ),
        forall|j: int|
            0 <= j < members.len() && wanted(#[trigger] members[j]) ==> reaches(
                notices_for(members, wanted, message),
                members[j].id,
            ),
        notices_for(members, wanted, message).len() <= members.len(),
    decreases members.len(),
{
    if members.len() > 0 {
        let front = members.drop_last();
        let all = notices_for(members, wanted, message);
        let before = notices_for(front, wanted, message);
        lemma_notices_for(front, wanted, message);
        assert forall|j: int| 0 <= j < members.len() && wanted(#[trigger] members[j]) implies reaches(
            all,
            members[j].id,
        ) by {
            if j < front.len() {
                let x = choose|x: int| 0 <= x < before.len() && (#[trigger] before[x]).to == front[j].id;
                assert(all[x] == before[x]);
            } else {
                assert(all[all.len() - 1].to == members[j].id);
            }
        }
    }
}

/// How [`notices_for`] grows when the member list is read one further.
pub proof fn lemma_notices_step(
    members: Seq<MemberView>,
    wanted: spec_fn(MemberView) -> bool,
    message: MessageView,
    k: int,
)
    requires
        0 <= k < members.len(),
    ensures
        notices_for(members.take(k + 1), wanted, message) == if wanted(members[k]) {
            notices_for(members.take(k), wanted, message).push(
                DeliveryView { to: members[k].id, message },
            )
        } else {
            notices_for(members.take(k), wanted, message)
        },
{
    assert(members.take(k + 1).drop_last() =~= members.take(k));
}

/// How [`max_latency`] grows when the member list is read one further.
pub proof fn lemma_max_latency_step(members: Seq<MemberView>, k: int)
    requires
        0 <= k < members.len(),
    ensures
        max_latency(members.take(k + 1)) == if members[k].latency > max_latency(members.take(k)) {
            members[k].latency
        } else {
            max_latency(members.take(k))
        },
{
    assert(members.take(k + 1).drop_last() =~= members.take(k));
}

impl Room {
    /// A room that holds one member and has no resume pending.
    pub fn open(id: String, first: Member) -> (room: Room)
        ensures
            room@ == (RoomView { id: id@, members: seq![first@], pending: None }),
    {
        let mut members: Vec<Member> = Vec::new();
        members.push(first);
        let room = Room { id, members, pending: None };
        assert(room@.members =~= seq![first@]);
        room
    }

    /// The place of connection `conn` in the member list.
    pub fn position_of(&self, conn: u64) -> (r: Option<usize>)
        ensures
            match r {
                Some(j) => j < self@.members.len() && self@.members[j as int].id == conn,
                None => !has_member(self@.members, conn),
            },
            members_distinct(self@.members) && r is Some ==> r->0 as int == member_index(
                self@.members,
                conn,
            ),
            r is Some <==> has_member(self@.members, conn),
    {
        let mut j: usize = 0;
        while j < self.members.len()
            invariant
                j <= self.members.len(),
                forall|l: int| 0 <= l < j ==> (#[trigger] self@.members[l]).id != conn,
            decreases self.members.len() - j,
        {
            if self.members[j].id == conn {
                assert(self@.members[j as int].id == conn);
                return Some(j);
            }
            j += 1;
        }
        None
    }

    /// A `Party` message for every member, carrying the number of members.
    pub fn party_notices(&self) -> (out: Vec<Delivery>)
        ensures
            deliveries_view(out@) == party_notices(self@.members),
    {
        let n = self.members.len();
        let count: u32 = if n <= u32::MAX as usize {
            n as u32
        } else {
            u32::MAX
        };
        let mut out: Vec<Delivery> = Vec::new();
        let mut k: usize = 0;
        while k < n
            invariant
                k <= n,
                n == self.members.len(),
                count == party_value(n as nat),
                out.len() == k,
                forall|l: int|
                    0 <= l < k ==> (#[trigger] out[l])@ == (DeliveryView {
                        to: self@.members[l].id,
                        message: MessageView::Party(count),
                    }),
            decreases n - k,
        {
            out.push(Delivery { to: self.members[k].id, message: WsMessage::Party(count) });
            k += 1;
        }
        out
    }

    /// An `AbsoluteSeek` to `time` for every member but `excluding`.
    pub fn seek_notices(&self, time: i64, excluding: u64) -> (out: Vec<Delivery>)
        ensures
            deliveries_view(out@) == seek_notices(self@.members, time, excluding),
    {
        let ghost wanted = |m: MemberView| m.id != excluding;
        let ghost message = MessageView::AbsoluteSeek(time);
        let mut out: Vec<Delivery> = Vec::new();
        let mut k: usize = 0;
        while k < self.members.len()
            invariant
                k <= self.members.len(),
                wanted == (|m: MemberView| m.id != excluding),
                message == MessageView::AbsoluteSeek(time),
                deliveries_view(out@) == notices_for(self@.members.take(k as int), wanted, message),
            decreases self.members.len() - k,
        {
            proof {
                lemma_notices_step(self@.members, wanted, message, k as int);
            }
            if self.members[k].id != excluding {
                out.push(Delivery { to: self.members[k].id, message: WsMessage::AbsoluteSeek(time) });
            }
            k += 1;
        }
        assert(self@.members.take(k as int) =~= self@.members);
        out
    }

    /// A `Chat` carrying `text` for every member whose version understands chat.
    pub fn chat_notices(&self, text: &String) -> (out: Vec<Delivery>)
        ensures
            deliveries_view(out@) == chat_notices(self@.members, text@),
    {
        let ghost wanted = |m: MemberView| chat_capable(m.version);
        let ghost message = MessageView::Chat(text@);
        let mut out: Vec<Delivery> = Vec::new();
        let mut k: usize = 0;
        while k < self.members.len()
            invariant
                k <= self.members.len(),
                wanted == (|m: MemberView| chat_capable(m.version)),
                message == MessageView::Chat(text@),
                deliveries_view(out@) == notices_for(self@.members.take(k as int), wanted, message),
            decreases self.members.len() - k,
        {
            proof {
                lemma_notices_step(self@.members, wanted, message, k as int);
            }
            if supports_chat(&self.members[k].version) {
                out.push(Delivery { to: self.members[k].id, message: WsMessage::Chat(text.clone()) });
            }
            k += 1;
        }
        assert(self@.members.take(k as int) =~= self@.members);
        out
    }

    /// The largest latency among the members.
    pub fn max_latency(&self) -> (r: u64)
        ensures
            r == max_latency(self@.members),
    {
        let mut best: u64 = 0;
        let mut k: usize = 0;
        while k < self.members.len()
            invariant
                k <= self.members.len(),
                best == max_latency(self@.members.take(k as int)),
            decreases self.members.len() - k,
        {
            proof {
                lemma_max_latency_step(self@.members, k as int);
            }
            if self.members[k].latency > best {
                best = self.members[k].latency;
            }
            k += 1;
        }
        assert(self@.members.take(k as int) =~= self@.members);
        best
    }

    /// The delayed resumes of batch `batch`, one for each member.
    pub fn resume_schedule(&self, batch: u64) -> (out: Vec<ScheduledResume>)
        ensures
            out@ == resume_schedule(self@.members, batch),
    {
        let highest = self.max_latency();
        proof {
            lemma_max_latency(self@.members);
        }
        let mut out: Vec<ScheduledResume> = Vec::new();
        let mut k: usize = 0;
        while k < self.members.len()
            invariant
                k <= self.members.len(),
                highest == max_latency(self@.members),
                forall|l: int|
                    0 <= l < self@.members.len() ==> (#[trigger] self@.members[l]).latency <= highest,
                out.len() == k,
                forall|l: int| 0 <= l < k ==> #[trigger] out[l] == resume_schedule(self@.members, batch)[l],
            decreases self.members.len() - k,
        {
            assert(self@.members[k as int].latency <= highest);
            out.push(
                ScheduledResume {
                    to: self.members[k].id,
                    delay: highest - self.members[k].latency,
                    batch,
                },
            );
            k += 1;
        }
        out
    }

    /// The connection identifiers of the members, in order.
    pub fn member_ids(&self) -> (out: Vec<u64>)
        ensures
            out@ == member_ids(self@.members),
    {
        let mut out: Vec<u64> = Vec::new();
        let mut k: usize = 0;
        while k < self.members.len()
            invariant
                k <= self.members.len(),
                out.len() == k,
                forall|l: int| 0 <= l < k ==> #[trigger] out[l] == self@.members[l].id,
            decreases self.members.len() - k,
        {
            out.push(self.members[k].id);
            k += 1;
        }
        out
    }
}

} // verus!
