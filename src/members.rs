use vstd::prelude::*;
use crate::event::{bytes_copy, Event, EventModel, PeerId};
use crate::log::EventLog;
use crate::sync::picks;

verus! {

/// A member as the log records it: id, height of the join, display name,
/// avatar, and the height at which the member left, if it did.
#[derive(Debug)]
pub struct MemberRecord {
    pub id: PeerId,
    pub joined: i64,
    pub name: String,
    pub avatar: Vec<u8>,
    pub left: Option<i64>,
}

/// A member record as plain values.
pub type MemberModel = (Seq<u8>, int, Seq<char>, Seq<u8>, Option<int>);

impl View for MemberRecord {
    type V = MemberModel;

    open spec fn view(&self) -> MemberModel {
        (
            self.id@,
            self.joined as int,
            self.name@,
            self.avatar@,
            match self.left {
                Some(h) => Some(h as int),
                None => None,
            },
        )
    }
}

/// The height of the first `MemberLeave` of member `id` in log `s` at a
/// height above `h`.
pub open spec fn first_leave(s: Seq<EventModel>, id: Seq<u8>, h: int) -> Option<int>
    decreases s.len() - h,
{
    if h >= s.len() {
        None
    } else if s[h] == EventModel::Leave(id) {
        Some(h + 1)
    } else {
        first_leave(s, id, h + 1)
    }
}

/// The record of the join at height `h` with event `e` of log `s`.
pub open spec fn record_of(s: Seq<EventModel>, h: int, e: EventModel) -> MemberModel {
    match e {
        EventModel::Join(id, name, avatar) => (id, h, name, avatar, first_leave(s, id, h)),
        _ => (Seq::empty(), h, Seq::empty(), Seq::empty(), None),
    }
}

/// The height of the first leave of `id` above height `h`.
fn leave_height(log: &EventLog, id: &PeerId, h: i64) -> (r: Option<i64>)
    requires
        log.wf(),
        0 <= h <= log@.len(),
    ensures
        (match r {
            Some(x) => Some(x as int),
            None => None,
        }) == first_leave(log@, id@, h as int),
{
    let n = log.current_height();
    let mut g: i64 = h;
    while g < n
        invariant
            0 <= h <= g <= n,
            n == log@.len(),
            log.wf(),
            first_leave(log@, id@, h as int) == first_leave(log@, id@, g as int),
        decreases n - g,
    {
        if let Event::MemberLeave(p) = log.event_at(g + 1) {
            if p.same(id) {
                return Some(g + 1);
            }
        }
        g = g + 1;
    }
    None
}

/// The member records of a log, one per `MemberJoin` in height order, each
/// with the first leave of that member after its join.
pub fn members(log: &EventLog) -> (r: Vec<MemberRecord>)
    requires
        log.wf(),
    ensures
        r@.len() == picks(log@, 0, log@.len() as int, 0).len(),
        forall|i: int| 0 <= i < r@.len() ==> (#[trigger] r@[i])@ == record_of(
            log@,
            picks(log@, 0, log@.len() as int, 0)[i].0,
            picks(log@, 0, log@.len() as int, 0)[i].1,
        ),
{
    let n = log.current_height();
    let mut out: Vec<MemberRecord> = Vec::new();
    let mut h: i64 = 0;
    while h < n
        invariant
            0 <= h <= n,
            n == log@.len(),
            log.wf(),
            out@.len() == picks(log@, 0, h as int, 0).len(),
            forall|i: int| 0 <= i < out@.len() ==> (#[trigger] out@[i])@ == record_of(
                log@,
                picks(log@, 0, h as int, 0)[i].0,
                picks(log@, 0, h as int, 0)[i].1,
            ),
        decreases n - h,
    {
        let ghost before = picks(log@, 0, h as int, 0);
        let height = h + 1;
        if let Event::MemberJoin(id, name, avatar) = log.event_at(height) {
            let left = leave_height(log, id, height);
            out.push(MemberRecord { id: *id, joined: height, name: name.clone(), avatar: bytes_copy(avatar), left });
        }
        assert forall|i: int| 0 <= i < out@.len() implies (#[trigger] out@[i])@ == record_of(
            log@,
            picks(log@, 0, height as int, 0)[i].0,
            picks(log@, 0, height as int, 0)[i].1,
        ) by {
            if i < before.len() {
                assert(picks(log@, 0, height as int, 0)[i] == before[i]);
            }
        }
        h = height;
    }
    out
}

} // verus!
