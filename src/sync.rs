use vstd::prelude::*;
use crate::event::{Event, EventModel, GroupChatId, PeerId};
use crate::log::{EventLog, LogError};
use crate::protocol::LayerEvent;

verus! {

/// An added member of a delta: height, member id, name, avatar.
pub type JoinEntry = (i64, PeerId, String, Vec<u8>);

/// A leaved member of a delta: height, member id.
pub type LeaveEntry = (i64, PeerId);

/// An added message of a delta: height, member id, message, time.
pub type MessageEntry = (i64, PeerId, Vec<u8>, i64);

/// Which of the three delta lists an event goes to.
pub open spec fn kind_of(e: EventModel) -> int {
    match e {
        EventModel::Join(..) => 0,
        EventModel::Leave(..) => 1,
        EventModel::Message(..) => 2,
    }
}

/// The events of kind `k` at heights `lo + 1` to `hi` of log `s`, each with
/// its height, in height order.
pub open spec fn picks(s: Seq<EventModel>, lo: int, hi: int, k: int) -> Seq<(int, EventModel)>
    decreases hi - lo,
{
    if hi <= lo {
        Seq::empty()
    } else if kind_of(s[hi - 1]) == k {
        picks(s, lo, hi - 1, k).push((hi, s[hi - 1]))
    } else {
        picks(s, lo, hi - 1, k)
    }
}

/// The added-members list as heights and events.
pub open spec fn joins_model(v: Seq<JoinEntry>) -> Seq<(int, EventModel)> {
    v.map_values(|t: JoinEntry| (t.0 as int, EventModel::Join(t.1@, t.2@, t.3@)))
}

/// The leaved-members list as heights and events.
pub open spec fn leaves_model(v: Seq<LeaveEntry>) -> Seq<(int, EventModel)> {
    v.map_values(|t: LeaveEntry| (t.0 as int, EventModel::Leave(t.1@)))
}

/// The messages list as heights and events.
pub open spec fn messages_model(v: Seq<MessageEntry>) -> Seq<(int, EventModel)> {
    v.map_values(|t: MessageEntry| (t.0 as int, EventModel::Message(t.1@, t.2@, t.3 as int)))
}

/// The last height a requester already holds, as the delta counts it.
pub open spec fn delta_base(from: int) -> int {
    if from < 0 { 0 } else { from }
}

/// The reply to `SyncReq(gcd, from)`: the joins, leaves and messages of the
/// log at heights after `from` up to the current height, which is also the
/// reply's current and `to` height. A requester at or past the current height
/// gets empty lists.
pub fn sync_response(log: &EventLog, gcd: GroupChatId, from: i64) -> (r: LayerEvent)
    requires
        log.wf(),
    ensures
        r matches LayerEvent::SyncRes(g, cur, f, to, adds, leaves, msgs) && {
            &&& g == gcd
            &&& cur == log@.len()
            &&& f == from
            &&& to == log@.len()
            &&& joins_model(adds@) == picks(log@, delta_base(from as int), log@.len() as int, 0)
            &&& leaves_model(leaves@) == picks(log@, delta_base(from as int), log@.len() as int, 1)
            &&& messages_model(msgs@) == picks(log@, delta_base(from as int), log@.len() as int, 2)
        },
{
    let cur = log.current_height();
    let base: i64 = if from < 0 { 0 } else { from };
    let mut adds: Vec<JoinEntry> = Vec::new();
    let mut leaves: Vec<LeaveEntry> = Vec::new();
    let mut msgs: Vec<MessageEntry> = Vec::new();
    let mut h: i64 = base;
    while h < cur
        invariant
            base <= h,
            base == delta_base(from as int),
            base >= cur ==> h == base,
            base < cur ==> h <= cur,
            cur == log@.len(),
            log.wf(),
            joins_model(adds@) == picks(log@, base as int, h as int, 0),
            leaves_model(leaves@) == picks(log@, base as int, h as int, 1),
            messages_model(msgs@) == picks(log@, base as int, h as int, 2),
        decreases cur - h,
    {
        let ghost s = log@;
        let ghost (a0, l0, m0) = (adds@, leaves@, msgs@);
        let height = h + 1;
        match log.event_at(height) {
            Event::MemberJoin(id, name, avatar) => {
                adds.push((height, *id, name.clone(), crate::event::bytes_copy(avatar)));
                assert(joins_model(adds@) =~= joins_model(a0).push((height as int, s[height - 1])));
            },
            Event::MemberLeave(id) => {
                leaves.push((height, *id));
                assert(leaves_model(leaves@) =~= leaves_model(l0).push((height as int, s[height - 1])));
            },
            Event::MessageCreate(id, msg, time) => {
                msgs.push((height, *id, crate::event::bytes_copy(msg), *time));
                assert(messages_model(msgs@) =~= messages_model(m0).push((height as int, s[height - 1])));
            },
        }
        assert(joins_model(adds@) == picks(s, base as int, height as int, 0));
        assert(leaves_model(leaves@) == picks(s, base as int, height as int, 1));
        assert(messages_model(msgs@) == picks(s, base as int, height as int, 2));
        h = height;
    }
    proof {
        if base >= cur {
            assert(picks(log@, base as int, h as int, 0) == picks(log@, base as int, cur as int, 0));
        }
    }
    LayerEvent::SyncRes(gcd, cur, from, cur, adds, leaves, msgs)
}

/// Replaying a delta onto a log at height `h` that should reach height `to`:
/// at each next height the head of whichever list (`a` from `i`, `b` from `j`,
/// `c` from `k`) carries that height. Gives the events taken, in height order,
/// and whether every height up to `to` was found and every entry consumed.
pub open spec fn replay(
    a: Seq<(int, EventModel)>,
    b: Seq<(int, EventModel)>,
    c: Seq<(int, EventModel)>,
    i: int,
    j: int,
    k: int,
    h: int,
    to: int,
) -> (Seq<EventModel>, bool)
    decreases to - h,
{
    if h >= to {
        (Seq::empty(), i == a.len() && j == b.len() && k == c.len())
    } else if 0 <= i < a.len() && a[i].0 == h + 1 {
        let w = replay(a, b, c, i + 1, j, k, h + 1, to);
        (seq![a[i].1] + w.0, w.1)
    } else if 0 <= j < b.len() && b[j].0 == h + 1 {
        let w = replay(a, b, c, i, j + 1, k, h + 1, to);
        (seq![b[j].1] + w.0, w.1)
    } else if 0 <= k < c.len() && c[k].0 == h + 1 {
        let w = replay(a, b, c, i, j, k + 1, h + 1, to);
        (seq![c[k].1] + w.0, w.1)
    } else {
        (Seq::empty(), false)
    }
}

/// Applies a `SyncRes` with heights `from` and `to` and its three lists.
/// When `from` is not the local height any more, nothing is applied and the
/// request to send again, from the local height, is returned. Otherwise the
/// entries are applied in height order; a missing height or an entry left
/// over is `OutOfOrder`, with the heights before it kept.
pub fn apply_sync_res(
    log: &mut EventLog,
    gcd: GroupChatId,
    from: i64,
    to: i64,
    adds: &Vec<JoinEntry>,
    leaves: &Vec<LeaveEntry>,
    msgs: &Vec<MessageEntry>,
) -> (r: Result<Option<LayerEvent>, LogError>)
    requires
        old(log).wf(),
    ensures
        final(log).wf(),
        from != old(log)@.len() ==> final(log)@ == old(log)@ && (r matches Ok(Some(LayerEvent::SyncReq(g, h)))
            && g == gcd && h == old(log)@.len()),
        from == old(log)@.len() && to < from ==> final(log)@ == old(log)@ && r == Err::<Option<LayerEvent>, LogError>(
            LogError::InvalidRange,
        ),
        from == old(log)@.len() && to >= from ==> {
            let w = replay(
                joins_model(adds@),
                leaves_model(leaves@),
                messages_model(msgs@),
                0,
                0,
                0,
                from as int,
                to as int,
            );
            &&& final(log)@ == old(log)@ + w.0
            &&& w.1 ==> (r matches Ok(None))
            &&& !w.1 ==> r == Err::<Option<LayerEvent>, LogError>(LogError::OutOfOrder)
        },
{
    let cur = log.current_height();
    if from != cur {
        return Ok(Some(LayerEvent::SyncReq(gcd, cur)));
    }
    if to < from {
        return Err(LogError::InvalidRange);
    }
    let ghost a = joins_model(adds@);
    let ghost b = leaves_model(leaves@);
    let ghost c = messages_model(msgs@);
    let ghost w0 = replay(a, b, c, 0, 0, 0, from as int, to as int);
    let mut i: usize = 0;
    let mut j: usize = 0;
    let mut k: usize = 0;
    let mut h: i64 = from;
    assert(log@.subrange(from as int, h as int) + replay(a, b, c, 0, 0, 0, h as int, to as int).0 =~= w0.0);
    while h < to
        invariant
            log.wf(),
            from == old(log)@.len(),
            from <= h <= to,
            log@.len() == h,
            log@.subrange(0, from as int) == old(log)@,
            i <= adds@.len(),
            j <= leaves@.len(),
            k <= msgs@.len(),
            a == joins_model(adds@),
            b == leaves_model(leaves@),
            c == messages_model(msgs@),
            w0 == replay(a, b, c, 0, 0, 0, from as int, to as int),
            w0.0 == log@.subrange(from as int, h as int) + replay(a, b, c, i as int, j as int, k as int, h as int, to as int).0,
            w0.1 == replay(a, b, c, i as int, j as int, k as int, h as int, to as int).1,
        decreases to - h,
    {
        let next = h + 1;
        let ghost before = log@;
        let ghost w = replay(a, b, c, i as int, j as int, k as int, h as int, to as int);
        let e: Event;
        if i < adds.len() && adds[i].0 == next {
            e = Event::MemberJoin(adds[i].1, adds[i].2.clone(), crate::event::bytes_copy(&adds[i].3));
            assert(e@ == a[i as int].1);
            i = i + 1;
        } else if j < leaves.len() && leaves[j].0 == next {
            e = Event::MemberLeave(leaves[j].1);
            assert(e@ == b[j as int].1);
            j = j + 1;
        } else if k < msgs.len() && msgs[k].0 == next {
            e = Event::MessageCreate(msgs[k].1, crate::event::bytes_copy(&msgs[k].2), msgs[k].3);
            assert(e@ == c[k as int].1);
            k = k + 1;
        } else {
            proof {
                assert(log@ =~= old(log)@ + w0.0);
            }
            return Err(LogError::OutOfOrder);
        }
        let _ = log.apply_remote(next, e);
        h = next;
        proof {
            let w1 = replay(a, b, c, i as int, j as int, k as int, h as int, to as int);
            assert(w.0 == seq![e@] + w1.0);
            assert(log@ == before.push(e@));
            assert(log@.subrange(from as int, h as int) =~= before.subrange(from as int, h - 1).push(e@));
            assert(log@.subrange(0, from as int) =~= before.subrange(0, from as int));
            assert(w0.0 =~= log@.subrange(from as int, h as int) + w1.0);
        }
    }
    proof {
        assert(log@ =~= log@.subrange(0, from as int) + log@.subrange(from as int, h as int));
        assert(w0.0 =~= log@.subrange(from as int, h as int));
    }
    if i == adds.len() && j == leaves.len() && k == msgs.len() {
        Ok(None)
    } else {
        Err(LogError::OutOfOrder)
    }
}

/// The picks up to `m` are a prefix of the picks up to `n`, and every entry
/// after that prefix lies above `m`.
proof fn lemma_picks_prefix(s: Seq<EventModel>, lo: int, m: int, n: int, k: int)
    requires
        lo <= m <= n,
    ensures
        picks(s, lo, m, k).len() <= picks(s, lo, n, k).len(),
        picks(s, lo, n, k).subrange(0, picks(s, lo, m, k).len() as int) == picks(s, lo, m, k),
        forall|x: int| picks(s, lo, m, k).len() <= x < picks(s, lo, n, k).len() ==> (#[trigger] picks(s, lo, n, k)[x]).0 > m,
    decreases n - m,
{
    if n > m {
        lemma_picks_prefix(s, lo, m, n - 1, k);
        let p = picks(s, lo, n - 1, k);
        let q = picks(s, lo, n, k);
        assert(q.subrange(0, picks(s, lo, m, k).len() as int) =~= p.subrange(0, picks(s, lo, m, k).len() as int));
    } else {
        assert(picks(s, lo, n, k).subrange(0, picks(s, lo, m, k).len() as int) =~= picks(s, lo, m, k));
    }
}

/// Replaying the three lists of log `s` after height `f`, from height `h`
/// with the entries below `h` consumed, gives the log's events after `h`.
proof fn lemma_replay_picks(s: Seq<EventModel>, f: int, h: int, n: int)
    requires
        0 <= f <= h <= n <= s.len(),
    ensures
        replay(
            picks(s, f, n, 0),
            picks(s, f, n, 1),
            picks(s, f, n, 2),
            picks(s, f, h, 0).len() as int,
            picks(s, f, h, 1).len() as int,
            picks(s, f, h, 2).len() as int,
            h,
            n,
        ) == (s.subrange(h, n), true),
    decreases n - h,
{
    let a = picks(s, f, n, 0);
    let b = picks(s, f, n, 1);
    let c = picks(s, f, n, 2);
    lemma_picks_prefix(s, f, h, n, 0);
    lemma_picks_prefix(s, f, h, n, 1);
    lemma_picks_prefix(s, f, h, n, 2);
    if h == n {
        assert(s.subrange(h, n) =~= Seq::<EventModel>::empty());
    } else {
        lemma_picks_prefix(s, f, h + 1, n, 0);
        lemma_picks_prefix(s, f, h + 1, n, 1);
        lemma_picks_prefix(s, f, h + 1, n, 2);
        lemma_replay_picks(s, f, h + 1, n);
        let i = picks(s, f, h, 0).len() as int;
        let j = picks(s, f, h, 1).len() as int;
        let k = picks(s, f, h, 2).len() as int;
        let e = s[h];
        assert(s.subrange(h, n) =~= seq![e] + s.subrange(h + 1, n));
        if kind_of(e) == 0 {
            assert(a[i] == picks(s, f, h + 1, 0)[i]);
        } else if kind_of(e) == 1 {
            assert(i < a.len() ==> a[i].0 > h + 1);
            assert(b[j] == picks(s, f, h + 1, 1)[j]);
        } else {
            assert(i < a.len() ==> a[i].0 > h + 1);
            assert(j < b.len() ==> b[j].0 > h + 1);
            assert(c[k] == picks(s, f, h + 1, 2)[k]);
        }
    }
}

/// A requester whose log is at height `f` and that applies the reply computed
/// from a log at height `f` or above completes it, and then holds at heights
/// after `f` exactly the events of the replying log.
pub proof fn lemma_sync_round_trip(requester: Seq<EventModel>, host: Seq<EventModel>, f: int)
    requires
        0 <= f,
        requester.len() == f,
        f <= host.len(),
    ensures
        ({
            let n = host.len() as int;
            let w = replay(
                picks(host, delta_base(f), n, 0),
                picks(host, delta_base(f), n, 1),
                picks(host, delta_base(f), n, 2),
                0,
                0,
                0,
                f,
                n,
            );
            &&& w.1
            &&& (requester + w.0).len() == n
            &&& (requester + w.0).subrange(f, n) == host.subrange(f, n)
        }),
{
    let n = host.len() as int;
    lemma_replay_picks(host, f, f, n);
    let w = replay(picks(host, f, n, 0), picks(host, f, n, 1), picks(host, f, n, 2), 0, 0, 0, f, n);
    assert((requester + w.0).subrange(f, n) =~= host.subrange(f, n));
}

} // verus!
