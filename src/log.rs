use vstd::prelude::*;
use crate::event::{Event, EventModel};

verus! {

/// Why an operation on the event log was refused.
#[derive(Debug, PartialEq, Eq, Structural, Clone, Copy)]
pub enum LogError {
    /// A height that does not follow the log's sequence.
    OutOfOrder,
    /// A malformed range request.
    InvalidRange,
    /// Different content is already recorded at that height.
    ConflictingHistory,
}

/// The ordered log of one group: the event at height `h` (from 1) is the
/// `h - 1`-th entry, so heights run from 1 to the current height with no gap.
pub struct EventLog {
    events: Vec<Event>,
}

/// Outcome of inserting event `e` at height `h` into log `s`.
pub open spec fn apply_result(s: Seq<EventModel>, h: int, e: EventModel) -> Result<(), LogError> {
    if 1 <= h <= s.len() {
        if s[h - 1] == e {
            Ok(())
        } else {
            Err(LogError::ConflictingHistory)
        }
    } else if h == s.len() + 1 {
        Ok(())
    } else {
        Err(LogError::OutOfOrder)
    }
}

/// The log after inserting event `e` at height `h` into log `s`.
pub open spec fn apply_log(s: Seq<EventModel>, h: int, e: EventModel) -> Seq<EventModel> {
    if h == s.len() + 1 {
        s.push(e)
    } else {
        s
    }
}

/// The heights of `read_range(from, to)`: from `max(from, 1)` to `to`.
pub open spec fn range_start(from: int) -> int {
    if from < 1 { 1 } else { from }
}

/// Inserting the same event at the same height twice leaves the log as one
/// insertion does, and the second insertion succeeds whenever the first did.
pub proof fn lemma_apply_idempotent(s: Seq<EventModel>, h: int, e: EventModel)
    ensures
        apply_log(apply_log(s, h, e), h, e) == apply_log(s, h, e),
        apply_result(s, h, e) is Ok ==> apply_result(apply_log(s, h, e), h, e) is Ok,
{
    if h == s.len() + 1 {
        assert(apply_log(s, h, e)[h - 1] == e);
    }
}

impl View for EventLog {
    type V = Seq<EventModel>;

    closed spec fn view(&self) -> Seq<EventModel> {
        self.events@.map_values(|e: Event| e@)
    }
}

impl EventLog {
    /// Heights fit in an `i64`.
    pub open spec fn wf(&self) -> bool {
        self@.len() <= i64::MAX
    }

    /// An empty log, at height 0.
    pub fn new() -> (r: EventLog)
        ensures
            r.wf(),
            r@ == Seq::<EventModel>::empty(),
    {
        let r = EventLog { events: Vec::new() };
        assert(r@ =~= Seq::<EventModel>::empty());
        r
    }

    /// The height of the last event, 0 for an empty log.
    pub fn current_height(&self) -> (r: i64)
        requires
            self.wf(),
        ensures
            r == self@.len(),
    {
        self.events.len() as i64
    }

    /// The event at height `h`.
    pub fn event_at(&self, h: i64) -> (r: &Event)
        requires
            1 <= h <= self@.len(),
        ensures
            r@ == self@[h - 1],
    {
        assert(self@.len() == self.events@.len());
        assert(self@[h - 1] == self.events@[h - 1]@);
        let len: usize = self.events.len();
        assert(h - 1 < len);
        &self.events[(h - 1) as usize]
    }

    /// Appends an event at the next height and returns that height.
    pub fn append(&mut self, e: Event) -> (r: i64)
        requires
            old(self).wf(),
            old(self)@.len() < i64::MAX,
        ensures
            final(self).wf(),
            final(self)@ == old(self)@.push(e@),
            r == final(self)@.len(),
    {
        self.events.push(e);
        assert(self@ =~= old(self)@.push(e@));
        self.events.len() as i64
    }

    /// Inserts an event that a remote peer recorded at height `h`. An event
    /// already at `h` must have identical content, and then nothing changes;
    /// `h` one past the current height appends; any other height is out of
    /// order.
    pub fn apply_remote(&mut self, h: i64, e: Event) -> (r: Result<(), LogError>)
        requires
            old(self).wf(),
        ensures
            final(self).wf(),
            r == apply_result(old(self)@, h as int, e@),
            final(self)@ == apply_log(old(self)@, h as int, e@),
    {
        let cur = self.current_height();
        if 1 <= h && h <= cur {
            if self.event_at(h).same_content(&e) {
                Ok(())
            } else {
                Err(LogError::ConflictingHistory)
            }
        } else if cur < i64::MAX && h == cur + 1 {
            self.append(e);
            Ok(())
        } else {
            Err(LogError::OutOfOrder)
        }
    }

    /// The events at heights `max(from, 1)` to `to`, inclusive, each with its
    /// height, in increasing height order. Refused when `from > to` or when
    /// `to` is past the current height.
    pub fn read_range(&self, from: i64, to: i64) -> (r: Result<Vec<(i64, Event)>, LogError>)
        requires
            self.wf(),
        ensures
            r is Err <==> (from > to || to > self@.len()),
            r is Err ==> r == Err::<Vec<(i64, Event)>, LogError>(LogError::InvalidRange),
            r matches Ok(v) ==> {
                &&& v@.len() == if to < range_start(from as int) { 0 } else { to - range_start(from as int) + 1 }
                &&& forall|i: int| 0 <= i < v@.len() ==>
                    (#[trigger] v@[i]).0 == range_start(from as int) + i
                    && v@[i].1@ == self@[range_start(from as int) + i - 1]
            },
    {
        if from > to || to > self.current_height() {
            return Err(LogError::InvalidRange);
        }
        let start: i64 = if from < 1 { 1 } else { from };
        let mut out: Vec<(i64, Event)> = Vec::new();
        if to < start {
            return Ok(out);
        }
        assert(self@.len() == self.events@.len());
        let n: usize = self.events.len();
        assert(to <= n);
        let last: usize = to as usize;
        let mut idx: usize = (start - 1) as usize;
        while idx < last
            invariant
                last == to,
                start - 1 <= idx <= to,
                start == range_start(from as int),
                1 <= start,
                to <= self@.len(),
                self.wf(),
                out@.len() == idx - (start - 1),
                forall|i: int| 0 <= i < out@.len() ==>
                    (#[trigger] out@[i]).0 == start + i && out@[i].1@ == self@[start + i - 1],
            decreases to - idx,
        {
            let e = self.event_at((idx + 1) as i64).duplicate();
            out.push(((idx + 1) as i64, e));
            idx = idx + 1;
        }
        Ok(out)
    }
}

} // verus!
