use vstd::prelude::*;
use crate::event::{EventModel, GroupChatId, PeerId};
use crate::log::{apply_log, apply_result, EventLog, LogError};
use crate::presence::Presence;
use crate::protocol::{LayerEvent, LayerResult};
use crate::sync::{
    apply_sync_res, delta_base, joins_model, leaves_model, messages_model, picks, replay, sync_response,
};

verus! {

/// Lifecycle of a group session.
#[derive(Debug, PartialEq, Eq, Structural, Clone, Copy)]
pub enum Lifecycle {
    Active,
    Suspended,
    Offline,
    Closed,
}

/// Why a session or the registry refused a message.
#[derive(Debug, PartialEq, Eq, Structural, Clone, Copy)]
pub enum SessionError {
    /// The join proof was rejected by the verifier.
    InvalidProof,
    /// No session exists for the group.
    UnknownGroup,
    /// The group was closed.
    GroupClosed,
    /// The group's event log refused the operation.
    Log(LogError),
}

/// One group chat: its lifecycle, name, event log and presence.
pub struct GroupSession {
    pub id: GroupChatId,
    pub state: Lifecycle,
    pub name: String,
    pub log: EventLog,
    pub presence: Presence,
}

/// The set of member ids a list names.
pub open spec fn ids_of(v: Seq<PeerId>) -> Set<Seq<u8>> {
    Set::new(|x: Seq<u8>| exists|i: int| 0 <= i < v.len() && (#[trigger] v[i])@ == x)
}

/// The log error as a session error.
pub open spec fn lift(r: Result<(), LogError>) -> Result<Option<LayerEvent>, SessionError> {
    match r {
        Ok(()) => Ok(None),
        Err(e) => Err(SessionError::Log(e)),
    }
}

/// What handling `ev` in session `s0` does: the new session `s1` and the
/// answer `r`. A closed session refuses everything and stays as it was.
pub open spec fn handled(
    s0: GroupSession,
    ev: LayerEvent,
    s1: GroupSession,
    r: Result<Option<LayerEvent>, SessionError>,
) -> bool {
    &&& s1.id == s0.id
    &&& if s0.state == Lifecycle::Closed {
        &&& r == Err::<Option<LayerEvent>, SessionError>(SessionError::GroupClosed)
        &&& s1.state == s0.state && s1.name@ == s0.name@ && s1.log@ == s0.log@ && s1.presence@ == s0.presence@
    } else {
        &&& s1.state == match ev {
            LayerEvent::Offline(_) => Lifecycle::Offline,
            LayerEvent::Suspend(_) => Lifecycle::Suspended,
            LayerEvent::Actived(_) => Lifecycle::Active,
            LayerEvent::GroupClose(_) => Lifecycle::Closed,
            _ => s0.state,
        }
        &&& s1.name@ == match ev {
            LayerEvent::GroupName(_, n) => n@,
            _ => s0.name@,
        }
        &&& s1.presence@ == match ev {
            LayerEvent::MemberOnline(_, p) => s0.presence@.insert(p@),
            LayerEvent::MemberOffline(_, p) => s0.presence@.remove(p@),
            LayerEvent::MemberOnlineSyncResult(_, v) => ids_of(v@),
            _ => s0.presence@,
        }
        &&& match ev {
            LayerEvent::Sync(_, h, e) => {
                &&& s1.log@ == apply_log(s0.log@, h as int, e@)
                &&& r == lift(apply_result(s0.log@, h as int, e@))
            },
            LayerEvent::SyncReq(_, from) => {
                &&& s1.log@ == s0.log@
                &&& r matches Ok(Some(LayerEvent::SyncRes(g, cur, f, to, adds, leaves, msgs)))
                &&& g == s0.id && cur == s0.log@.len() && f == from && to == s0.log@.len()
                &&& joins_model(adds@) == picks(s0.log@, delta_base(from as int), s0.log@.len() as int, 0)
                &&& leaves_model(leaves@) == picks(s0.log@, delta_base(from as int), s0.log@.len() as int, 1)
                &&& messages_model(msgs@) == picks(s0.log@, delta_base(from as int), s0.log@.len() as int, 2)
            },
            LayerEvent::SyncRes(_, _, from, to, adds, leaves, msgs) => {
                let w = replay(joins_model(adds@), leaves_model(leaves@), messages_model(msgs@), 0, 0, 0, from as int, to as int);
                if from != s0.log@.len() {
                    &&& s1.log@ == s0.log@
                    &&& r matches Ok(Some(LayerEvent::SyncReq(g, h)))
                    &&& g == s0.id && h == s0.log@.len()
                } else if to < from {
                    &&& s1.log@ == s0.log@
                    &&& r == Err::<Option<LayerEvent>, SessionError>(SessionError::Log(LogError::InvalidRange))
                } else {
                    &&& s1.log@ == s0.log@ + w.0
                    &&& w.1 ==> (r matches Ok(None))
                    &&& !w.1 ==> r == Err::<Option<LayerEvent>, SessionError>(SessionError::Log(LogError::OutOfOrder))
                }
            },
            LayerEvent::MemberOnlineSync(_) => {
                &&& s1.log@ == s0.log@
                &&& r matches Ok(Some(LayerEvent::MemberOnlineSyncResult(g, v)))
                &&& g == s0.id && ids_of(v@) == s0.presence@
            },
            _ => s1.log@ == s0.log@ && r matches Ok(None),
        }
    }
}

/// What answering a join request of `member`, whose proof the verifier
/// judged `proof_ok`, does to session `s0`: the new session `s1` and the
/// answer `r`. Only the presence set may change.
pub open spec fn connected(
    s0: GroupSession,
    member: PeerId,
    proof_ok: bool,
    s1: GroupSession,
    r: Result<LayerResult, SessionError>,
) -> bool {
    &&& s1.id == s0.id
    &&& s1.state == s0.state
    &&& s1.name@ == s0.name@
    &&& s1.log@ == s0.log@
    &&& if s0.state == Lifecycle::Closed {
        r == Err::<LayerResult, SessionError>(SessionError::GroupClosed) && s1.presence@ == s0.presence@
    } else if !proof_ok {
        r == Err::<LayerResult, SessionError>(SessionError::InvalidProof) && s1.presence@ == s0.presence@
    } else {
        &&& s1.presence@ == s0.presence@.insert(member@)
        &&& r matches Ok(LayerResult(g, n, h))
        &&& g == s0.id && n@ == s0.name@ && h == s0.log@.len()
    }
}

impl GroupSession {
    /// The log's heights fit and the presence set lists nobody twice.
    pub open spec fn wf(&self) -> bool {
        self.log.wf() && self.presence.wf()
    }

    /// A new active session with an empty log and nobody online.
    pub fn new(id: GroupChatId, name: String) -> (r: GroupSession)
        ensures
            r.wf(),
            r.id == id,
            r.state == Lifecycle::Active,
            r.name@ == name@,
            r.log@ == Seq::<EventModel>::empty(),
            r.presence@ == Set::<Seq<u8>>::empty(),
    {
        GroupSession { id, state: Lifecycle::Active, name, log: EventLog::new(), presence: Presence::new() }
    }

    /// Answers a join request whose proof the verifier judged `proof_ok`: a
    /// closed group refuses, a rejected proof is refused, and otherwise the
    /// member is marked online and gets the group's id, name and height.
    pub fn handle_connect(&mut self, member: PeerId, proof_ok: bool) -> (r: Result<LayerResult, SessionError>)
        requires
            old(self).wf(),
        ensures
            final(self).wf(),
            connected(*old(self), member, proof_ok, *final(self), r),
    {
        if self.state == Lifecycle::Closed {
            return Err(SessionError::GroupClosed);
        }
        if !proof_ok {
            return Err(SessionError::InvalidProof);
        }
        self.presence.mark_online(member);
        Ok(LayerResult(self.id, self.name.clone(), self.log.current_height()))
    }

    /// Handles one message addressed to this group.
    pub fn handle(&mut self, ev: LayerEvent) -> (r: Result<Option<LayerEvent>, SessionError>)
        requires
            old(self).wf(),
        ensures
            final(self).wf(),
            handled(*old(self), ev, *final(self), r),
    {
        if self.state == Lifecycle::Closed {
            return Err(SessionError::GroupClosed);
        }
        match ev {
            LayerEvent::Offline(_) => {
                self.state = Lifecycle::Offline;
                Ok(None)
            },
            LayerEvent::Suspend(_) => {
                self.state = Lifecycle::Suspended;
                Ok(None)
            },
            LayerEvent::Actived(_) => {
                self.state = Lifecycle::Active;
                Ok(None)
            },
            LayerEvent::GroupClose(_) => {
                self.state = Lifecycle::Closed;
                Ok(None)
            },
            LayerEvent::GroupName(_, n) => {
                self.name = n;
                Ok(None)
            },
            LayerEvent::MemberOnline(_, p) => {
                self.presence.mark_online(p);
                Ok(None)
            },
            LayerEvent::MemberOffline(_, p) => {
                self.presence.mark_offline(&p);
                Ok(None)
            },
            LayerEvent::MemberOnlineSync(_) => {
                let v = self.presence.online_members();
                assert(ids_of(v@) =~= self.presence@);
                Ok(Some(LayerEvent::MemberOnlineSyncResult(self.id, v)))
            },
            LayerEvent::MemberOnlineSyncResult(_, v) => {
                self.presence.reconcile(&v);
                Ok(None)
            },
            LayerEvent::Sync(_, h, e) => {
                match self.log.apply_remote(h, e) {
                    Ok(()) => Ok(None),
                    Err(x) => Err(SessionError::Log(x)),
                }
            },
            LayerEvent::SyncReq(_, from) => Ok(Some(sync_response(&self.log, self.id, from))),
            LayerEvent::SyncRes(_, _, from, to, adds, leaves, msgs) => {
                match apply_sync_res(&mut self.log, self.id, from, to, &adds, &leaves, &msgs) {
                    Ok(x) => Ok(x),
                    Err(x) => Err(SessionError::Log(x)),
                }
            },
        }
    }
}

/// The sessions of all loaded groups, at most one per group id.
pub struct Registry {
    sessions: Vec<GroupSession>,
}

impl Registry {
    /// The loaded sessions, in the order they were opened.
    pub closed spec fn sessions(&self) -> Seq<GroupSession> {
        self.sessions@
    }

    /// Every session is well formed and no two share a group id.
    pub open spec fn wf(&self) -> bool {
        &&& forall|i: int| 0 <= i < self.sessions().len() ==> (#[trigger] self.sessions()[i]).wf()
        &&& forall|i: int, j: int|
            0 <= i < j < self.sessions().len() ==> (#[trigger] self.sessions()[i]).id != (#[trigger] self.sessions()[j]).id
    }

    /// Whether a session for `id` is loaded.
    pub open spec fn has(&self, id: GroupChatId) -> bool {
        exists|i: int| 0 <= i < self.sessions().len() && (#[trigger] self.sessions()[i]).id == id
    }

    /// No group loaded.
    pub fn new() -> (r: Registry)
        ensures
            r.wf(),
            r.sessions() == Seq::<GroupSession>::empty(),
    {
        Registry { sessions: Vec::new() }
    }

    /// The position of the session for `id`, if one is loaded.
    pub fn find(&self, id: GroupChatId) -> (r: Option<usize>)
        ensures
            r is None <==> !self.has(id),
            r matches Some(i) ==> i < self.sessions().len() && self.sessions()[i as int].id == id,
    {
        let mut i: usize = 0;
        while i < self.sessions.len()
            invariant
                i <= self.sessions@.len(),
                forall|j: int| 0 <= j < i ==> (#[trigger] self.sessions@[j]).id != id,
            decreases self.sessions@.len() - i,
        {
            if self.sessions[i].id == id {
                return Some(i);
            }
            i = i + 1;
        }
        None
    }

    /// Loads a new active session for `id` named `name`, unless one is
    /// loaded already; returns whether it created one.
    pub fn open_group(&mut self, id: GroupChatId, name: String) -> (r: bool)
        requires
            old(self).wf(),
        ensures
            final(self).wf(),
            r == !old(self).has(id),
            !r ==> final(self).sessions() == old(self).sessions(),
            r ==> final(self).sessions().len() == old(self).sessions().len() + 1 && final(self).sessions().subrange(
                0,
                old(self).sessions().len() as int,
            ) == old(self).sessions() && ({
                let s = final(self).sessions().last();
                &&& s.id == id && s.state == Lifecycle::Active && s.name@ == name@
                &&& s.log@ == Seq::<EventModel>::empty() && s.presence@ == Set::<Seq<u8>>::empty()
            }),
    {
        if self.find(id).is_some() {
            return false;
        }
        self.sessions.push(GroupSession::new(id, name));
        assert(self.sessions().subrange(0, old(self).sessions().len() as int) =~= old(self).sessions());
        true
    }

    /// Routes a message to the session of its group: `UnknownGroup` when
    /// none is loaded, else the session handles it and the others stay.
    pub fn dispatch(&mut self, ev: LayerEvent) -> (r: Result<Option<LayerEvent>, SessionError>)
        requires
            old(self).wf(),
        ensures
            final(self).wf(),
            !old(self).has(ev.group_of()) ==> r == Err::<Option<LayerEvent>, SessionError>(SessionError::UnknownGroup)
                && final(self).sessions() == old(self).sessions(),
            old(self).has(ev.group_of()) ==> exists|i: int|
                0 <= i < old(self).sessions().len() && (#[trigger] old(self).sessions()[i]).id == ev.group_of()
                && final(self).sessions() == old(self).sessions().update(i, final(self).sessions()[i])
                && handled(old(self).sessions()[i], ev, final(self).sessions()[i], r),
    {
        let id = *ev.gcd();
        match self.find(id) {
            None => Err(SessionError::UnknownGroup),
            Some(i) => {
                let mut s = self.sessions.remove(i);
                let r = s.handle(ev);
                self.sessions.insert(i, s);
                assert(self.sessions() =~= old(self).sessions().update(i as int, self.sessions()[i as int]));
                r
            },
        }
    }

    /// Answers a join request for group `id` from `member`, whose proof the
    /// verifier judged `proof_ok`: `UnknownGroup` when no session is loaded,
    /// else the session answers it and the others stay.
    pub fn connect(&mut self, id: GroupChatId, member: PeerId, proof_ok: bool) -> (r: Result<LayerResult, SessionError>)
        requires
            old(self).wf(),
        ensures
            final(self).wf(),
            !old(self).has(id) ==> r == Err::<LayerResult, SessionError>(SessionError::UnknownGroup)
                && final(self).sessions() == old(self).sessions(),
            old(self).has(id) ==> exists|i: int|
                0 <= i < old(self).sessions().len() && (#[trigger] old(self).sessions()[i]).id == id
                && final(self).sessions() == old(self).sessions().update(i, final(self).sessions()[i])
                && connected(old(self).sessions()[i], member, proof_ok, final(self).sessions()[i], r),
    {
        match self.find(id) {
            None => Err(SessionError::UnknownGroup),
            Some(i) => {
                let mut s = self.sessions.remove(i);
                let r = s.handle_connect(member, proof_ok);
                self.sessions.insert(i, s);
                assert(self.sessions() =~= old(self).sessions().update(i as int, self.sessions()[i as int]));
                r
            },
        }
    }

    /// The session for `id`, if one is loaded.
    pub fn get(&self, id: GroupChatId) -> (r: Option<&GroupSession>)
        ensures
            r is None <==> !self.has(id),
            r matches Some(s) ==> s.id == id && exists|i: int|
                0 <= i < self.sessions().len() && *s == #[trigger] self.sessions()[i],
    {
        match self.find(id) {
            None => None,
            Some(i) => Some(&self.sessions[i]),
        }
    }
}

} // verus!
