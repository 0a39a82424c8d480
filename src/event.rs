use vstd::prelude::*;

verus! {

/// Group chat Group ID.
pub type GroupChatId = u64;

/// Default network group id of the group chat service.
pub const GROUP_CHAT_ID: u64 = 2;

/// A peer identity: 20 bytes.
#[derive(Clone, Copy, Debug)]
pub struct PeerId(pub [u8; 20]);

impl View for PeerId {
    type V = Seq<u8>;

    open spec fn view(&self) -> Seq<u8> {
        self.0@
    }
}

impl PeerId {
    /// Whether two identities hold the same bytes.
    pub fn same(&self, other: &PeerId) -> (r: bool)
        ensures
            r == (self@ == other@),
    {
        let mut i: usize = 0;
        while i < 20
            invariant
                i <= 20,
                self@.len() == 20,
                other@.len() == 20,
                forall|j: int| 0 <= j < i ==> self@[j] == other@[j],
            decreases 20 - i,
        {
            if self.0[i] != other.0[i] {
                return false;
            }
            i = i + 1;
        }
        assert(self@ =~= other@);
        true
    }
}

/// Byte-wise equality of two byte strings.
pub fn bytes_equal(a: &Vec<u8>, b: &Vec<u8>) -> (r: bool)
    ensures
        r == (a@ == b@),
{
    if a.len() != b.len() {
        return false;
    }
    let mut i: usize = 0;
    while i < a.len()
        invariant
            i <= a.len(),
            a.len() == b.len(),
            forall|j: int| 0 <= j < i ==> a@[j] == b@[j],
        decreases a.len() - i,
    {
        if a[i] != b[i] {
            return false;
        }
        i = i + 1;
    }
    assert(a@ =~= b@);
    true
}

/// A copy of a byte string.
pub fn bytes_copy(a: &Vec<u8>) -> (r: Vec<u8>)
    ensures
        r@ == a@,
{
    let mut r: Vec<u8> = Vec::new();
    let mut i: usize = 0;
    while i < a.len()
        invariant
            i <= a.len(),
            r@ == a@.subrange(0, i as int),
        decreases a.len() - i,
    {
        r.push(a[i]);
        i = i + 1;
        assert(r@ =~= a@.subrange(0, i as int));
    }
    assert(r@ =~= a@);
    r
}

/// Group chat event.
#[derive(Debug)]
pub enum Event {
    /// params: member id, member name, member avatar.
    MemberJoin(PeerId, String, Vec<u8>),
    /// params: member id.
    MemberLeave(PeerId),
    /// params: member id, message payload, message time.
    MessageCreate(PeerId, Vec<u8>, i64),
}

/// The content of an event, as plain values.
pub ghost enum EventModel {
    Join(Seq<u8>, Seq<char>, Seq<u8>),
    Leave(Seq<u8>),
    Message(Seq<u8>, Seq<u8>, int),
}

impl View for Event {
    type V = EventModel;

    open spec fn view(&self) -> EventModel {
        match self {
            Event::MemberJoin(id, name, avatar) => EventModel::Join(id@, name@, avatar@),
            Event::MemberLeave(id) => EventModel::Leave(id@),
            Event::MessageCreate(id, msg, time) => EventModel::Message(id@, msg@, *time as int),
        }
    }
}

impl Event {
    /// A copy of this event with the same content.
    pub fn duplicate(&self) -> (r: Event)
        ensures
            r@ == self@,
    {
        match self {
            Event::MemberJoin(id, name, avatar) => Event::MemberJoin(*id, name.clone(), bytes_copy(avatar)),
            Event::MemberLeave(id) => Event::MemberLeave(*id),
            Event::MessageCreate(id, msg, time) => Event::MessageCreate(*id, bytes_copy(msg), *time),
        }
    }

    /// Whether two events have identical content.
    pub fn same_content(&self, other: &Event) -> (r: bool)
        ensures
            r == (self@ == other@),
    {
        match (self, other) {
            (Event::MemberJoin(a, n, v), Event::MemberJoin(b, m, w)) => a.same(b) && *n == *m
                && bytes_equal(v, w),
            (Event::MemberLeave(a), Event::MemberLeave(b)) => a.same(b),
            (Event::MessageCreate(a, x, s), Event::MessageCreate(b, y, t)) => a.same(b) && *s == *t
                && bytes_equal(x, y),
            _ => false,
        }
    }
}

} // verus!
