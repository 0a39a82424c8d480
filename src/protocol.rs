use vstd::prelude::*;
use crate::event::{Event, GroupChatId, PeerId};

verus! {

/// Group chat connect data: group chat id and the join proof's bytes.
#[derive(Debug)]
pub struct LayerConnect(pub GroupChatId, pub Vec<u8>);

/// Group chat connect success result: group id, group name, current height.
#[derive(Debug)]
pub struct LayerResult(pub GroupChatId, pub String, pub i64);

/// Group chat layer event.
#[derive(Debug)]
pub enum LayerEvent {
    /// offline.
    Offline(GroupChatId),
    /// suspend.
    Suspend(GroupChatId),
    /// actived.
    Actived(GroupChatId),
    /// online group member. Group ID, member id.
    MemberOnline(GroupChatId, PeerId),
    /// offline group member. Group ID, member id.
    MemberOffline(GroupChatId, PeerId),
    /// sync online members.
    MemberOnlineSync(GroupChatId),
    /// sync online members result.
    MemberOnlineSyncResult(GroupChatId, Vec<PeerId>),
    /// Change the group name.
    GroupName(GroupChatId, String),
    /// close the group chat.
    GroupClose(GroupChatId),
    /// sync group event. Group ID, height, event.
    Sync(GroupChatId, i64, Event),
    /// peer sync event request. Group ID, from.
    SyncReq(GroupChatId, i64),
    /// sync members status.
    /// Group ID, current height, from height, to height,
    /// add members (height, member id, name, avatar),
    /// leaved members (height, member id),
    /// add messages (height, member id, message, time).
    SyncRes(
        GroupChatId,
        i64,
        i64,
        i64,
        Vec<(i64, PeerId, String, Vec<u8>)>,
        Vec<(i64, PeerId)>,
        Vec<(i64, PeerId, Vec<u8>, i64)>,
    ),
}

impl LayerEvent {
    /// The group id that every variant carries first.
    pub open spec fn group_of(&self) -> GroupChatId {
        match self {
            LayerEvent::Offline(g) => *g,
            LayerEvent::Suspend(g) => *g,
            LayerEvent::Actived(g) => *g,
            LayerEvent::MemberOnline(g, ..) => *g,
            LayerEvent::MemberOffline(g, ..) => *g,
            LayerEvent::MemberOnlineSync(g) => *g,
            LayerEvent::MemberOnlineSyncResult(g, ..) => *g,
            LayerEvent::GroupName(g, ..) => *g,
            LayerEvent::GroupClose(g) => *g,
            LayerEvent::Sync(g, ..) => *g,
            LayerEvent::SyncReq(g, ..) => *g,
            LayerEvent::SyncRes(g, ..) => *g,
        }
    }

    /// get event's group id.
    pub fn gcd(&self) -> (r: &GroupChatId)
        ensures
            *r == self.group_of(),
    {
        match self {
            Self::Offline(gcd) => gcd,
            Self::Suspend(gcd) => gcd,
            Self::Actived(gcd) => gcd,
            Self::MemberOnline(gcd, ..) => gcd,
            Self::MemberOffline(gcd, ..) => gcd,
            Self::MemberOnlineSync(gcd) => gcd,
            Self::MemberOnlineSyncResult(gcd, ..) => gcd,
            Self::GroupName(gcd, ..) => gcd,
            Self::GroupClose(gcd) => gcd,
            Self::Sync(gcd, ..) => gcd,
            Self::SyncReq(gcd, ..) => gcd,
            Self::SyncRes(gcd, ..) => gcd,
        }
    }
}

} // verus!
