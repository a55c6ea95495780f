//! The records that the ledger's transactions carry, and their views.

use vstd::prelude::*;

verus! {

#[derive(Debug, Clone, PartialEq, Eq)]
pub struct UserProfile {
    pub address: String,
    pub username: String,
    pub public_key: String,
    /// RFC 3339 text.
    pub last_seen: String,
    pub reputation: u64,
    pub token_balance: u64,
}

#[derive(Debug, Clone, PartialEq, Eq)]
pub struct ConnectionRecord {
    pub from_address: String,
    pub to_address: String,
    /// "p2p" or "relay".
    pub connection_type: String,
    pub timestamp: String,
    /// Seconds.
    pub duration: Option<u64>,
    pub message_count: u64,
}

#[derive(Debug, Clone, PartialEq, Eq)]
pub struct ChatReward {
    pub user_address: String,
    /// "register", "online", "connect" and the like.
    pub action: String,
    pub reward_amount: u64,
    pub timestamp: String,
}

#[derive(Debug, Clone, PartialEq, Eq)]
pub struct OnlineStatus {
    pub address: String,
    pub username: String,
    /// "online", "offline", "busy" and the like.
    pub status: String,
    pub node_id: String,
    pub timestamp: String,
}

#[derive(Debug, Clone, PartialEq, Eq)]
pub enum ChatTransaction {
    UserRegister(UserProfile),
    StatusUpdate(OnlineStatus),
    ConnectionEstablished(ConnectionRecord),
    RewardIssued(ChatReward),
}

pub struct UserView {
    pub address: Seq<char>,
    pub username: Seq<char>,
    pub public_key: Seq<char>,
    pub last_seen: Seq<char>,
    pub reputation: u64,
    pub token_balance: u64,
}

pub struct ConnectionView {
    pub from_address: Seq<char>,
    pub to_address: Seq<char>,
    pub connection_type: Seq<char>,
    pub timestamp: Seq<char>,
    pub duration: Option<u64>,
    pub message_count: u64,
}

pub struct RewardView {
    pub user_address: Seq<char>,
    pub action: Seq<char>,
    pub reward_amount: u64,
    pub timestamp: Seq<char>,
}

pub struct StatusView {
    pub address: Seq<char>,
    pub username: Seq<char>,
    pub status: Seq<char>,
    pub node_id: Seq<char>,
    pub timestamp: Seq<char>,
}

pub enum TxView {
    UserRegister(UserView),
    StatusUpdate(StatusView),
    ConnectionEstablished(ConnectionView),
    RewardIssued(RewardView),
}

impl View for UserProfile {
    type V = UserView;

    open spec fn view(&self) -> UserView {
        UserView {
            address: self.address@,
            username: self.username@,
            public_key: self.public_key@,
            last_seen: self.last_seen@,
            reputation: self.reputation,
            token_balance: self.token_balance,
        }
    }
}

impl View for ConnectionRecord {
    type V = ConnectionView;

    open spec fn view(&self) -> ConnectionView {
        ConnectionView {
            from_address: self.from_address@,
            to_address: self.to_address@,
            connection_type: self.connection_type@,
            timestamp: self.timestamp@,
            duration: self.duration,
            message_count: self.message_count,
        }
    }
}

impl View for ChatReward {
    type V = RewardView;

    open spec fn view(&self) -> RewardView {
        RewardView {
            user_address: self.user_address@,
            action: self.action@,
            reward_amount: self.reward_amount,
            timestamp: self.timestamp@,
        }
    }
}

impl View for OnlineStatus {
    type V = StatusView;

    open spec fn view(&self) -> StatusView {
        StatusView {
            address: self.address@,
            username: self.username@,
            status: self.status@,
            node_id: self.node_id@,
            timestamp: self.timestamp@,
        }
    }
}

impl View for ChatTransaction {
    type V = TxView;

    open spec fn view(&self) -> TxView {
        match self {
            ChatTransaction::UserRegister(u) => TxView::UserRegister(u@),
            ChatTransaction::StatusUpdate(s) => TxView::StatusUpdate(s@),
            ChatTransaction::ConnectionEstablished(c) => TxView::ConnectionEstablished(c@),
            ChatTransaction::RewardIssued(r) => TxView::RewardIssued(r@),
        }
    }
}

impl UserProfile {
    /// A copy with the same view.
    pub fn copy(&self) -> (r: UserProfile)
        ensures
            r@ == self@,
    {
        UserProfile {
            address: self.address.clone(),
            username: self.username.clone(),
            public_key: self.public_key.clone(),
            last_seen: self.last_seen.clone(),
            reputation: self.reputation,
            token_balance: self.token_balance,
        }
    }
}

impl OnlineStatus {
    /// A copy with the same view.
    pub fn copy(&self) -> (r: OnlineStatus)
        ensures
            r@ == self@,
    {
        OnlineStatus {
            address: self.address.clone(),
            username: self.username.clone(),
            status: self.status.clone(),
            node_id: self.node_id.clone(),
            timestamp: self.timestamp.clone(),
        }
    }
}

impl ConnectionRecord {
    /// A copy with the same view.
    pub fn copy(&self) -> (r: ConnectionRecord)
        ensures
            r@ == self@,
    {
        ConnectionRecord {
            from_address: self.from_address.clone(),
            to_address: self.to_address.clone(),
            connection_type: self.connection_type.clone(),
            timestamp: self.timestamp.clone(),
            duration: self.duration,
            message_count: self.message_count,
        }
    }
}

} // verus!
