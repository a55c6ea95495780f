//! The ledger: a chain of transaction blocks and the projection kept from it.

use vstd::prelude::*;
use crate::block::{Block, has_zero_prefix};
use crate::blockchain::{chain_wf, chain_valid, chain_sealed, append_block, check_chain};
use crate::chat_data::{ChatTransaction, UserProfile, OnlineStatus, ConnectionRecord, ChatReward,
    UserView, StatusView, ConnectionView};
use crate::codec::{encode_transaction, decode_transaction};
use crate::ledger_spec::{Projection, apply_tx, replay, find_user, find_status, online_text, credit,
    rewarded, pool_after, reward_blocks, upsert_status, remove_status, involving, empty_projection, upsert_user,
    keys_unique, lemma_replay_keys_unique};
use crate::text::now_rfc3339;

verus! {

/// Whether two texts hold the same characters.
pub fn same_text(a: &str, b: &str) -> (r: bool)
    ensures
        r == (a@ == b@),
{
    let n = a.unicode_len();
    if n != b.unicode_len() {
        return false;
    }
    let mut i: usize = 0;
    while i < n
        invariant
            n == a@.len() == b@.len(),
            i <= n,
            forall|j: int| 0 <= j < i ==> a@[j] == b@[j],
        decreases n - i,
    {
        if a.get_char(i) != b.get_char(i) {
            return false;
        }
        i = i + 1;
    }
    assert(a@ =~= b@);
    true
}

pub open spec fn user_views(us: Seq<UserProfile>) -> Seq<UserView> {
    us.map_values(|u: UserProfile| u@)
}

pub open spec fn status_views(os: Seq<OnlineStatus>) -> Seq<StatusView> {
    os.map_values(|s: OnlineStatus| s@)
}

pub open spec fn connection_views(cs: Seq<ConnectionRecord>) -> Seq<ConnectionView> {
    cs.map_values(|c: ConnectionRecord| c@)
}

/// Position of the user with this address.
fn user_position(users: &Vec<UserProfile>, address: &str) -> (r: Option<usize>)
    ensures
        r matches Some(i) ==> find_user(user_views(users@), address@) == i && i < users@.len(),
        r is None ==> find_user(user_views(users@), address@) == -1,
{
    let ghost v = user_views(users@);
    let mut i: usize = users.len();
    assert(v.subrange(0, i as int) =~= v);
    while i > 0
        invariant
            i <= users@.len(),
            v == user_views(users@),
            find_user(v, address@) == find_user(v.subrange(0, i as int), address@),
        decreases i,
    {
        assert(v.subrange(0, i as int).drop_last() =~= v.subrange(0, i - 1));
        if same_text(users[i - 1].address.as_str(), address) {
            return Some(i - 1);
        }
        i = i - 1;
    }
    None
}

/// Position of the online status with this address.
fn status_position(online: &Vec<OnlineStatus>, address: &str) -> (r: Option<usize>)
    ensures
        r matches Some(i) ==> find_status(status_views(online@), address@) == i && i < online@.len(),
        r is None ==> find_status(status_views(online@), address@) == -1,
{
    let ghost v = status_views(online@);
    let mut i: usize = online.len();
    assert(v.subrange(0, i as int) =~= v);
    while i > 0
        invariant
            i <= online@.len(),
            v == status_views(online@),
            find_status(v, address@) == find_status(v.subrange(0, i as int), address@),
        decreases i,
    {
        assert(v.subrange(0, i as int).drop_last() =~= v.subrange(0, i - 1));
        if same_text(online[i - 1].address.as_str(), address) {
            return Some(i - 1);
        }
        i = i - 1;
    }
    None
}

#[derive(Debug)]
pub struct ChatBlockchain {
    pub chain: Vec<Block>,
    pub difficulty: usize,
    /// Registered users, at most one per address.
    pub users: Vec<UserProfile>,
    /// Users whose latest status is "online", at most one per address.
    pub online_users: Vec<OnlineStatus>,
    pub connections: Vec<ConnectionRecord>,
    /// What is left in the reward pool.
    pub total_rewards: u64,
}

impl ChatBlockchain {
    pub open spec fn projection(&self) -> Projection {
        Projection {
            users: user_views(self.users@),
            online: status_views(self.online_users@),
            connections: connection_views(self.connections@),
        }
    }

    /// The chain is as appending builds it, with every block sealed at the
    /// ledger's difficulty, and the projection is what replaying it gives.
    pub open spec fn wf(&self) -> bool {
        &&& chain_wf(self.chain@)
        &&& chain_sealed(self.chain@, self.difficulty as nat)
        &&& self.projection() == replay(self.chain@)
    }

    /// `self` is what rebuilding `prev` gives: the same chain, pool and
    /// difficulty, and the projection that replaying the chain gives.
    pub open spec fn rebuilt_from(&self, prev: ChatBlockchain) -> bool {
        &&& self.chain@ == prev.chain@
        &&& self.difficulty == prev.difficulty
        &&& self.total_rewards == prev.total_rewards
        &&& self.projection() == replay(prev.chain@)
    }

    /// Applies one transaction to the projection.
    fn apply_transaction(&mut self, tx: ChatTransaction)
        ensures
            final(self).projection() == apply_tx(old(self).projection(), tx@),
            final(self).chain@ == old(self).chain@,
            final(self).difficulty == old(self).difficulty,
            final(self).total_rewards == old(self).total_rewards,
    {
        let ghost p = self.projection();
        match tx {
            ChatTransaction::UserRegister(user) => {
                match user_position(&self.users, user.address.as_str()) {
                    Some(i) => { self.users.set(i, user); },
                    None => { self.users.push(user); },
                }
                assert(self.projection().users =~= apply_tx(p, tx@).users);
            },
            ChatTransaction::StatusUpdate(status) => {
                proof { reveal_strlit("online"); }
                assert("online"@ =~= online_text());
                if same_text(status.status.as_str(), "online") {
                    match status_position(&self.online_users, status.address.as_str()) {
                        Some(i) => { self.online_users.set(i, status); },
                        None => { self.online_users.push(status); },
                    }
                } else {
                    match status_position(&self.online_users, status.address.as_str()) {
                        Some(i) => { self.online_users.remove(i); },
                        None => {},
                    }
                }
                assert(self.projection().online =~= apply_tx(p, tx@).online);
            },
            ChatTransaction::ConnectionEstablished(conn) => {
                self.connections.push(conn);
                assert(self.projection().connections =~= apply_tx(p, tx@).connections);
            },
            ChatTransaction::RewardIssued(reward) => {
                match user_position(&self.users, reward.user_address.as_str()) {
                    Some(i) => {
                        let mut u = self.users[i].copy();
                        u.token_balance = if u.token_balance > u64::MAX - reward.reward_amount {
                            u64::MAX
                        } else {
                            u.token_balance + reward.reward_amount
                        };
                        self.users.set(i, u);
                    },
                    None => {},
                }
                assert(self.projection().users =~= apply_tx(p, tx@).users);
            },
        }
        assert(self.projection() =~= apply_tx(p, tx@));
    }

    /// Clears the projection and replays every block of the chain in order;
    /// a block whose payload holds no transaction is skipped. The reward pool
    /// is left as it is.
    pub fn rebuild_state(&mut self)
        ensures
            final(self).rebuilt_from(*old(self)),
    {
        self.users.clear();
        self.online_users.clear();
        self.connections.clear();
        let mut i: usize = 0;
        assert(self.projection().users =~= Seq::<UserView>::empty());
        assert(self.projection().online =~= Seq::<StatusView>::empty());
        assert(self.projection().connections =~= Seq::<ConnectionView>::empty());
        assert(self.chain@.subrange(0, 0).len() == 0);
        assert(self.projection() =~= replay(self.chain@.subrange(0, 0)));
        while i < self.chain.len()
            invariant
                i <= self.chain@.len(),
                self.chain@ == old(self).chain@,
                self.difficulty == old(self).difficulty,
                self.total_rewards == old(self).total_rewards,
                self.projection() == replay(self.chain@.subrange(0, i as int)),
            decreases self.chain@.len() - i,
        {
            assert(self.chain@.subrange(0, i + 1).drop_last() =~= self.chain@.subrange(0, i as int));
            let decoded = decode_transaction(self.chain[i].data.as_str());
            match decoded {
                Some(tx) => { self.apply_transaction(tx); },
                None => {},
            }
            i = i + 1;
        }
        assert(self.chain@.subrange(0, self.chain@.len() as int) =~= self.chain@);
    }

    /// Whether every block after the first holds its own digest and the hash
    /// of the block before it.
    pub fn is_valid(&self) -> (r: bool)
        ensures
            r == chain_valid(self.chain@),
    {
        check_chain(&self.chain)
    }

    /// Appends a sealed block holding the transaction and applies it.
    fn append_transaction(&mut self, tx: ChatTransaction)
        requires
            old(self).wf(),
        ensures
            final(self).wf(),
            final(self).chain@.len() == old(self).chain@.len() + 1,
            final(self).chain@.drop_last() == old(self).chain@,
            final(self).projection() == apply_tx(old(self).projection(), tx@),
            final(self).difficulty == old(self).difficulty,
            final(self).total_rewards == old(self).total_rewards,
    {
        let data = encode_transaction(&tx);
        append_block(&mut self.chain, data, self.difficulty);
        self.apply_transaction(tx);
        assert(self.chain@.drop_last() == old(self).chain@);
    }

    /// Pays `amount` from the reward pool to `user_address`, recording the
    /// reward in a new block. Where the pool holds less than `amount` nothing
    /// happens. A reward to an address that no user has is recorded and taken
    /// from the pool, but credited to nobody.
    pub fn issue_reward(&mut self, user_address: String, action: String, amount: u64)
        requires
            old(self).wf(),
        ensures
            final(self).wf(),
            final(self).difficulty == old(self).difficulty,
            old(self).total_rewards < amount ==> {
                &&& final(self).chain@ == old(self).chain@
                &&& final(self).projection() == old(self).projection()
                &&& final(self).total_rewards == old(self).total_rewards
            },
            old(self).total_rewards >= amount ==> {
                &&& final(self).chain@.len() == old(self).chain@.len() + 1
                &&& final(self).chain@.drop_last() == old(self).chain@
                &&& final(self).total_rewards == old(self).total_rewards - amount
                &&& final(self).projection() == Projection {
                    users: credit(old(self).projection().users, user_address@, amount),
                    ..old(self).projection()
                }
            },
    {
        if self.total_rewards < amount {
            return;
        }
        let ghost p = self.projection();
        let ghost a = user_address@;
        let reward = ChatReward {
            user_address,
            action,
            reward_amount: amount,
            timestamp: now_rfc3339(),
        };
        let tx = ChatTransaction::RewardIssued(reward);
        assert(apply_tx(p, tx@) == Projection { users: credit(p.users, a, amount), ..p });
        self.append_transaction(tx);
        self.total_rewards = self.total_rewards - amount;
    }

    /// Registers a user with a balance of 100 and then pays the registration
    /// reward of 100 from the pool. Returns false, changing nothing, where a
    /// user with this address exists.
    pub fn register_user(&mut self, address: String, username: String, public_key: String) -> (r: bool)
        requires
            old(self).wf(),
        ensures
            final(self).wf(),
            final(self).difficulty == old(self).difficulty,
            r == (find_user(old(self).projection().users, address@) == -1),
            !r ==> {
                &&& final(self).chain@ == old(self).chain@
                &&& final(self).projection() == old(self).projection()
                &&& final(self).total_rewards == old(self).total_rewards
            },
            r ==> {
                let old_users = old(self).projection().users;
                let users = final(self).projection().users;
                &&& final(self).chain@.len() == old(self).chain@.len() + 1 + reward_blocks(old(self).total_rewards, 100)
                &&& final(self).chain@.subrange(0, old(self).chain@.len() as int) == old(self).chain@
                &&& final(self).total_rewards == pool_after(old(self).total_rewards, 100)
                &&& users.len() == old_users.len() + 1
                &&& users.drop_last() == old_users
                &&& users.last().address == address@
                &&& users.last().username == username@
                &&& users.last().public_key == public_key@
                &&& users.last().reputation == 0
                &&& users.last().token_balance == 100 + (if old(self).total_rewards >= 100 { 100int } else { 0int })
                &&& final(self).projection().online == old(self).projection().online
                &&& final(self).projection().connections == old(self).projection().connections
            },
    {
        if user_position(&self.users, address.as_str()).is_some() {
            return false;
        }
        let ghost old_users = self.projection().users;
        let ghost n = self.chain@.len();
        let profile = UserProfile {
            address: address.clone(),
            username,
            public_key,
            last_seen: now_rfc3339(),
            reputation: 0,
            token_balance: 100,
        };
        let ghost u = profile@;
        self.append_transaction(ChatTransaction::UserRegister(profile));
        proof { reveal_strlit("register"); }
        assert(self.projection().users == old_users.push(u));
        proof { lemma_find_last_user(old_users, u); }
        self.issue_reward(address, "register".to_string(), 100);
        assert(self.chain@.subrange(0, n as int) =~= old(self).chain@);
        true
    }

    /// Records a status and, for "online", marks the user online and pays the
    /// online reward of 10; any other status marks the user not online.
    pub fn update_user_status(&mut self, address: String, username: String, status: String, node_id: String)
        requires
            old(self).wf(),
        ensures
            final(self).wf(),
            final(self).difficulty == old(self).difficulty,
            final(self).chain@.subrange(0, old(self).chain@.len() as int) == old(self).chain@,
            final(self).projection().connections == old(self).projection().connections,
            status@ == online_text() ==> {
                &&& final(self).chain@.len() == old(self).chain@.len() + 1 + reward_blocks(old(self).total_rewards, 10)
                &&& final(self).total_rewards == pool_after(old(self).total_rewards, 10)
                &&& final(self).projection().users
                    == rewarded(old(self).projection().users, old(self).total_rewards, address@, 10)
                &&& exists|ts: Seq<char>| final(self).projection().online == upsert_status(
                    old(self).projection().online,
                    StatusView { address: address@, username: username@, status: status@, node_id: node_id@, timestamp: ts },
                )
            },
            status@ != online_text() ==> {
                &&& final(self).chain@.len() == old(self).chain@.len() + 1
                &&& final(self).total_rewards == old(self).total_rewards
                &&& final(self).projection().users == old(self).projection().users
                &&& final(self).projection().online == remove_status(old(self).projection().online, address@)
            },
    {
        let ghost n = self.chain@.len();
        let online_status = OnlineStatus {
            address: address.clone(),
            username,
            status,
            node_id,
            timestamp: now_rfc3339(),
        };
        proof { reveal_strlit("online"); }
        assert("online"@ =~= online_text());
        let is_online = same_text(online_status.status.as_str(), "online");
        self.append_transaction(ChatTransaction::StatusUpdate(online_status));
        if is_online {
            proof { reveal_strlit("online"); }
            self.issue_reward(address, "online".to_string(), 10);
        }
        assert(self.chain@.subrange(0, n as int) =~= old(self).chain@);
    }

    /// Records a connection between two addresses and pays the connect reward
    /// of 20 to each, the first address first.
    #[verifier::rlimit(40)]
    pub fn record_connection(&mut self, from_address: String, to_address: String, connection_type: String)
        requires
            old(self).wf(),
        ensures
            final(self).wf(),
            final(self).difficulty == old(self).difficulty,
            final(self).chain@.subrange(0, old(self).chain@.len() as int) == old(self).chain@,
            final(self).chain@.len() == old(self).chain@.len() + 1 + reward_blocks(old(self).total_rewards, 20)
                + reward_blocks(pool_after(old(self).total_rewards, 20), 20),
            final(self).total_rewards == pool_after(pool_after(old(self).total_rewards, 20), 20),
            final(self).projection().users == rewarded(
                rewarded(old(self).projection().users, old(self).total_rewards, from_address@, 20),
                pool_after(old(self).total_rewards, 20), to_address@, 20),
            final(self).projection().online == old(self).projection().online,
            final(self).projection().connections.len() == old(self).projection().connections.len() + 1,
            final(self).projection().connections.drop_last() == old(self).projection().connections,
            final(self).projection().connections.last().from_address == from_address@,
            final(self).projection().connections.last().to_address == to_address@,
            final(self).projection().connections.last().connection_type == connection_type@,
            final(self).projection().connections.last().duration is None,
            final(self).projection().connections.last().message_count == 0,
    {
        let ghost n = self.chain@.len();
        let connection = ConnectionRecord {
            from_address: from_address.clone(),
            to_address: to_address.clone(),
            connection_type,
            timestamp: now_rfc3339(),
            duration: None,
            message_count: 0,
        };
        let ghost p = self.projection();
        let ghost cv = connection@;
        let tx = ChatTransaction::ConnectionEstablished(connection);
        assert(apply_tx(p, tx@) == Projection { connections: p.connections.push(cv), ..p });
        self.append_transaction(tx);
        assert(self.projection().connections.drop_last() =~= p.connections);
        proof { reveal_strlit("connect"); }
        let ghost c1 = self.chain@;
        self.issue_reward(from_address, "connect".to_string(), 20);
        let ghost c2 = self.chain@;
        self.issue_reward(to_address, "connect".to_string(), 20);
        assert(c1.subrange(0, n as int) =~= old(self).chain@);
        assert(c2.subrange(0, n as int) =~= old(self).chain@);
        assert(self.chain@.subrange(0, n as int) =~= old(self).chain@);
    }

    /// A ledger whose chain holds only the genesis block: the registration of
    /// the reserved address "genesis" with the whole initial supply of
    /// 1,000,000. The projection already holds that user, and the reward pool
    /// holds 1,000,000.
    pub fn new(difficulty: usize) -> (r: ChatBlockchain)
        ensures
            r.wf(),
            r.difficulty == difficulty,
            r.total_rewards == 1000000,
            r.chain@.len() == 1,
            r.chain@[0].previous_hash@ == "0"@,
            r.projection().users.len() == 1,
            r.projection().users[0].address == "genesis"@,
            r.projection().users[0].username == "Genesis User"@,
            r.projection().users[0].public_key == "genesis_key"@,
            r.projection().users[0].reputation == 0,
            r.projection().users[0].token_balance == 1000000,
            r.projection().online.len() == 0,
            r.projection().connections.len() == 0,
    {
        let genesis = UserProfile {
            address: "genesis".to_string(),
            username: "Genesis User".to_string(),
            public_key: "genesis_key".to_string(),
            last_seen: now_rfc3339(),
            reputation: 0,
            token_balance: 1000000,
        };
        let tx = ChatTransaction::UserRegister(genesis);
        let data = encode_transaction(&tx);
        let genesis_block = Block::new(0, data, "0".to_string());
        let mut chain: Vec<Block> = Vec::new();
        chain.push(genesis_block);
        let mut ledger = ChatBlockchain {
            chain,
            difficulty,
            users: Vec::new(),
            online_users: Vec::new(),
            connections: Vec::new(),
            total_rewards: 1000000,
        };
        assert(ledger.projection().users =~= Seq::<UserView>::empty());
        assert(ledger.projection().online =~= Seq::<StatusView>::empty());
        assert(ledger.projection().connections =~= Seq::<ConnectionView>::empty());
        assert(ledger.projection() =~= empty_projection());
        assert(ledger.chain@.drop_last() =~= Seq::<Block>::empty());
        assert(replay(ledger.chain@.drop_last()) == empty_projection());
        ledger.apply_transaction(tx);
        assert(upsert_user(Seq::<UserView>::empty(), tx@->UserRegister_0) =~= seq![tx@->UserRegister_0]);
        ledger
    }

    /// The statuses of the users who are online.
    pub fn get_online_users(&self) -> (r: Vec<&OnlineStatus>)
        ensures
            r@.len() == self.online_users@.len(),
            forall|i: int| 0 <= i < r@.len() ==> *r@[i] == self.online_users@[i],
    {
        let mut r: Vec<&OnlineStatus> = Vec::new();
        let mut i: usize = 0;
        while i < self.online_users.len()
            invariant
                i <= self.online_users@.len(),
                r@.len() == i,
                forall|j: int| 0 <= j < i ==> *r@[j] == self.online_users@[j],
            decreases self.online_users@.len() - i,
        {
            r.push(&self.online_users[i]);
            i = i + 1;
        }
        r
    }

    /// The user registered under an address.
    pub fn get_user(&self, address: &str) -> (r: Option<&UserProfile>)
        ensures
            r matches Some(u) ==> {
                let i = find_user(self.projection().users, address@);
                0 <= i < self.users@.len() && *u == self.users@[i]
            },
            r is None ==> find_user(self.projection().users, address@) == -1,
    {
        match user_position(&self.users, address) {
            Some(i) => Some(&self.users[i]),
            None => None,
        }
    }

    /// The connections from or to an address, in the order they were recorded.
    pub fn get_user_connections(&self, address: &str) -> (r: Vec<&ConnectionRecord>)
        ensures
            r@.map_values(|c: &ConnectionRecord| c@) == involving(self.projection().connections, address@),
    {
        let ghost cs = self.projection().connections;
        let mut r: Vec<&ConnectionRecord> = Vec::new();
        let mut i: usize = 0;
        assert(r@.map_values(|c: &ConnectionRecord| c@) =~= involving(cs.subrange(0, 0), address@));
        while i < self.connections.len()
            invariant
                i <= self.connections@.len(),
                cs == self.projection().connections,
                r@.map_values(|c: &ConnectionRecord| c@) == involving(cs.subrange(0, i as int), address@),
            decreases self.connections@.len() - i,
        {
            let c = &self.connections[i];
            assert(cs.subrange(0, i + 1).drop_last() =~= cs.subrange(0, i as int));
            assert(cs.subrange(0, i + 1).last() == c@);
            let ghost before = r@;
            if same_text(c.from_address.as_str(), address) || same_text(c.to_address.as_str(), address) {
                r.push(c);
                assert(r@.map_values(|c: &ConnectionRecord| c@)
                    =~= before.map_values(|c: &ConnectionRecord| c@).push(c@));
            }
            i = i + 1;
        }
        assert(cs.subrange(0, cs.len() as int) =~= cs);
        r
    }
}

/// A user added under a new address is the one found by that address.
proof fn lemma_find_last_user(us: Seq<UserView>, u: UserView)
    ensures
        find_user(us.push(u), u.address) == us.len(),
{
    assert(us.push(u).last() == u);
}

/// A ledger's chain, built by its own operations, passes the validity check.
pub proof fn ledger_chain_is_valid(b: ChatBlockchain)
    requires
        b.wf(),
    ensures
        chain_valid(b.chain@),
{
}

/// Every block a ledger appended is sealed at its difficulty, and holds the
/// digest of its own fields.
pub proof fn ledger_blocks_sealed(b: ChatBlockchain)
    requires
        b.wf(),
    ensures
        forall|i: int| 1 <= i < b.chain@.len() ==> {
            &&& has_zero_prefix((#[trigger] b.chain@[i]).hash@, b.difficulty as nat) || b.chain@[i].nonce == u64::MAX
            &&& b.chain@[i].hash@ == b.chain@[i].digest_spec()
        },
{
}

/// A ledger holds at most one user, and at most one online status, per address.
pub proof fn ledger_addresses_unique(b: ChatBlockchain)
    requires
        b.wf(),
    ensures
        keys_unique(b.projection()),
{
    lemma_replay_keys_unique(b.chain@);
}

/// Rebuilding a second time, over the chain the first rebuild left as it was,
/// gives the same projection, chain and pool.
pub proof fn rebuild_is_idempotent(b: ChatBlockchain, once: ChatBlockchain, twice: ChatBlockchain)
    requires
        once.rebuilt_from(b),
        twice.rebuilt_from(once),
    ensures
        twice.projection() == once.projection(),
        twice.chain@ == once.chain@,
        twice.total_rewards == once.total_rewards,
{
}

/// The projection that the operations keep up to date is the one a full
/// replay of the chain gives; only the reward pool is outside the replay,
/// and a rebuild leaves it as it is.
pub proof fn rebuild_matches_incremental(b: ChatBlockchain, after: ChatBlockchain)
    requires
        b.wf(),
        after.rebuilt_from(b),
    ensures
        after.projection() == b.projection(),
        after.total_rewards == b.total_rewards,
        after.wf(),
{
}

} // verus!
