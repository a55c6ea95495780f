//! The projection that a chain of transactions describes, and how each
//! transaction changes it.

use vstd::prelude::*;
use crate::block::Block;
use crate::chat_data::{TxView, UserView, StatusView, ConnectionView};
use crate::codec::decode_tx;

verus! {

/// Users, online statuses and connections, as replaying a chain gives them.
pub struct Projection {
    pub users: Seq<UserView>,
    pub online: Seq<StatusView>,
    pub connections: Seq<ConnectionView>,
}

/// The status text that marks a user as online.
pub open spec fn online_text() -> Seq<char> {
    seq!['o', 'n', 'l', 'i', 'n', 'e']
}

/// `a + b`, or the largest `u64` where the sum does not fit.
pub open spec fn sat_add(a: u64, b: u64) -> u64 {
    if a as int + b as int > u64::MAX { u64::MAX } else { (a + b) as u64 }
}

/// Position of the user with this address, or -1.
pub open spec fn find_user(us: Seq<UserView>, a: Seq<char>) -> int
    decreases us.len(),
{
    if us.len() == 0 {
        -1
    } else if us.last().address == a {
        us.len() - 1
    } else {
        find_user(us.drop_last(), a)
    }
}

/// Position of the online status with this address, or -1.
pub open spec fn find_status(os: Seq<StatusView>, a: Seq<char>) -> int
    decreases os.len(),
{
    if os.len() == 0 {
        -1
    } else if os.last().address == a {
        os.len() - 1
    } else {
        find_status(os.drop_last(), a)
    }
}

/// The user, put in place of the one with the same address or added at the end.
pub open spec fn upsert_user(us: Seq<UserView>, u: UserView) -> Seq<UserView> {
    let i = find_user(us, u.address);
    if i >= 0 { us.update(i, u) } else { us.push(u) }
}

/// The balance of the user with this address raised by `amount`; no change
/// where no user has it.
pub open spec fn credit(us: Seq<UserView>, a: Seq<char>, amount: u64) -> Seq<UserView> {
    let i = find_user(us, a);
    if i >= 0 {
        us.update(i, UserView { token_balance: sat_add(us[i].token_balance, amount), ..us[i] })
    } else {
        us
    }
}

pub open spec fn upsert_status(os: Seq<StatusView>, s: StatusView) -> Seq<StatusView> {
    let i = find_status(os, s.address);
    if i >= 0 { os.update(i, s) } else { os.push(s) }
}

pub open spec fn remove_status(os: Seq<StatusView>, a: Seq<char>) -> Seq<StatusView> {
    let i = find_status(os, a);
    if i >= 0 { os.remove(i) } else { os }
}

/// What one transaction does to the projection.
pub open spec fn apply_tx(p: Projection, t: TxView) -> Projection {
    match t {
        TxView::UserRegister(u) => Projection { users: upsert_user(p.users, u), ..p },
        TxView::StatusUpdate(s) => if s.status == online_text() {
            Projection { online: upsert_status(p.online, s), ..p }
        } else {
            Projection { online: remove_status(p.online, s.address), ..p }
        },
        TxView::ConnectionEstablished(c) => Projection { connections: p.connections.push(c), ..p },
        TxView::RewardIssued(r) => Projection { users: credit(p.users, r.user_address, r.reward_amount), ..p },
    }
}

/// What one payload does: a payload that holds no transaction is skipped.
pub open spec fn apply_payload(p: Projection, data: Seq<char>) -> Projection {
    match decode_tx(data) {
        Some(t) => apply_tx(p, t),
        None => p,
    }
}

pub open spec fn empty_projection() -> Projection {
    Projection { users: seq![], online: seq![], connections: seq![] }
}

/// The projection that replaying the chain's payloads in order gives.
pub open spec fn replay(c: Seq<Block>) -> Projection
    decreases c.len(),
{
    if c.len() == 0 {
        empty_projection()
    } else {
        apply_payload(replay(c.drop_last()), c.last().data@)
    }
}

/// Users after a reward of `amount` to `a` from a pool holding `pool`: paid
/// only where the pool covers it.
pub open spec fn rewarded(us: Seq<UserView>, pool: u64, a: Seq<char>, amount: u64) -> Seq<UserView> {
    if pool >= amount { credit(us, a, amount) } else { us }
}

/// The pool after such a reward.
pub open spec fn pool_after(pool: u64, amount: u64) -> u64 {
    if pool >= amount { (pool - amount) as u64 } else { pool }
}

/// Blocks that such a reward appends.
pub open spec fn reward_blocks(pool: u64, amount: u64) -> nat {
    if pool >= amount { 1 } else { 0 }
}

/// The connections that involve an address, in order.
pub open spec fn involving(cs: Seq<ConnectionView>, a: Seq<char>) -> Seq<ConnectionView>
    decreases cs.len(),
{
    if cs.len() == 0 {
        seq![]
    } else if cs.last().from_address == a || cs.last().to_address == a {
        involving(cs.drop_last(), a).push(cs.last())
    } else {
        involving(cs.drop_last(), a)
    }
}

/// No two users share an address, and no two online statuses do.
pub open spec fn keys_unique(p: Projection) -> bool {
    &&& forall|i: int, j: int| 0 <= i < j < p.users.len() ==> p.users[i].address != p.users[j].address
    &&& forall|i: int, j: int| 0 <= i < j < p.online.len() ==> p.online[i].address != p.online[j].address
}

pub proof fn lemma_find_user(us: Seq<UserView>, a: Seq<char>)
    ensures
        -1 <= find_user(us, a) < us.len(),
        find_user(us, a) >= 0 ==> us[find_user(us, a)].address == a,
        find_user(us, a) == -1 ==> forall|i: int| 0 <= i < us.len() ==> us[i].address != a,
    decreases us.len(),
{
    if us.len() > 0 {
        lemma_find_user(us.drop_last(), a);
        if find_user(us, a) == -1 {
            assert forall|i: int| 0 <= i < us.len() implies #[trigger] us[i].address != a by {
                if i < us.len() - 1 {
                    assert(us[i] == us.drop_last()[i]);
                }
            }
        }
    }
}

pub proof fn lemma_find_status(os: Seq<StatusView>, a: Seq<char>)
    ensures
        -1 <= find_status(os, a) < os.len(),
        find_status(os, a) >= 0 ==> os[find_status(os, a)].address == a,
        find_status(os, a) == -1 ==> forall|i: int| 0 <= i < os.len() ==> os[i].address != a,
    decreases os.len(),
{
    if os.len() > 0 {
        lemma_find_status(os.drop_last(), a);
        if find_status(os, a) == -1 {
            assert forall|i: int| 0 <= i < os.len() implies #[trigger] os[i].address != a by {
                if i < os.len() - 1 {
                    assert(os[i] == os.drop_last()[i]);
                }
            }
        }
    }
}

/// Each transaction keeps addresses unique.
pub proof fn lemma_apply_keeps_keys_unique(p: Projection, t: TxView)
    requires
        keys_unique(p),
    ensures
        keys_unique(apply_tx(p, t)),
{
    match t {
        TxView::UserRegister(u) => { lemma_find_user(p.users, u.address); },
        TxView::StatusUpdate(s) => {
            lemma_find_status(p.online, s.address);
            let q = apply_tx(p, t);
            if s.status != online_text() {
                let i = find_status(p.online, s.address);
                if i >= 0 {
                    assert forall|a: int, b: int| 0 <= a < b < q.online.len()
                        implies q.online[a].address != q.online[b].address by {
                        let a0 = if a < i { a } else { a + 1 };
                        let b0 = if b < i { b } else { b + 1 };
                        assert(q.online[a] == p.online[a0]);
                        assert(q.online[b] == p.online[b0]);
                    }
                }
            }
        },
        TxView::ConnectionEstablished(_) => {},
        TxView::RewardIssued(r) => { lemma_find_user(p.users, r.user_address); },
    }
}

/// Replaying any chain gives a projection with unique addresses.
pub proof fn lemma_replay_keys_unique(c: Seq<Block>)
    ensures
        keys_unique(replay(c)),
    decreases c.len(),
{
    if c.len() > 0 {
        lemma_replay_keys_unique(c.drop_last());
        match decode_tx(c.last().data@) {
            Some(t) => { lemma_apply_keeps_keys_unique(replay(c.drop_last()), t); },
            None => {},
        }
    }
}

} // verus!
