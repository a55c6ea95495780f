//! The shapes of requests and responses of the ledger's service, and the
//! parts of its handlers that decide what a response says.

use vstd::prelude::*;
use crate::chat_blockchain::ChatBlockchain;
use crate::blockchain::chain_valid;

verus! {

pub struct RegisterRequest {
    pub address: String,
    pub username: String,
    pub public_key: String,
}

pub struct StatusUpdateRequest {
    pub address: String,
    pub username: String,
    pub status: String,
    pub node_id: String,
}

pub struct ConnectionRequest {
    pub from_address: String,
    pub to_address: String,
    pub connection_type: String,
}

pub struct ApiResponse<T> {
    pub success: bool,
    pub data: Option<T>,
    pub message: String,
}

/// The figures the service reports about a ledger.
pub struct LedgerStats {
    pub block_count: usize,
    pub user_count: usize,
    pub online_count: usize,
    pub connection_count: usize,
    pub total_rewards: u64,
    pub is_valid: bool,
}

/// The response to a registration: the address on success, and a message
/// that says which way it went.
pub fn register_response(success: bool, address: String) -> (r: ApiResponse<String>)
    ensures
        r.success == success,
        success ==> (r.data matches Some(a) && a@ == address@),
        !success ==> r.data is None,
        r.message@ == (if success { "User registered successfully"@ } else { "User already exists"@ }),
{
    if success {
        ApiResponse { success, data: Some(address), message: "User registered successfully".to_string() }
    } else {
        ApiResponse { success, data: None, message: "User already exists".to_string() }
    }
}

/// The response to a lookup of one user.
pub fn user_response<T>(user: Option<T>) -> (r: ApiResponse<T>)
    ensures
        r.success == user is Some,
        r.data == user,
        r.message@ == (if user is Some { "User found"@ } else { "User not found"@ }),
{
    let found = user.is_some();
    ApiResponse {
        success: found,
        data: user,
        message: if found { "User found".to_string() } else { "User not found".to_string() },
    }
}

impl ChatBlockchain {
    /// Counts of blocks, users, online users and connections, the pool, and
    /// whether the chain is valid.
    pub fn stats(&self) -> (r: LedgerStats)
        ensures
            r.block_count == self.chain@.len(),
            r.user_count == self.users@.len(),
            r.online_count == self.online_users@.len(),
            r.connection_count == self.connections@.len(),
            r.total_rewards == self.total_rewards,
            r.is_valid == chain_valid(self.chain@),
    {
        LedgerStats {
            block_count: self.chain.len(),
            user_count: self.users.len(),
            online_count: self.online_users.len(),
            connection_count: self.connections.len(),
            total_rewards: self.total_rewards,
            is_valid: self.is_valid(),
        }
    }
}

} // verus!
