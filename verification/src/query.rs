//! The read-only questions that can be put to a node, and its answers.
//!
//! The transport is not part of this library. An operation names a [`Query`];
//! the caller performs it and hands back a [`Reply`].

use vstd::prelude::*;
use crate::error::InspectError;
use crate::primitives::{Address, Bytes32, Uint256};

verus! {

/// One entry of a contract's event log.
#[derive(Debug, PartialEq, Eq)]
pub struct LogEntry {
    /// The block in which the event was emitted.
    pub block_number: u64,
    /// The indexed values; the first is the hash of the event's signature.
    pub topics: Vec<Bytes32>,
}

impl Clone for LogEntry {
    fn clone(&self) -> (copy: LogEntry)
        ensures
            copy.block_number == self.block_number,
            copy.topics@ == self.topics@,
    {
        let topics = self.topics.clone();
        proof {
            assert(topics@ =~= self.topics@);
        }
        LogEntry { block_number: self.block_number, topics }
    }
}

/// The views of a transition contract that make up its snapshot.
#[derive(Clone, Copy, Debug, PartialEq, Eq, Structural)]
pub enum SnapshotField {
    Verifier,
    Admin,
    TotalBatchesCommitted,
    TotalBatchesVerified,
    TotalBatchesExecuted,
    SemverProtocolVersion,
    L2BootloaderBytecodeHash,
    L2DefaultAccountBytecodeHash,
    L2SystemContractsUpgradeTxHash,
    ChainId,
    SettlementLayer,
}

/// A read-only question to the node or to a contract behind it.
#[derive(Clone, Copy, Debug, PartialEq, Eq, Structural)]
pub enum Query {
    /// The number of the newest block.
    BlockNumber,
    /// The code stored at an address.
    CodeAt { address: Address },
    /// The events that a contract emitted in the blocks `from_block` to
    /// `to_block`, both included.
    Logs { address: Address, from_block: u64, to_block: u64 },
    /// The chains that the settlement layer knows, each with its contract.
    Hyperchains,
    /// Hub: `sharedBridge()`.
    SharedBridge { hub: Address },
    /// Hub: `stateTransitionManager(chainId)`.
    StateTransitionManager { hub: Address, chain_id: u64 },
    /// Hub: `baseToken(chainId)`.
    BaseToken { hub: Address, chain_id: u64 },
    /// Hub: `getHyperchain(chainId)`.
    GetHyperchain { hub: Address, chain_id: u64 },
    /// Hub: `stmAssetIdFromChainId(chainId)`.
    StmAssetIdFromChainId { hub: Address, chain_id: u64 },
    /// Transition manager: `validatorTimelock()`.
    ValidatorTimelock { manager: Address },
    /// Transition contract: one view of its snapshot.
    Snapshot { contract: Address, field: SnapshotField },
    /// Asset router: `nativeTokenVault()`.
    NativeTokenVault { router: Address },
    /// Asset router: `BRIDGE_HUB()`.
    BridgeHub { router: Address },
    /// Native token vault: `tokenAddress(assetId)`.
    TokenAddress { vault: Address, asset_id: Bytes32 },
    /// Native token vault: `chainBalance(chain, token)`.
    ChainBalance { vault: Address, chain: Uint256, token: Address },
    /// Token: `name()`.
    TokenName { token: Address },
}

/// What came back for a query.
#[derive(Debug, PartialEq, Eq)]
pub enum Reply {
    /// The call failed: the network, the decoding of the reply, or a revert.
    Failed,
    Address(Address),
    Word(Bytes32),
    /// A protocol version: major, minor, patch.
    Version(u32, u32, u32),
    Text(String),
    Code(Vec<u8>),
    BlockNumber(u64),
    Logs(Vec<LogEntry>),
    Hyperchains(Vec<(u64, Address)>),
}

impl Reply {
    /// The address in the reply. A reply of any other shape counts as a
    /// failed call.
    pub fn into_address(self) -> (address: Result<Address, InspectError>)
        ensures
            match self {
                Reply::Address(a) => address == Ok::<Address, InspectError>(a),
                _ => address == Err::<Address, InspectError>(InspectError::Transport),
            },
    {
        match self {
            Reply::Address(a) => Ok(a),
            _ => Err(InspectError::Transport),
        }
    }

    /// The word in the reply. A reply of any other shape counts as a failed
    /// call.
    pub fn into_word(self) -> (word: Result<Bytes32, InspectError>)
        ensures
            match self {
                Reply::Word(w) => word == Ok::<Bytes32, InspectError>(w),
                _ => word == Err::<Bytes32, InspectError>(InspectError::Transport),
            },
    {
        match self {
            Reply::Word(w) => Ok(w),
            _ => Err(InspectError::Transport),
        }
    }
}

} // verus!
