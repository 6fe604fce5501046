//! Event signatures and what is read out of a log entry's topics.

use vstd::prelude::*;
use vstd::string::StringSliceAdditionalSpecFns;
use crate::error::InspectError;
use crate::primitives::{two_pow_64, Address, Bytes32};
use crate::query::LogEntry;

verus! {

/// The Keccak-256 digest of `data`, read as a big-endian number.
pub uninterp spec fn keccak256_digest(data: Seq<u8>) -> nat;

/// Hashes `data` with `alloy::primitives::keccak256`. The digest depends on
/// the bytes alone; it is not computed here but named.
#[verifier::external_body]
fn keccak256(data: &[u8]) -> (digest: Bytes32)
    ensures
        digest@ == keccak256_digest(data@),
{
    let hash = alloy::primitives::keccak256(data);
    let mut hi = [0u8; 16];
    let mut lo = [0u8; 16];
    hi.copy_from_slice(&hash.0[..16]);
    lo.copy_from_slice(&hash.0[16..]);
    Bytes32 { hi: u128::from_be_bytes(hi), lo: u128::from_be_bytes(lo) }
}

/// The signature of the hub's event for a newly registered chain.
pub open spec fn new_chain_signature() -> Seq<u8> {
    "NewChain(uint256,address,address)".spec_bytes()
}

/// The signature of the hub's event for a registered asset.
pub open spec fn asset_registered_signature() -> Seq<u8> {
    "AssetRegistered(bytes32,address,bytes32,address)".spec_bytes()
}

/// The signature of the asset router's event for a registered asset handler.
pub open spec fn asset_handler_registered_signature() -> Seq<u8> {
    "AssetHandlerRegisteredInitial(bytes32,address,bytes32,address)".spec_bytes()
}

/// The topic under which an event with the given signature is logged.
pub fn signature_topic(signature: &str) -> (topic: Bytes32)
    ensures
        topic@ == keccak256_digest(signature.spec_bytes()),
{
    keccak256(signature.as_bytes())
}

/// The topic of the asset router's event for a registered asset handler.
pub fn asset_handler_registered_topic() -> (topic: Bytes32)
    ensures
        topic@ == keccak256_digest(asset_handler_registered_signature()),
{
    signature_topic("AssetHandlerRegisteredInitial(bytes32,address,bytes32,address)")
}

/// The kinds of event that a scan of the hub tells apart.
#[derive(Clone, Copy, Debug, PartialEq, Eq, Structural)]
pub enum HubEvent {
    /// A chain was registered.
    NewChain,
    /// An asset was registered; a scan of the hub passes over it.
    AssetRegistered,
    /// Anything else, an entry without topics included.
    Unrecognized,
}

/// The first topics of the hub's events.
#[derive(Clone, Copy, Debug, PartialEq, Eq, Structural)]
pub struct HubEvents {
    pub new_chain: Bytes32,
    pub asset_registered: Bytes32,
}

impl HubEvents {
    /// The topics are the hashes of the hub's two event signatures.
    pub open spec fn genuine(self) -> bool {
        &&& self.new_chain@ == keccak256_digest(new_chain_signature())
        &&& self.asset_registered@ == keccak256_digest(asset_registered_signature())
    }

    /// The kind of an entry, by its first topic.
    pub open spec fn kind_of(self, log: LogEntry) -> HubEvent {
        if log.topics@.len() == 0 {
            HubEvent::Unrecognized
        } else if log.topics@[0] == self.new_chain {
            HubEvent::NewChain
        } else if log.topics@[0] == self.asset_registered {
            HubEvent::AssetRegistered
        } else {
            HubEvent::Unrecognized
        }
    }

    /// The topics of the hub's events.
    pub fn new() -> (events: HubEvents)
        ensures
            events.genuine(),
    {
        HubEvents {
            new_chain: signature_topic("NewChain(uint256,address,address)"),
            asset_registered: signature_topic(
                "AssetRegistered(bytes32,address,bytes32,address)",
            ),
        }
    }

    /// Tells the kind of an entry.
    pub fn classify(&self, log: &LogEntry) -> (kind: HubEvent)
        ensures
            kind == self.kind_of(*log),
    {
        if log.topics.len() == 0 {
            HubEvent::Unrecognized
        } else if log.topics[0] == self.new_chain {
            HubEvent::NewChain
        } else if log.topics[0] == self.asset_registered {
            HubEvent::AssetRegistered
        } else {
            HubEvent::Unrecognized
        }
    }
}

impl LogEntry {
    /// The entry's first topic is `signature`.
    pub open spec fn has_signature(self, signature: Bytes32) -> bool {
        self.topics@.len() > 0 && self.topics@[0] == signature
    }

    /// The chain id that an entry for a new chain announces: its second
    /// topic, cut down to 64 bits. `None` where the entry has no second
    /// topic.
    pub open spec fn announced_chain(self) -> Option<u64> {
        if self.topics@.len() >= 2 {
            Some((self.topics@[1]@ % two_pow_64()) as u64)
        } else {
            None
        }
    }

    /// The asset id and the deployment tracker that an entry for a
    /// registered asset handler names: its second topic, and its third
    /// narrowed to an address. `None` where a topic is missing or the third
    /// is no address.
    pub open spec fn registered_handler(self) -> Option<(Bytes32, Address)> {
        if self.topics@.len() >= 3 && self.topics@[2].hi <= 0xffff_ffff {
            Some(
                (
                    self.topics@[1],
                    Address { hi: self.topics@[2].hi as u32, lo: self.topics@[2].lo },
                ),
            )
        } else {
            None
        }
    }

    /// Whether the entry's first topic is `signature`.
    pub fn matches_signature(&self, signature: &Bytes32) -> (matches: bool)
        ensures
            matches == self.has_signature(*signature),
    {
        self.topics.len() > 0 && self.topics[0] == *signature
    }

    /// Reads the chain id out of an entry for a new chain.
    pub fn chain_id(&self) -> (id: Result<u64, InspectError>)
        ensures
            match self.announced_chain() {
                Some(chain) => id == Ok::<u64, InspectError>(chain),
                None => id == Err::<u64, InspectError>(InspectError::Shape),
            },
    {
        if self.topics.len() >= 2 {
            Ok(self.topics[1].low_u64())
        } else {
            Err(InspectError::Shape)
        }
    }

    /// Reads asset id and deployment tracker out of an entry for a
    /// registered asset handler.
    pub fn asset_registration(&self) -> (pair: Result<(Bytes32, Address), InspectError>)
        ensures
            match self.registered_handler() {
                Some(named) => pair == Ok::<(Bytes32, Address), InspectError>(named),
                None => pair == Err::<(Bytes32, Address), InspectError>(InspectError::Shape),
            },
            self.registered_handler() matches Some(named) ==> named.1@ == self.topics@[2]@,
            self.registered_handler() is Some <==> self.topics@.len() >= 3
                && self.topics@[2]@ < crate::primitives::two_pow_160(),
    {
        if self.topics.len() >= 3 {
            let tracker = self.topics[2].to_address()?;
            Ok((self.topics[1], tracker))
        } else {
            Err(InspectError::Shape)
        }
    }
}

} // verus!
