use std::collections::HashSet;

use bridge_topology::bridgehub::{
    Bridgehub, BridgehubChainDetails, ProbePhase, TopologyResolver, TopologyStage,
};
use bridge_topology::discovery::NetworkRole;
use bridge_topology::error::InspectError;
use bridge_topology::events::HubEvents;
use bridge_topology::primitives::{Address, Bytes32};
use bridge_topology::query::{LogEntry, Query, Reply, SnapshotField};

fn hub() -> Address {
    Address::new(0xaa, 0xbb)
}

const STM: Address = Address { hi: 1, lo: 10 };
const BASE: Address = Address { hi: 2, lo: 20 };
const ST: Address = Address { hi: 3, lo: 30 };
const BRIDGE: Address = Address { hi: 4, lo: 40 };
const TIMELOCK: Address = Address { hi: 5, lo: 50 };
const ASSET: Bytes32 = Bytes32 { hi: 6, lo: 60 };

/// A chain on which chain 270 is registered; `base_token_set` tells whether the hub can name its base token.
fn answer(query: Query, base_token_set: bool) -> Reply {
    match query {
        Query::StateTransitionManager { hub: h, chain_id: 270 } if h == hub() => Reply::Address(STM),
        Query::BaseToken { hub: h, chain_id: 270 } if h == hub() => {
            if base_token_set {
                Reply::Address(BASE)
            } else {
                Reply::Failed
            }
        }
        Query::GetHyperchain { hub: h, chain_id: 270 } if h == hub() => Reply::Address(ST),
        Query::SharedBridge { hub: h } if h == hub() => Reply::Address(BRIDGE),
        Query::ValidatorTimelock { manager } if manager == STM => Reply::Address(TIMELOCK),
        Query::StmAssetIdFromChainId { hub: h, chain_id: 270 } if h == hub() => Reply::Word(ASSET),
        _ => Reply::Failed,
    }
}

fn resolve(chain_id: u64, base_token_set: bool) -> (Vec<Query>, Result<BridgehubChainDetails, InspectError>) {
    let mut resolver = TopologyResolver::new(hub(), chain_id);
    let mut asked = Vec::new();
    while let Some(query) = resolver.next_query() {
        asked.push(query);
        if let Err(e) = resolver.on_reply(answer(query, base_token_set)) {
            return (asked, Err(e));
        }
    }
    (asked, Ok(resolver.finish().unwrap()))
}

#[test]
fn topology_is_resolved_by_six_queries_in_order() {
    let (asked, details) = resolve(270, true);
    assert_eq!(
        asked,
        vec![
            Query::StateTransitionManager { hub: hub(), chain_id: 270 },
            Query::BaseToken { hub: hub(), chain_id: 270 },
            Query::GetHyperchain { hub: hub(), chain_id: 270 },
            Query::SharedBridge { hub: hub() },
            Query::ValidatorTimelock { manager: STM },
            Query::StmAssetIdFromChainId { hub: hub(), chain_id: 270 },
        ]
    );
    assert_eq!(
        details,
        Ok(BridgehubChainDetails {
            stm_address: STM,
            st_address: ST,
            shared_bridge_address: BRIDGE,
            base_token_address: BASE,
            validator_timelock_address: TIMELOCK,
            stm_asset_id: ASSET,
        })
    );
}

#[test]
fn failed_base_token_lookup_yields_the_zero_address() {
    let (asked, details) = resolve(270, false);
    assert_eq!(asked.len(), 6);
    let details = details.unwrap();
    assert_eq!(details.base_token_address, Address::zero());
    assert_eq!(details.stm_address, STM);
    assert_eq!(details.st_address, ST);
    assert_eq!(details.shared_bridge_address, BRIDGE);
    assert_eq!(details.validator_timelock_address, TIMELOCK);
    assert_eq!(details.stm_asset_id, ASSET);
}

#[test]
fn base_token_reply_of_another_shape_counts_as_failed() {
    let mut resolver = TopologyResolver::new(hub(), 270);
    assert_eq!(resolver.on_reply(Reply::Address(STM)), Ok(()));
    assert_eq!(resolver.on_reply(Reply::Word(ASSET)), Ok(()));
    assert_eq!(resolver.stage, TopologyStage::Hyperchain);
    assert_eq!(resolver.details.base_token_address, Address::zero());
}

#[test]
fn resolving_twice_gives_the_same_details() {
    let first = resolve(270, true).1.unwrap();
    let second = resolve(270, true).1.unwrap();
    assert_eq!(first, second);
}

#[test]
fn unknown_chain_fails_at_the_first_lookup() {
    let (asked, details) = resolve(999, true);
    assert_eq!(asked, vec![Query::StateTransitionManager { hub: hub(), chain_id: 999 }]);
    assert_eq!(details, Err(InspectError::Transport));
}

#[test]
fn every_lookup_but_the_base_token_is_fatal() {
    let good = [
        Reply::Address(STM),
        Reply::Address(BASE),
        Reply::Address(ST),
        Reply::Address(BRIDGE),
        Reply::Address(TIMELOCK),
        Reply::Word(ASSET),
    ];
    for failing in 0..6usize {
        let mut resolver = TopologyResolver::new(hub(), 270);
        let mut outcome = Ok(());
        for (i, reply) in good.iter().enumerate() {
            let before = resolver;
            let reply = if i == failing { Reply::Failed } else { reply.clone_reply() };
            outcome = resolver.on_reply(reply);
            if outcome.is_err() {
                assert_eq!(resolver, before);
                break;
            }
        }
        if failing == 1 {
            assert_eq!(outcome, Ok(()));
            assert_eq!(resolver.finish().unwrap().base_token_address, Address::zero());
        } else {
            assert_eq!(outcome, Err(InspectError::Transport));
            assert_eq!(resolver.finish(), None);
        }
    }
}

trait CloneReply {
    fn clone_reply(&self) -> Reply;
}

impl CloneReply for Reply {
    fn clone_reply(&self) -> Reply {
        match self {
            Reply::Address(a) => Reply::Address(*a),
            Reply::Word(w) => Reply::Word(*w),
            _ => Reply::Failed,
        }
    }
}

#[test]
fn asset_id_must_be_a_word() {
    let mut resolver = TopologyResolver::new(hub(), 270);
    for reply in [Reply::Address(STM), Reply::Address(BASE), Reply::Address(ST), Reply::Address(BRIDGE), Reply::Address(TIMELOCK)] {
        assert_eq!(resolver.on_reply(reply), Ok(()));
    }
    assert_eq!(resolver.stage, TopologyStage::AssetId);
    assert_eq!(resolver.on_reply(Reply::Address(STM)), Err(InspectError::Transport));
    assert_eq!(resolver.stage, TopologyStage::AssetId);
    assert_eq!(resolver.on_reply(Reply::Word(ASSET)), Ok(()));
    assert_eq!(resolver.next_query(), None);
}

#[test]
fn reply_to_a_complete_resolver_is_a_misuse() {
    let mut resolver = TopologyResolver::new(hub(), 270);
    while let Some(query) = resolver.next_query() {
        resolver.on_reply(answer(query, true)).unwrap();
    }
    let done = resolver;
    assert_eq!(resolver.on_reply(Reply::Address(STM)), Err(InspectError::Precondition));
    assert_eq!(resolver, done);
}

#[test]
fn unfinished_resolver_has_no_details() {
    let mut resolver = TopologyResolver::new(hub(), 270);
    assert_eq!(resolver.finish(), None);
    resolver.on_reply(Reply::Address(STM)).unwrap();
    assert_eq!(resolver.finish(), None);
}

#[test]
fn timelock_is_asked_of_the_transition_manager_that_the_hub_named() {
    let mut resolver = TopologyResolver::new(hub(), 1);
    let manager = Address::new(0x77, 0x88);
    resolver.on_reply(Reply::Address(manager)).unwrap();
    resolver.on_reply(Reply::Failed).unwrap();
    resolver.on_reply(Reply::Address(ST)).unwrap();
    resolver.on_reply(Reply::Address(BRIDGE)).unwrap();
    assert_eq!(resolver.next_query(), Some(Query::ValidatorTimelock { manager }));
}

fn probe_reply(query: Query) -> Reply {
    match query {
        Query::CodeAt { .. } => Reply::Code(vec![0x60, 0x80]),
        Query::SharedBridge { .. } => Reply::Address(BRIDGE),
        Query::BlockNumber => Reply::BlockNumber(3),
        Query::Logs { from_block, to_block, .. } => {
            let entry = LogEntry { block_number: 2, topics: vec![HubEvents::new().new_chain, Bytes32::from_u64(270)] };
            if from_block <= 2 && 2 <= to_block {
                Reply::Logs(vec![entry])
            } else {
                Reply::Logs(vec![])
            }
        }
        Query::Hyperchains => Reply::Hyperchains(vec![(324, ST), (325, ST)]),
        _ => Reply::Failed,
    }
}

#[test]
fn hub_without_code_is_not_found() {
    let mut probe = Bridgehub::new(hub(), true, NetworkRole::RootChain);
    assert_eq!(probe.next_query(), Some(Query::CodeAt { address: hub() }));
    assert_eq!(probe.on_reply(Reply::Code(vec![])), Err(InspectError::NotFound));
    assert_eq!(probe.phase, ProbePhase::Code);
    assert!(probe.finish().is_none());
}

#[test]
fn hub_code_query_that_fails_is_a_transport_error() {
    let mut probe = Bridgehub::new(hub(), false, NetworkRole::RootChain);
    assert_eq!(probe.on_reply(Reply::Failed), Err(InspectError::Transport));
    assert_eq!(probe.next_query(), Some(Query::CodeAt { address: hub() }));
}

#[test]
fn hub_read_without_discovery_knows_no_chains() {
    let mut probe = Bridgehub::new(hub(), false, NetworkRole::RootChain);
    let mut asked = Vec::new();
    while let Some(query) = probe.next_query() {
        asked.push(query);
        probe.on_reply(probe_reply(query)).unwrap();
    }
    assert_eq!(asked, vec![Query::CodeAt { address: hub() }, Query::SharedBridge { hub: hub() }]);
    let read = probe.finish().unwrap();
    assert_eq!(read.address, hub());
    assert_eq!(read.shared_bridge, BRIDGE);
    assert_eq!(read.known_chains, None);
    assert_eq!(read.print_detailed_info(), Err(InspectError::Precondition));
}

#[test]
fn hub_read_with_discovery_on_the_root_chain() {
    let mut probe = Bridgehub::new(hub(), true, NetworkRole::RootChain);
    let mut asked = Vec::new();
    while let Some(query) = probe.next_query() {
        asked.push(query);
        probe.on_reply(probe_reply(query)).unwrap();
    }
    assert_eq!(
        asked,
        vec![
            Query::CodeAt { address: hub() },
            Query::SharedBridge { hub: hub() },
            Query::BlockNumber,
            Query::Logs { address: hub(), from_block: 1, to_block: 3 },
            Query::Logs { address: hub(), from_block: 0, to_block: 0 },
        ]
    );
    let read = probe.finish().unwrap();
    let expected: HashSet<u64> = [270].into_iter().collect();
    assert_eq!(read.known_chains, Some(expected.clone()));
    assert_eq!(read.print_detailed_info(), Ok(&expected));
}

#[test]
fn hub_read_with_discovery_on_a_rollup() {
    let mut probe = Bridgehub::new(hub(), true, NetworkRole::Rollup);
    let mut asked = Vec::new();
    while let Some(query) = probe.next_query() {
        asked.push(query);
        probe.on_reply(probe_reply(query)).unwrap();
    }
    assert_eq!(asked, vec![Query::CodeAt { address: hub() }, Query::SharedBridge { hub: hub() }, Query::Hyperchains]);
    assert_eq!(probe.finish().unwrap().known_chains, Some([324u64, 325].into_iter().collect()));
}

#[test]
fn failed_discovery_fails_the_probe_and_leaves_it_waiting() {
    let mut probe = Bridgehub::new(hub(), true, NetworkRole::RootChain);
    probe.on_reply(Reply::Code(vec![1])).unwrap();
    probe.on_reply(Reply::Address(BRIDGE)).unwrap();
    assert_eq!(probe.phase, ProbePhase::Chains);
    assert_eq!(probe.on_reply(Reply::Failed), Err(InspectError::Transport));
    assert_eq!(probe.phase, ProbePhase::Chains);
    assert_eq!(probe.next_query(), Some(Query::BlockNumber));
    assert!(probe.finish().is_none());
}

#[test]
fn reply_to_a_finished_probe_is_a_misuse() {
    let mut probe = Bridgehub::new(hub(), false, NetworkRole::RootChain);
    probe.on_reply(Reply::Code(vec![1])).unwrap();
    probe.on_reply(Reply::Address(BRIDGE)).unwrap();
    assert_eq!(probe.on_reply(Reply::Address(BRIDGE)), Err(InspectError::Precondition));
}

#[test]
fn hub_hands_out_resolvers_for_its_own_address() {
    let read = Bridgehub { address: hub(), shared_bridge: BRIDGE, known_chains: None };
    assert_eq!(read.get_chain_details(270), TopologyResolver::new(hub(), 270));
    let lookup = read.get_state_transition(270);
    assert_eq!(lookup.next_query(), Some(Query::GetHyperchain { hub: hub(), chain_id: 270 }));
}

#[test]
fn state_transition_lookup_reads_the_contract_that_the_hub_names() {
    let read = Bridgehub { address: hub(), shared_bridge: BRIDGE, known_chains: None };
    let mut lookup = read.get_state_transition(270);
    assert_eq!(lookup.finish(), None);
    assert_eq!(lookup.on_reply(Reply::Failed), Err(InspectError::Transport));
    assert_eq!(lookup.on_reply(Reply::Address(ST)), Ok(()));
    assert_eq!(lookup.next_query(), Some(Query::Snapshot { contract: ST, field: SnapshotField::Verifier }));
    let mut count = 0;
    while let Some(query) = lookup.next_query() {
        let reply = match query {
            Query::Snapshot { contract, field } => {
                assert_eq!(contract, ST);
                match field {
                    SnapshotField::Verifier | SnapshotField::Admin | SnapshotField::SettlementLayer => Reply::Address(STM),
                    SnapshotField::SemverProtocolVersion => Reply::Version(0, 24, 2),
                    _ => Reply::Word(Bytes32::from_u64(11)),
                }
            }
            other => panic!("unexpected query {:?}", other),
        };
        lookup.on_reply(reply).unwrap();
        count += 1;
    }
    assert_eq!(count, 11);
    let snapshot = lookup.finish().unwrap();
    assert_eq!(snapshot.protocol_version, (0, 24, 2));
    assert_eq!(snapshot.verifier, STM);
    assert_eq!(snapshot.chain_id, Bytes32::from_u64(11));
    assert_eq!(lookup.on_reply(Reply::Failed), Err(InspectError::Precondition));
}
