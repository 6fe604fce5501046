use bridge_topology::error::InspectError;
use bridge_topology::events::asset_handler_registered_topic;
use bridge_topology::l1_asset_router::{AssetDiscovery, BalanceStage, L1AssetRouter};
use bridge_topology::primitives::{Address, Bytes32};
use bridge_topology::query::{LogEntry, Query, Reply};
use bridge_topology::registered_asset::{
    get_human_name_for, AssetHandler, AssetStage, NativeTokenVaultAsset, RegisteredAsset,
};

const ROUTER: Address = Address { hi: 0x10, lo: 0x10 };
const VAULT: Address = Address { hi: 0x20, lo: 0x20 };
const HUB: Address = Address { hi: 0x30, lo: 0x30 };
const TOKEN: Address = Address { hi: 0x40, lo: 0x40 };
const STRANGER: Address = Address { hi: 0x50, lo: 0x50 };

fn id(n: u64) -> Bytes32 {
    Bytes32::new(0xabcd, n as u128)
}

fn registration(block: u64, asset: Bytes32, tracker: Address) -> LogEntry {
    LogEntry { block_number: block, topics: vec![asset_handler_registered_topic(), asset, tracker.to_word(), Bytes32::zero()] }
}

/// Resolves one asset against a vault that names `token` for it; counts the queries for a name.
fn resolve(asset: Bytes32, tracker: Address, token: Address, name: &str) -> (RegisteredAsset, usize) {
    let mut resolver = RegisteredAsset::new(asset, tracker, &VAULT, &HUB);
    let mut name_queries = 0;
    while let Some(query) = resolver.next_query() {
        let reply = match query {
            Query::TokenAddress { vault, asset_id } => {
                assert_eq!(vault, VAULT);
                assert_eq!(asset_id, asset);
                Reply::Address(token)
            }
            Query::TokenName { token: asked } => {
                assert_eq!(asked, token);
                name_queries += 1;
                Reply::Text(name.to_string())
            }
            other => panic!("unexpected query {:?}", other),
        };
        resolver.on_reply(reply).unwrap();
    }
    (resolver.finish().unwrap(), name_queries)
}

#[test]
fn asset_tracked_by_the_hub_needs_no_query() {
    let resolver = RegisteredAsset::new(id(1), HUB, &VAULT, &HUB);
    assert_eq!(resolver.next_query(), None);
    assert_eq!(resolver.finish(), Some(RegisteredAsset { asset_id: id(1), handler: AssetHandler::Bridgehub }));
}

#[test]
fn asset_tracked_by_a_stranger_is_other() {
    let resolver = RegisteredAsset::new(id(2), STRANGER, &VAULT, &HUB);
    assert_eq!(resolver.next_query(), None);
    assert_eq!(resolver.finish(), Some(RegisteredAsset { asset_id: id(2), handler: AssetHandler::Other(STRANGER) }));
}

#[test]
fn vault_is_held_against_the_tracker_before_the_hub() {
    let resolver = RegisteredAsset::new(id(3), VAULT, &VAULT, &VAULT);
    assert_eq!(resolver.stage, AssetStage::TokenAddress);
    assert_eq!(resolver.next_query(), Some(Query::TokenAddress { vault: VAULT, asset_id: id(3) }));
    assert_eq!(resolver.finish(), None);
}

#[test]
fn vault_asset_takes_the_name_of_its_token() {
    let (asset, name_queries) = resolve(id(4), VAULT, TOKEN, "USD Coin");
    assert_eq!(name_queries, 1);
    assert_eq!(
        asset,
        RegisteredAsset {
            asset_id: id(4),
            handler: AssetHandler::NativeTokenVault(NativeTokenVaultAsset { address: TOKEN, token_name: "USD Coin".to_string() }),
        }
    );
}

#[test]
fn native_currency_is_named_without_asking_the_token() {
    let (asset, name_queries) = resolve(id(5), VAULT, Address::native_currency(), "never asked");
    assert_eq!(name_queries, 0);
    assert_eq!(
        asset.handler,
        AssetHandler::NativeTokenVault(NativeTokenVaultAsset { address: Address::new(0, 1), token_name: "ETH".to_string() })
    );
}

#[test]
fn token_at_the_zero_address_is_asked_for_its_name() {
    let (asset, name_queries) = resolve(id(6), VAULT, Address::zero(), "Nothing");
    assert_eq!(name_queries, 1);
    assert_eq!(
        asset.handler,
        AssetHandler::NativeTokenVault(NativeTokenVaultAsset { address: Address::zero(), token_name: "Nothing".to_string() })
    );
}

#[test]
fn failed_token_lookup_is_fatal() {
    let mut resolver = RegisteredAsset::new(id(7), VAULT, &VAULT, &HUB);
    assert_eq!(resolver.on_reply(Reply::Failed), Err(InspectError::Transport));
    assert_eq!(resolver.stage, AssetStage::TokenAddress);
    assert_eq!(resolver.on_reply(Reply::Text("x".to_string())), Err(InspectError::Transport));
    assert_eq!(resolver.on_reply(Reply::Address(TOKEN)), Ok(()));
    assert_eq!(resolver.stage, AssetStage::TokenName(TOKEN));
    assert_eq!(resolver.on_reply(Reply::Failed), Err(InspectError::Transport));
    assert_eq!(resolver.on_reply(Reply::Address(TOKEN)), Err(InspectError::Transport));
    assert_eq!(resolver.stage, AssetStage::TokenName(TOKEN));
    assert_eq!(resolver.finish(), None);
}

#[test]
fn reply_to_a_resolved_asset_is_a_misuse() {
    let mut resolver = RegisteredAsset::new(id(8), HUB, &VAULT, &HUB);
    assert_eq!(resolver.on_reply(Reply::Address(TOKEN)), Err(InspectError::Precondition));
    assert_eq!(resolver.stage, AssetStage::Resolved(AssetHandler::Bridgehub));
}

#[test]
fn unknown_asset_id_is_written_out() {
    let known = vec![(id(1), "Ether".to_string())];
    assert_eq!(
        get_human_name_for(Bytes32::new(0, 0x10e), &known),
        "0x000000000000000000000000000000000000000000000000000000000000010e"
    );
    assert_eq!(
        get_human_name_for(id(2), &vec![]),
        "0x0000000000000000000000000000abcd00000000000000000000000000000002"
    );
}

#[test]
fn well_known_asset_id_has_its_name() {
    let known = vec![(id(1), "Ether".to_string()), (id(2), "Dai".to_string()), (id(1), "Shadowed".to_string())];
    assert_eq!(get_human_name_for(id(1), &known), "Ether");
    assert_eq!(get_human_name_for(id(2), &known), "Dai");
}

#[test]
fn names_of_registered_assets() {
    let known = vec![(id(1), "Ether".to_string())];
    let hub_asset = RegisteredAsset { asset_id: id(1), handler: AssetHandler::Bridgehub };
    assert_eq!(hub_asset.name(&known), "Ether");
    let other = RegisteredAsset { asset_id: Bytes32::from_u64(255), handler: AssetHandler::Other(STRANGER) };
    assert_eq!(other.name(&known), "0x00000000000000000000000000000000000000000000000000000000000000ff");
    let vault_known = RegisteredAsset {
        asset_id: id(1),
        handler: AssetHandler::NativeTokenVault(NativeTokenVaultAsset { address: TOKEN, token_name: "ETH".to_string() }),
    };
    assert_eq!(vault_known.name(&known), "ETH-Ether");
    let vault_unknown = RegisteredAsset {
        asset_id: Bytes32::from_u64(1),
        handler: AssetHandler::NativeTokenVault(NativeTokenVaultAsset { address: TOKEN, token_name: "USD Coin".to_string() }),
    };
    assert_eq!(
        vault_unknown.name(&known),
        "USD Coin-0x0000000000000000000000000000000000000000000000000000000000000001"
    );
}

#[test]
fn clones_are_equal() {
    let asset = RegisteredAsset {
        asset_id: id(1),
        handler: AssetHandler::NativeTokenVault(NativeTokenVaultAsset { address: TOKEN, token_name: "Dai".to_string() }),
    };
    assert_eq!(asset.clone(), asset);
    assert_eq!(AssetHandler::Other(STRANGER).clone(), AssetHandler::Other(STRANGER));
    assert_eq!(AssetHandler::Bridgehub.clone(), AssetHandler::Bridgehub);
}

fn hub_asset(n: u64) -> RegisteredAsset {
    RegisteredAsset { asset_id: id(n), handler: AssetHandler::Bridgehub }
}

fn other_asset(n: u64, tracker: Address) -> RegisteredAsset {
    RegisteredAsset { asset_id: id(n), handler: AssetHandler::Other(tracker) }
}

#[test]
fn router_holds_one_entry_for_each_asset_id() {
    let router = L1AssetRouter::assemble(
        ROUTER,
        VAULT,
        vec![hub_asset(1), other_asset(2, STRANGER), other_asset(1, TOKEN), hub_asset(3), hub_asset(2)],
    );
    assert_eq!(router.address, ROUTER);
    assert_eq!(router.native_token_vault, VAULT);
    assert_eq!(router.registered_assets.len(), 3);
    // the later registration replaces the earlier one
    assert_eq!(router.get(&id(1)), Some(&other_asset(1, TOKEN)));
    assert_eq!(router.get(&id(2)), Some(&hub_asset(2)));
    assert_eq!(router.get(&id(3)), Some(&hub_asset(3)));
    assert_eq!(router.get(&id(4)), None);
    let mut ids: Vec<u128> = router.registered_assets.iter().map(|a| a.asset_id.lo).collect();
    ids.sort();
    assert_eq!(ids, vec![1, 2, 3]);
}

#[test]
fn router_without_assets() {
    let router = L1AssetRouter::assemble(ROUTER, VAULT, vec![]);
    assert!(router.registered_assets.is_empty());
    assert_eq!(router.get(&id(1)), None);
}

fn router_reply(query: Query, head: u64, log: &[LogEntry]) -> Reply {
    match query {
        Query::NativeTokenVault { router } if router == ROUTER => Reply::Address(VAULT),
        Query::BridgeHub { router } if router == ROUTER => Reply::Address(HUB),
        Query::BlockNumber => Reply::BlockNumber(head),
        Query::Logs { address, from_block, to_block } if address == ROUTER => Reply::Logs(
            log.iter().filter(|e| from_block <= e.block_number && e.block_number <= to_block).cloned().collect(),
        ),
        _ => Reply::Failed,
    }
}

#[test]
fn asset_discovery_asks_vault_hub_head_and_pages() {
    let log = vec![
        registration(2, id(1), HUB),
        LogEntry { block_number: 3, topics: vec![Bytes32::from_u64(5), id(9), STRANGER.to_word()] },
        registration(14, id(2), VAULT),
        registration(30, id(3), STRANGER),
    ];
    let mut discovery = AssetDiscovery::new(ROUTER, 10);
    let mut asked = Vec::new();
    while let Some(query) = discovery.next_query() {
        asked.push(query);
        discovery.on_reply(router_reply(query, 25, &log)).unwrap();
    }
    assert_eq!(
        asked,
        vec![
            Query::NativeTokenVault { router: ROUTER },
            Query::BridgeHub { router: ROUTER },
            Query::BlockNumber,
            Query::Logs { address: ROUTER, from_block: 16, to_block: 25 },
            Query::Logs { address: ROUTER, from_block: 6, to_block: 15 },
            Query::Logs { address: ROUTER, from_block: 1, to_block: 5 },
            Query::Logs { address: ROUTER, from_block: 0, to_block: 0 },
        ]
    );
    let found = discovery.finish().unwrap();
    assert_eq!(found.native_token_vault, VAULT);
    assert_eq!(found.bridgehub, HUB);
    assert_eq!(found.registrations, vec![(id(2), VAULT), (id(1), HUB)]);
}

#[test]
fn vault_asset_in_native_currency_is_registered_as_eth() {
    let log = vec![registration(7, id(1), VAULT)];
    let mut discovery = L1AssetRouter::new(ROUTER);
    while let Some(query) = discovery.next_query() {
        discovery.on_reply(router_reply(query, 100, &log)).unwrap();
    }
    let found = discovery.finish().unwrap();
    assert_eq!(found.registrations.len(), 1);
    let mut assets = Vec::new();
    let mut name_queries = 0;
    for mut resolver in found.resolvers() {
        while let Some(query) = resolver.next_query() {
            let reply = match query {
                Query::TokenAddress { vault, asset_id: asked } if vault == VAULT && asked == id(1) => {
                    Reply::Address(Address::new(0, 1))
                }
                Query::TokenName { .. } => {
                    name_queries += 1;
                    Reply::Text("wrong".to_string())
                }
                _ => Reply::Failed,
            };
            resolver.on_reply(reply).unwrap();
        }
        assets.push(resolver.finish().unwrap());
    }
    let router = L1AssetRouter::assemble(ROUTER, found.native_token_vault, assets);
    assert_eq!(name_queries, 0);
    assert_eq!(router.registered_assets.len(), 1);
    assert_eq!(
        router.get(&id(1)).unwrap().handler,
        AssetHandler::NativeTokenVault(NativeTokenVaultAsset { address: Address::new(0, 1), token_name: "ETH".to_string() })
    );
}

#[test]
fn asset_discovery_refuses_a_tracker_that_is_no_address() {
    let bad = LogEntry { block_number: 1, topics: vec![asset_handler_registered_topic(), id(1), Bytes32::new(u128::MAX, 0)] };
    let log = vec![registration(1, id(2), HUB), bad];
    let mut discovery = AssetDiscovery::new(ROUTER, 10);
    while let Some(query) = discovery.next_query() {
        discovery.on_reply(router_reply(query, 5, &log)).unwrap();
    }
    assert_eq!(discovery.finish().err(), Some(InspectError::Shape));
}

#[test]
fn asset_discovery_is_not_finished_before_the_scan_ends() {
    let mut discovery = AssetDiscovery::new(ROUTER, 10);
    assert_eq!(discovery.on_reply(Reply::Address(VAULT)), Ok(()));
    assert_eq!(discovery.on_reply(Reply::Address(HUB)), Ok(()));
    assert_eq!(discovery.on_reply(Reply::BlockNumber(3)), Ok(()));
    assert_eq!(discovery.finish().err(), Some(InspectError::Precondition));
    let fresh = AssetDiscovery::new(ROUTER, 10);
    assert_eq!(fresh.finish().err(), Some(InspectError::Precondition));
}

#[test]
fn asset_discovery_failures_are_fatal() {
    let mut discovery = AssetDiscovery::new(ROUTER, 10);
    assert_eq!(discovery.on_reply(Reply::Failed), Err(InspectError::Transport));
    assert_eq!(discovery.next_query(), Some(Query::NativeTokenVault { router: ROUTER }));
    discovery.on_reply(Reply::Address(VAULT)).unwrap();
    assert_eq!(discovery.on_reply(Reply::Word(id(1))), Err(InspectError::Transport));
    assert_eq!(discovery.next_query(), Some(Query::BridgeHub { router: ROUTER }));
    discovery.on_reply(Reply::Address(HUB)).unwrap();
    assert_eq!(discovery.on_reply(Reply::Logs(vec![])), Err(InspectError::Transport));
    assert_eq!(discovery.next_query(), Some(Query::BlockNumber));
    discovery.on_reply(Reply::BlockNumber(0)).unwrap();
    assert_eq!(discovery.on_reply(Reply::Failed), Err(InspectError::Transport));
    assert_eq!(discovery.next_query(), Some(Query::Logs { address: ROUTER, from_block: 0, to_block: 0 }));
    discovery.on_reply(Reply::Logs(vec![])).unwrap();
    assert_eq!(discovery.next_query(), None);
    assert_eq!(discovery.on_reply(Reply::Logs(vec![])), Err(InspectError::Precondition));
    assert_eq!(discovery.on_reply(Reply::Failed), Err(InspectError::Precondition));
}

#[test]
fn chain_balance_asks_for_the_token_and_then_for_its_balance() {
    let router = L1AssetRouter::assemble(ROUTER, VAULT, vec![]);
    let chain = Bytes32::from_u64(270);
    let mut lookup = router.chain_balance(chain, &id(1));
    assert_eq!(lookup.next_query(), Some(Query::TokenAddress { vault: VAULT, asset_id: id(1) }));
    assert_eq!(lookup.finish(), None);
    assert_eq!(lookup.on_reply(Reply::Address(TOKEN)), Ok(()));
    assert_eq!(lookup.next_query(), Some(Query::ChainBalance { vault: VAULT, chain, token: TOKEN }));
    assert_eq!(lookup.on_reply(Reply::Word(Bytes32::new(1, 5))), Ok(()));
    assert_eq!(lookup.next_query(), None);
    assert_eq!(lookup.finish(), Some(Bytes32::new(1, 5)));
    assert_eq!(lookup.on_reply(Reply::Word(Bytes32::zero())), Err(InspectError::Precondition));
}

#[test]
fn chain_balance_failures_are_fatal() {
    let router = L1AssetRouter::assemble(ROUTER, VAULT, vec![]);
    let mut lookup = router.chain_balance(Bytes32::from_u64(1), &id(1));
    assert_eq!(lookup.on_reply(Reply::Failed), Err(InspectError::Transport));
    assert_eq!(lookup.on_reply(Reply::Word(Bytes32::zero())), Err(InspectError::Transport));
    assert_eq!(lookup.stage, BalanceStage::TokenAddress);
    lookup.on_reply(Reply::Address(TOKEN)).unwrap();
    assert_eq!(lookup.on_reply(Reply::Failed), Err(InspectError::Transport));
    assert_eq!(lookup.on_reply(Reply::Address(TOKEN)), Err(InspectError::Transport));
    assert_eq!(lookup.stage, BalanceStage::Balance(TOKEN));
}

#[test]
fn discovered_assets_hand_out_one_resolver_for_each_registration() {
    let log = vec![registration(1, id(1), HUB), registration(2, id(2), VAULT), registration(3, id(3), STRANGER)];
    let mut discovery = AssetDiscovery::new(ROUTER, 100);
    while let Some(query) = discovery.next_query() {
        discovery.on_reply(router_reply(query, 10, &log)).unwrap();
    }
    let found = discovery.finish().unwrap();
    let resolvers = found.resolvers();
    assert_eq!(resolvers.len(), 3);
    assert_eq!(resolvers[0], RegisteredAsset::new(id(1), HUB, &VAULT, &HUB));
    assert_eq!(resolvers[1], RegisteredAsset::new(id(2), VAULT, &VAULT, &HUB));
    assert_eq!(resolvers[2], RegisteredAsset::new(id(3), STRANGER, &VAULT, &HUB));
    assert_eq!(resolvers[1].next_query(), Some(Query::TokenAddress { vault: VAULT, asset_id: id(2) }));
}
