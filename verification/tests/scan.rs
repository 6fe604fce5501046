use std::collections::HashSet;

use bridge_topology::bridgehub::Bridgehub;
use bridge_topology::discovery::{ChainDiscovery, DiscoveryPhase, NetworkRole};
use bridge_topology::error::InspectError;
use bridge_topology::events::HubEvents;
use bridge_topology::primitives::{Address, Bytes32};
use bridge_topology::query::{LogEntry, Query, Reply};
use bridge_topology::scanner::{BlockWindow, LogWindowScanner, ScanCursor, DEFAULT_WINDOW};

fn hub() -> Address {
    Address::new(0x1111, 0x2222)
}

fn new_chain(block: u64, chain_id: u64) -> LogEntry {
    LogEntry { block_number: block, topics: vec![HubEvents::new().new_chain, Bytes32::from_u64(chain_id), Bytes32::zero()] }
}

fn page(log: &[LogEntry], from: u64, to: u64) -> Vec<LogEntry> {
    log.iter().filter(|e| from <= e.block_number && e.block_number <= to).cloned().collect()
}

fn windows_from(head: u64, size: u64) -> Vec<(u64, u64)> {
    let mut cursor = ScanCursor::Scanning(head);
    let mut out = Vec::new();
    while let Some(window) = cursor.current_window(size) {
        out.push((window.from_block, window.to_block));
        cursor = cursor.advance(size);
    }
    out
}

/// Runs a discovery on the root chain against a hub log; returns the windows asked and the outcome.
fn discover(log: &[LogEntry], head: u64, size: u64) -> (Vec<(u64, u64)>, Result<HashSet<u64>, InspectError>) {
    let mut discovery = ChainDiscovery::new(hub(), NetworkRole::RootChain, size);
    let mut asked = Vec::new();
    while let Some(query) = discovery.next_query() {
        let reply = match query {
            Query::BlockNumber => Reply::BlockNumber(head),
            Query::Logs { address, from_block, to_block } => {
                assert_eq!(address, hub());
                asked.push((from_block, to_block));
                Reply::Logs(page(log, from_block, to_block))
            }
            other => panic!("unexpected query {:?}", other),
        };
        if let Err(e) = discovery.on_reply(reply) {
            return (asked, Err(e));
        }
    }
    (asked, Ok(discovery.finish().unwrap()))
}

#[test]
fn default_window_is_ten_thousand_blocks() {
    assert_eq!(DEFAULT_WINDOW, 10_000);
}

#[test]
fn windows_from_head_25000() {
    assert_eq!(windows_from(25_000, 10_000), vec![(15_001, 25_000), (5_001, 15_000), (1, 5_000), (0, 0)]);
}

#[test]
fn head_zero_has_exactly_one_window() {
    assert_eq!(windows_from(0, 10_000), vec![(0, 0)]);
    assert_eq!(windows_from(0, 1), vec![(0, 0)]);
}

#[test]
fn windows_when_the_head_is_a_multiple_of_the_size() {
    assert_eq!(windows_from(20_000, 10_000), vec![(10_001, 20_000), (1, 10_000), (0, 0)]);
    assert_eq!(windows_from(10_000, 10_000), vec![(1, 10_000), (0, 0)]);
}

#[test]
fn windows_of_one_block() {
    assert_eq!(windows_from(3, 1), vec![(3, 3), (2, 2), (1, 1), (0, 0)]);
}

#[test]
fn window_larger_than_the_chain() {
    assert_eq!(windows_from(7, u64::MAX), vec![(1, 7), (0, 0)]);
    assert_eq!(windows_from(u64::MAX, u64::MAX), vec![(1, u64::MAX), (0, 0)]);
}

#[test]
fn windows_hold_every_block_exactly_once() {
    for head in 0..60u64 {
        for size in 1..20u64 {
            let windows = windows_from(head, size);
            for block in 0..=head + 2 {
                let hits = windows.iter().filter(|(from, to)| *from <= block && block <= *to).count();
                assert_eq!(hits, if block <= head { 1 } else { 0 });
            }
        }
    }
}

#[test]
fn cursor_states() {
    assert_eq!(ScanCursor::Done.current_window(5), None);
    assert_eq!(ScanCursor::Done.advance(5), ScanCursor::Done);
    assert_eq!(ScanCursor::Scanning(12).current_window(5), Some(BlockWindow { from_block: 8, to_block: 12 }));
    assert_eq!(ScanCursor::Scanning(12).advance(5), ScanCursor::Scanning(7));
    assert_eq!(ScanCursor::Scanning(3).advance(5), ScanCursor::Scanning(0));
    assert_eq!(ScanCursor::Scanning(0).advance(5), ScanCursor::Done);
}

#[test]
fn hub_with_two_chains_is_scanned_in_four_windows() {
    let log = vec![new_chain(500, 271), new_chain(12_500, 270)];
    let (asked, found) = discover(&log, 25_000, 10_000);
    assert_eq!(asked, vec![(15_001, 25_000), (5_001, 15_000), (1, 5_000), (0, 0)]);
    let expected: HashSet<u64> = [270, 271].into_iter().collect();
    assert_eq!(found, Ok(expected));
}

#[test]
fn discovery_does_not_depend_on_the_window_size() {
    let log = vec![
        new_chain(0, 1),
        new_chain(1, 2),
        new_chain(499, 3),
        new_chain(500, 4),
        new_chain(501, 5),
        new_chain(999, 6),
        new_chain(1_000, 7),
        new_chain(1_001, 8),
    ];
    let expected: HashSet<u64> = (1..=7).collect();
    for size in [1u64, 2, 7, 499, 500, 501, 1_000, 1_001, 10_000, u64::MAX] {
        let (_, found) = discover(&log, 1_000, size);
        assert_eq!(found, Ok(expected.clone()));
    }
}

#[test]
fn discovery_finds_a_chain_announced_in_block_zero() {
    let (asked, found) = discover(&[new_chain(0, 9)], 0, 10_000);
    assert_eq!(asked, vec![(0, 0)]);
    assert_eq!(found, Ok([9u64].into_iter().collect()));
}

#[test]
fn discovery_on_an_empty_log_finds_nothing() {
    let (asked, found) = discover(&[], 12, 5);
    assert_eq!(asked, vec![(8, 12), (3, 7), (1, 2), (0, 0)]);
    assert_eq!(found, Ok(HashSet::new()));
}

#[test]
fn discovery_keeps_each_chain_once() {
    let log = vec![new_chain(3, 270), new_chain(4_000, 270), new_chain(4_000, 271)];
    let (_, found) = discover(&log, 5_000, 1_000);
    assert_eq!(found, Ok([270u64, 271].into_iter().collect()));
}

#[test]
fn discovery_passes_over_other_events() {
    let events = HubEvents::new();
    let log = vec![
        LogEntry { block_number: 5, topics: vec![events.asset_registered, Bytes32::from_u64(300)] },
        LogEntry { block_number: 6, topics: vec![Bytes32::from_u64(1), Bytes32::from_u64(301)] },
        LogEntry { block_number: 7, topics: vec![] },
        new_chain(8, 302),
    ];
    let (_, found) = discover(&log, 10, 4);
    assert_eq!(found, Ok([302u64].into_iter().collect()));
}

#[test]
fn discovery_cuts_a_wide_chain_id_to_64_bits() {
    let events = HubEvents::new();
    let log = vec![LogEntry { block_number: 2, topics: vec![events.new_chain, Bytes32::new(1, (1u128 << 64) + 324)] }];
    let (_, found) = discover(&log, 3, 10);
    assert_eq!(found, Ok([324u64].into_iter().collect()));
}

#[test]
fn discovery_refuses_an_announcement_without_a_chain() {
    let events = HubEvents::new();
    let log = vec![new_chain(9, 1), LogEntry { block_number: 2, topics: vec![events.new_chain] }];
    let (asked, found) = discover(&log, 10, 5);
    assert_eq!(asked, vec![(6, 10), (1, 5)]);
    assert_eq!(found, Err(InspectError::Shape));
}

#[test]
fn failed_page_is_fatal_and_leaves_the_discovery_as_it_was() {
    let mut discovery = ChainDiscovery::new(hub(), NetworkRole::RootChain, 10);
    assert_eq!(discovery.next_query(), Some(Query::BlockNumber));
    assert_eq!(discovery.on_reply(Reply::BlockNumber(15)), Ok(()));
    assert_eq!(discovery.on_reply(Reply::Logs(vec![new_chain(14, 5)])), Ok(()));
    assert_eq!(discovery.phase, DiscoveryPhase::Scanning(5));
    assert_eq!(discovery.on_reply(Reply::Failed), Err(InspectError::Transport));
    assert_eq!(discovery.phase, DiscoveryPhase::Scanning(5));
    assert_eq!(discovery.found, [5u64].into_iter().collect());
    assert_eq!(discovery.next_query(), Some(Query::Logs { address: hub(), from_block: 1, to_block: 5 }));
    assert!(discovery.finish().is_none());
}

#[test]
fn failed_head_query_is_fatal() {
    let mut discovery = ChainDiscovery::new(hub(), NetworkRole::RootChain, 10);
    assert_eq!(discovery.on_reply(Reply::Failed), Err(InspectError::Transport));
    assert_eq!(discovery.on_reply(Reply::Logs(vec![])), Err(InspectError::Transport));
    assert_eq!(discovery.phase, DiscoveryPhase::AwaitingHead);
}

#[test]
fn reply_after_the_end_is_a_misuse() {
    let mut discovery = ChainDiscovery::new(hub(), NetworkRole::RootChain, 10);
    assert_eq!(discovery.on_reply(Reply::BlockNumber(0)), Ok(()));
    assert_eq!(discovery.on_reply(Reply::Logs(vec![])), Ok(()));
    assert_eq!(discovery.next_query(), None);
    assert_eq!(discovery.on_reply(Reply::Logs(vec![])), Err(InspectError::Precondition));
}

#[test]
fn rollup_takes_the_enumeration_and_drops_the_contracts() {
    let mut discovery = ChainDiscovery::new(hub(), NetworkRole::Rollup, 10_000);
    assert_eq!(discovery.next_query(), Some(Query::Hyperchains));
    let pairs = vec![(270, Address::new(1, 1)), (271, Address::new(2, 2)), (270, Address::new(3, 3))];
    assert_eq!(discovery.on_reply(Reply::Hyperchains(pairs)), Ok(()));
    assert_eq!(discovery.next_query(), None);
    assert_eq!(discovery.finish(), Some([270u64, 271].into_iter().collect()));
}

#[test]
fn rollup_with_a_failed_enumeration() {
    let mut discovery = ChainDiscovery::new(hub(), NetworkRole::Rollup, 10_000);
    assert_eq!(discovery.on_reply(Reply::Failed), Err(InspectError::Transport));
    assert_eq!(discovery.on_reply(Reply::BlockNumber(3)), Err(InspectError::Transport));
    assert_eq!(discovery.next_query(), Some(Query::Hyperchains));
}

#[test]
fn detect_chains_picks_the_strategy_by_role() {
    let root = Bridgehub::detect_chains(NetworkRole::RootChain, hub());
    assert_eq!(root.next_query(), Some(Query::BlockNumber));
    assert_eq!(root.window_size, 10_000);
    assert_eq!(root.events, HubEvents::new());
    let rollup = Bridgehub::detect_chains(NetworkRole::Rollup, hub());
    assert_eq!(rollup.next_query(), Some(Query::Hyperchains));
    assert_eq!(rollup.hub, hub());
}

#[test]
fn scanner_collects_matching_entries_in_order() {
    let sig = Bytes32::from_u64(42);
    let entry = |block: u64, tag: u64| LogEntry { block_number: block, topics: vec![sig, Bytes32::from_u64(tag)] };
    let noise = |block: u64| LogEntry { block_number: block, topics: vec![Bytes32::from_u64(41)] };
    let log = vec![entry(0, 1), noise(1), entry(2, 2), entry(6, 3), noise(7), entry(9, 4)];
    let mut scanner = LogWindowScanner::new(hub(), sig, 9, 4);
    let mut asked = Vec::new();
    while let Some(query) = scanner.next_query() {
        match query {
            Query::Logs { address, from_block, to_block } => {
                assert_eq!(address, hub());
                asked.push((from_block, to_block));
                assert_eq!(scanner.on_reply(Reply::Logs(page(&log, from_block, to_block))), Ok(()));
            }
            other => panic!("unexpected query {:?}", other),
        }
    }
    assert_eq!(asked, vec![(6, 9), (2, 5), (1, 1), (0, 0)]);
    assert_eq!(scanner.finish(), Some(vec![entry(6, 3), entry(9, 4), entry(2, 2), entry(0, 1)]));
}

#[test]
fn scanner_collects_the_same_entries_with_any_window() {
    let sig = Bytes32::from_u64(42);
    let log: Vec<LogEntry> = (0..40u64)
        .map(|b| LogEntry { block_number: b, topics: vec![Bytes32::from_u64(40 + b % 3), Bytes32::from_u64(b)] })
        .collect();
    let mut expected: Vec<u64> = (0..=30u64).filter(|b| b % 3 == 2).collect();
    expected.sort();
    for size in 1..45u64 {
        let mut scanner = LogWindowScanner::new(hub(), sig, 30, size);
        while let Some(Query::Logs { from_block, to_block, .. }) = scanner.next_query() {
            assert_eq!(scanner.on_reply(Reply::Logs(page(&log, from_block, to_block))), Ok(()));
        }
        let mut blocks: Vec<u64> = scanner.finish().unwrap().iter().map(|e| e.block_number).collect();
        blocks.sort();
        assert_eq!(blocks, expected);
    }
}

#[test]
fn scanner_errors_leave_it_as_it_was() {
    let sig = Bytes32::from_u64(42);
    let mut scanner = LogWindowScanner::new(hub(), sig, 1, 10);
    assert_eq!(scanner.on_reply(Reply::Failed), Err(InspectError::Transport));
    assert_eq!(scanner.on_reply(Reply::BlockNumber(3)), Err(InspectError::Transport));
    assert_eq!(scanner.cursor, ScanCursor::Scanning(1));
    assert_eq!(scanner.on_reply(Reply::Logs(vec![])), Ok(()));
    assert_eq!(scanner.on_reply(Reply::Logs(vec![])), Ok(()));
    assert_eq!(scanner.cursor, ScanCursor::Done);
    assert_eq!(scanner.on_reply(Reply::Logs(vec![])), Err(InspectError::Precondition));
    assert_eq!(scanner.on_reply(Reply::Failed), Err(InspectError::Precondition));
    assert_eq!(scanner.finish(), Some(vec![]));
}

#[test]
fn unfinished_scanner_yields_nothing() {
    let scanner = LogWindowScanner::new(hub(), Bytes32::from_u64(42), 100, 10);
    assert_eq!(scanner.finish(), None);
}
