//! Discovery of the chains that a hub has registered.
//!
//! On the root chain the hub's event log is scanned window by window for
//! announcements of new chains. On a rollup the settlement layer's own
//! enumeration is asked instead. Either way the result is a set of chain
//! ids, and nothing downstream can tell which way it was found.

use std::collections::HashSet;
use vstd::prelude::*;
use vstd::std_specs::hash::group_hash_axioms;
use crate::error::InspectError;
use crate::events::{HubEvent, HubEvents};
use crate::primitives::Address;
use crate::query::{LogEntry, Query, Reply};
use crate::scanner::{lemma_page_membership, page, serves_log, BlockWindow, ScanCursor};

verus! {

broadcast use group_hash_axioms;

/// Where the inspected node stands in the deployment.
#[derive(Clone, Copy, Debug, PartialEq, Eq, Structural)]
pub enum NetworkRole {
    /// The node serves the root chain, on which the hub logs its events.
    RootChain,
    /// The node serves a rollup.
    Rollup,
}

/// The step that a [`ChainDiscovery`] waits for.
#[derive(Clone, Copy, Debug, PartialEq, Eq, Structural)]
pub enum DiscoveryPhase {
    /// The number of the head block is to be asked.
    AwaitingHead,
    /// The window that ends at this block is to be scanned.
    Scanning(u64),
    /// The enumeration of chains is to be asked.
    AwaitingHyperchains,
    Done,
}

impl DiscoveryPhase {
    /// The phase that goes with a scan cursor.
    pub open spec fn of_cursor(cursor: ScanCursor) -> DiscoveryPhase {
        match cursor {
            ScanCursor::Scanning(block) => DiscoveryPhase::Scanning(block),
            ScanCursor::Done => DiscoveryPhase::Done,
        }
    }
}

/// The chain ids announced by the entries among `logs` that record a new
/// chain.
pub open spec fn announced(logs: Seq<LogEntry>, events: HubEvents) -> Set<u64> {
    Set::new(
        |id: u64|
            exists|entry: LogEntry|
                #![trigger logs.contains(entry)]
                logs.contains(entry) && events.kind_of(entry) == HubEvent::NewChain
                    && entry.announced_chain() == Some(id),
    )
}

/// Some entry among `logs` records a new chain but names none.
pub open spec fn malformed(logs: Seq<LogEntry>, events: HubEvents) -> bool {
    exists|entry: LogEntry|
        #![trigger logs.contains(entry)]
        logs.contains(entry) && events.kind_of(entry) == HubEvent::NewChain
            && entry.announced_chain() is None
}

/// The chain ids of an enumeration, each taken without its contract.
pub open spec fn enumerated(pairs: Seq<(u64, Address)>) -> Set<u64> {
    Set::new(|id: u64| exists|i: int| 0 <= i < pairs.len() && (#[trigger] pairs[i]).0 == id)
}

/// Reads the announced chain ids out of one page of the hub's log. An entry
/// that records a new chain without naming one fails the page.
fn chains_announced(events: &HubEvents, logs: &Vec<LogEntry>) -> (ids: Result<
    Vec<u64>,
    InspectError,
>)
    ensures
        ids is Err <==> malformed(logs@, *events),
        ids matches Err(e) ==> e == InspectError::Shape,
        ids matches Ok(found) ==> found@.to_set() == announced(logs@, *events),
{
    let mut found: Vec<u64> = Vec::new();
    let mut i: usize = 0;
    while i < logs.len()
        invariant
            i <= logs.len(),
            !malformed(logs@.take(i as int), *events),
            found@.to_set() == announced(logs@.take(i as int), *events),
        decreases logs.len() - i,
    {
        let ghost seen = logs@.take(i as int);
        let ghost more = logs@.take(i + 1);
        let ghost before = found@;
        proof {
            assert(more.drop_last() == seen);
            assert(more.last() == logs@[i as int]);
            assert forall|entry: LogEntry| more.contains(entry) <==> seen.contains(entry)
                || entry == logs@[i as int] by {
                if more.contains(entry) {
                    let j = choose|j: int| 0 <= j < more.len() && more[j] == entry;
                    if j < i {
                        assert(seen[j] == entry);
                    }
                }
                if seen.contains(entry) {
                    let j = choose|j: int| 0 <= j < seen.len() && seen[j] == entry;
                    assert(more[j] == entry);
                }
                assert(more[i as int] == logs@[i as int]);
            }
        }
        match events.classify(&logs[i]) {
            HubEvent::NewChain => {
                match logs[i].chain_id() {
                    Ok(id) => {
                        found.push(id);
                        proof {
                            assert forall|other: u64|
                                found@.to_set().contains(other) <==> announced(
                                    more,
                                    *events,
                                ).contains(other) by {
                                if found@.to_set().contains(other) {
                                    let j = choose|j: int|
                                        0 <= j < found@.len() && found@[j] == other;
                                    if j < before.len() {
                                        assert(before[j] == other);
                                        assert(before.to_set().contains(other));
                                    } else {
                                        assert(more.contains(logs@[i as int]));
                                    }
                                }
                                if announced(more, *events).contains(other) {
                                    let entry = choose|entry: LogEntry|
                                        more.contains(entry) && events.kind_of(entry)
                                            == HubEvent::NewChain && entry.announced_chain()
                                            == Some(other);
                                    if seen.contains(entry) {
                                        assert(before.to_set().contains(other));
                                        let j = choose|j: int|
                                            0 <= j < before.len() && before[j] == other;
                                        assert(found@[j] == other);
                                    } else {
                                        assert(found@[before.len() as int] == other);
                                    }
                                }
                            }
                            assert(found@.to_set() =~= announced(more, *events));
                        }
                    },
                    Err(e) => {
                        proof {
                            assert(logs@.contains(logs@[i as int]));
                        }
                        return Err(e);
                    },
                }
            },
            _ => {
                proof {
                    assert(found@.to_set() =~= announced(more, *events));
                }
            },
        }
        i += 1;
    }
    proof {
        assert(logs@.take(logs@.len() as int) == logs@);
    }
    Ok(found)
}

/// Finds the chains registered with a hub.
pub struct ChainDiscovery {
    pub hub: Address,
    pub events: HubEvents,
    /// The number of blocks in a window; positive.
    pub window_size: u64,
    pub phase: DiscoveryPhase,
    /// The chain ids found so far.
    pub found: HashSet<u64>,
}

/// A [`ChainDiscovery`] with the chains found as a set.
pub struct DiscoveryModel {
    pub hub: Address,
    pub events: HubEvents,
    pub window_size: u64,
    pub phase: DiscoveryPhase,
    pub found: Set<u64>,
}

impl View for ChainDiscovery {
    type V = DiscoveryModel;

    open spec fn view(&self) -> DiscoveryModel {
        DiscoveryModel {
            hub: self.hub,
            events: self.events,
            window_size: self.window_size,
            phase: self.phase,
            found: self.found@,
        }
    }
}

impl DiscoveryModel {
    /// The discovery before its first query: the strategy goes by the role.
    pub open spec fn start(
        hub: Address,
        role: NetworkRole,
        events: HubEvents,
        window_size: u64,
    ) -> DiscoveryModel {
        DiscoveryModel {
            hub,
            events,
            window_size,
            phase: match role {
                NetworkRole::RootChain => DiscoveryPhase::AwaitingHead,
                NetworkRole::Rollup => DiscoveryPhase::AwaitingHyperchains,
            },
            found: Set::empty(),
        }
    }

    /// The windows hold at least one block.
    pub open spec fn wf(self) -> bool {
        self.window_size > 0
    }

    /// The query that the discovery waits for, if any.
    pub open spec fn pending(self) -> Option<Query> {
        match self.phase {
            DiscoveryPhase::AwaitingHead => Some(Query::BlockNumber),
            DiscoveryPhase::Scanning(block) => Some(
                Query::Logs {
                    address: self.hub,
                    from_block: ScanCursor::Scanning(block).window(self.window_size)->0.from_block,
                    to_block: block,
                },
            ),
            DiscoveryPhase::AwaitingHyperchains => Some(Query::Hyperchains),
            DiscoveryPhase::Done => None,
        }
    }

    /// The discovery after `reply` has come in for the pending query, or the
    /// error that ends it.
    ///
    /// The head block starts the scan. A page of the log adds the chains
    /// that it announces and moves the scan one window down; a page with an
    /// announcement that names no chain is refused. An enumeration adds its
    /// chains and ends the discovery. A reply of another shape is a failed
    /// query, and a reply when nothing is pending a misuse.
    pub open spec fn step(self, reply: Reply) -> Result<DiscoveryModel, InspectError> {
        match (self.phase, reply) {
            (DiscoveryPhase::Done, _) => Err(InspectError::Precondition),
            (DiscoveryPhase::AwaitingHead, Reply::BlockNumber(head)) => Ok(
                DiscoveryModel { phase: DiscoveryPhase::Scanning(head), ..self },
            ),
            (DiscoveryPhase::Scanning(block), Reply::Logs(logs)) => if malformed(
                logs@,
                self.events,
            ) {
                Err(InspectError::Shape)
            } else {
                Ok(
                    DiscoveryModel {
                        phase: DiscoveryPhase::of_cursor(
                            ScanCursor::Scanning(block).after_window(self.window_size),
                        ),
                        found: self.found.union(announced(logs@, self.events)),
                        ..self
                    },
                )
            },
            (DiscoveryPhase::AwaitingHyperchains, Reply::Hyperchains(pairs)) => Ok(
                DiscoveryModel {
                    phase: DiscoveryPhase::Done,
                    found: self.found.union(enumerated(pairs@)),
                    ..self
                },
            ),
            _ => Err(InspectError::Transport),
        }
    }

    /// A bound on the number of queries that the discovery may still make.
    pub open spec fn remaining(self) -> nat {
        match self.phase {
            DiscoveryPhase::AwaitingHead => u64::MAX as nat + 3,
            DiscoveryPhase::Scanning(block) => block as nat + 2,
            DiscoveryPhase::AwaitingHyperchains => 1,
            DiscoveryPhase::Done => 0,
        }
    }

    /// The outcome of putting every pending query to `chain` until none is
    /// left or one fails.
    pub open spec fn run(self, chain: spec_fn(Query) -> Reply) -> Result<Set<u64>, InspectError>
        decreases self.remaining(),
        when self.window_size > 0
    {
        match self.pending() {
            None => Ok(self.found),
            Some(query) => match self.step(chain(query)) {
                Ok(next) => next.run(chain),
                Err(e) => Err(e),
            },
        }
    }
}

impl ChainDiscovery {
    /// The windows hold at least one block.
    pub open spec fn wf(&self) -> bool {
        self@.wf()
    }

    /// A discovery of the chains under the hub at `hub`, by the strategy
    /// that goes with `role`, in windows of `window_size` blocks.
    pub fn new(hub: Address, role: NetworkRole, window_size: u64) -> (discovery: ChainDiscovery)
        requires
            window_size > 0,
        ensures
            discovery.wf(),
            discovery.events.genuine(),
            discovery@ == DiscoveryModel::start(hub, role, discovery.events, window_size),
    {
        ChainDiscovery {
            hub,
            events: HubEvents::new(),
            window_size,
            phase: match role {
                NetworkRole::RootChain => DiscoveryPhase::AwaitingHead,
                NetworkRole::Rollup => DiscoveryPhase::AwaitingHyperchains,
            },
            found: HashSet::new(),
        }
    }

    /// The query to perform next; `None` once the discovery is over.
    pub fn next_query(&self) -> (query: Option<Query>)
        requires
            self.wf(),
        ensures
            query == self@.pending(),
    {
        match self.phase {
            DiscoveryPhase::AwaitingHead => Some(Query::BlockNumber),
            DiscoveryPhase::Scanning(block) => {
                match ScanCursor::Scanning(block).current_window(self.window_size) {
                    Some(window) => Some(
                        Query::Logs {
                            address: self.hub,
                            from_block: window.from_block,
                            to_block: window.to_block,
                        },
                    ),
                    None => None,
                }
            },
            DiscoveryPhase::AwaitingHyperchains => Some(Query::Hyperchains),
            DiscoveryPhase::Done => None,
        }
    }

    /// Takes the reply to the pending query. On an error the discovery is
    /// left as it was.
    pub fn on_reply(&mut self, reply: Reply) -> (outcome: Result<(), InspectError>)
        requires
            old(self).wf(),
        ensures
            final(self).wf(),
            match old(self)@.step(reply) {
                Ok(next) => outcome is Ok && final(self)@ == next,
                Err(e) => outcome == Err::<(), InspectError>(e) && final(self)@ == old(self)@,
            },
    {
        match (self.phase, reply) {
            (DiscoveryPhase::Done, _) => Err(InspectError::Precondition),
            (DiscoveryPhase::AwaitingHead, Reply::BlockNumber(head)) => {
                self.phase = DiscoveryPhase::Scanning(head);
                Ok(())
            },
            (DiscoveryPhase::Scanning(block), Reply::Logs(logs)) => {
                let ids = chains_announced(&self.events, &logs)?;
                let ghost before = self.found@;
                let mut i: usize = 0;
                while i < ids.len()
                    invariant
                        i <= ids.len(),
                        self.hub == old(self).hub,
                        self.events == old(self).events,
                        self.window_size == old(self).window_size,
                        self.phase == old(self).phase,
                        self.found@ == before.union(ids@.take(i as int).to_set()),
                    decreases ids.len() - i,
                {
                    proof {
                        let seen = ids@.take(i as int);
                        let more = ids@.take(i + 1);
                        assert(more == seen.push(ids@[i as int]));
                        seen.lemma_push_to_set_commute(ids@[i as int]);
                        assert(before.union(seen.to_set()).insert(ids@[i as int]) =~= before.union(
                            more.to_set(),
                        ));
                    }
                    self.found.insert(ids[i]);
                    i += 1;
                }
                proof {
                    assert(ids@.take(ids@.len() as int) == ids@);
                }
                self.phase = match ScanCursor::Scanning(block).advance(self.window_size) {
                    ScanCursor::Scanning(next) => DiscoveryPhase::Scanning(next),
                    ScanCursor::Done => DiscoveryPhase::Done,
                };
                Ok(())
            },
            (DiscoveryPhase::AwaitingHyperchains, Reply::Hyperchains(pairs)) => {
                let ghost before = self.found@;
                let mut i: usize = 0;
                while i < pairs.len()
                    invariant
                        i <= pairs.len(),
                        self.hub == old(self).hub,
                        self.events == old(self).events,
                        self.window_size == old(self).window_size,
                        self.phase == old(self).phase,
                        self.found@ == before.union(enumerated(pairs@.take(i as int))),
                    decreases pairs.len() - i,
                {
                    proof {
                        let seen = pairs@.take(i as int);
                        let more = pairs@.take(i + 1);
                        assert forall|id: u64|
                            enumerated(more).contains(id) <==> enumerated(seen).contains(id) || id
                                == pairs@[i as int].0 by {
                            if enumerated(more).contains(id) {
                                let j = choose|j: int| 0 <= j < more.len() && more[j].0 == id;
                                if j < i {
                                    assert(seen[j].0 == id);
                                }
                            }
                            if enumerated(seen).contains(id) {
                                let j = choose|j: int| 0 <= j < seen.len() && seen[j].0 == id;
                                assert(more[j].0 == id);
                            }
                            assert(more[i as int].0 == pairs@[i as int].0);
                        }
                        assert(before.union(enumerated(seen)).insert(pairs@[i as int].0)
                            =~= before.union(enumerated(more)));
                    }
                    self.found.insert(pairs[i].0);
                    i += 1;
                }
                proof {
                    assert(pairs@.take(pairs@.len() as int) == pairs@);
                    assert(enumerated(pairs@.take(0)) =~= Set::<u64>::empty());
                }
                self.phase = DiscoveryPhase::Done;
                Ok(())
            },
            _ => Err(InspectError::Transport),
        }
    }

    /// The chains that were found, once the discovery is over.
    pub fn finish(self) -> (chains: Option<HashSet<u64>>)
        ensures
            chains is Some <==> self.phase == DiscoveryPhase::Done,
            chains matches Some(found) ==> found@ == self.found@,
    {
        match self.phase {
            DiscoveryPhase::Done => Some(self.found),
            _ => None,
        }
    }
}

/// No chain is lost once it is found: whatever reply comes in, the chains
/// found before are among those found after.
pub proof fn lemma_found_only_grows(discovery: DiscoveryModel, reply: Reply)
    ensures
        discovery.step(reply) matches Ok(next) ==> discovery.found.subset_of(next.found),
{
}

/// What a discovery finds where the head block is `head`, the hub has logged
/// `log` and the settlement layer enumerates `pairs`: on the root chain the
/// chains announced in the blocks 0 to `head`, on a rollup the chains of the
/// enumeration.
pub open spec fn discovered(
    role: NetworkRole,
    events: HubEvents,
    head: u64,
    log: Seq<LogEntry>,
    pairs: Seq<(u64, Address)>,
) -> Result<Set<u64>, InspectError> {
    match role {
        NetworkRole::RootChain => {
            let all = page(log, BlockWindow { from_block: 0, to_block: head });
            if malformed(all, events) {
                Err(InspectError::Shape)
            } else {
                Ok(announced(all, events))
            }
        },
        NetworkRole::Rollup => Ok(enumerated(pairs)),
    }
}

/// `chain` answers a discovery by `role` as a chain does whose head block is
/// `head`, whose hub at `hub` has logged `log`, and whose settlement layer
/// enumerates `pairs`.
pub open spec fn serves_discovery(
    chain: spec_fn(Query) -> Reply,
    role: NetworkRole,
    hub: Address,
    head: u64,
    log: Seq<LogEntry>,
    pairs: Seq<(u64, Address)>,
) -> bool {
    match role {
        NetworkRole::RootChain => chain(Query::BlockNumber) == Reply::BlockNumber(head)
            && serves_log(chain, hub, log),
        NetworkRole::Rollup => chain(Query::Hyperchains) matches Reply::Hyperchains(listed)
            && listed@ == pairs,
    }
}

/// A scan that stands at `block`, put to a chain that serves `log`, adds
/// exactly the chains announced in the blocks 0 to `block`, and fails
/// exactly when one of the announcements there names no chain.
pub proof fn lemma_scan_finds_announced(
    discovery: DiscoveryModel,
    chain: spec_fn(Query) -> Reply,
    log: Seq<LogEntry>,
    block: u64,
)
    requires
        discovery.wf(),
        discovery.phase == DiscoveryPhase::Scanning(block),
        serves_log(chain, discovery.hub, log),
    ensures
        discovery.run(chain) == (if malformed(
            page(log, BlockWindow { from_block: 0, to_block: block }),
            discovery.events,
        ) {
            Err::<Set<u64>, InspectError>(InspectError::Shape)
        } else {
            Ok::<Set<u64>, InspectError>(
                discovery.found.union(
                    announced(
                        page(log, BlockWindow { from_block: 0, to_block: block }),
                        discovery.events,
                    ),
                ),
            )
        }),
    decreases block,
{
    let events = discovery.events;
    let size = discovery.window_size;
    let cursor = ScanCursor::Scanning(block);
    let window = cursor.window(size)->0;
    let all = BlockWindow { from_block: 0, to_block: block };
    let here = page(log, window);
    let whole = page(log, all);
    let query = discovery.pending()->0;
    assert(query == Query::Logs {
        address: discovery.hub,
        from_block: window.from_block,
        to_block: window.to_block,
    });
    assert(chain(query) matches Reply::Logs(entries) && entries@ == here);
    if block == 0 {
        assert(window == all);
        if !malformed(here, events) {
            let next = discovery.step(chain(query))->Ok_0;
            assert(next.phase == DiscoveryPhase::Done);
            assert(next.run(chain) == Ok::<Set<u64>, InspectError>(next.found));
        }
    } else {
        let below: u64 = if block >= size {
            (block - size) as u64
        } else {
            0
        };
        let lower = BlockWindow { from_block: 0, to_block: below };
        let rest = page(log, lower);
        assert(cursor.after_window(size) == ScanCursor::Scanning(below));
        assert forall|entry: LogEntry| whole.contains(entry) <==> here.contains(entry)
            || rest.contains(entry) by {
            lemma_page_membership(log, all, entry);
            lemma_page_membership(log, window, entry);
            lemma_page_membership(log, lower, entry);
        }
        assert(malformed(whole, events) <==> malformed(here, events) || malformed(rest, events))
            by {
            if malformed(whole, events) {
                let entry = choose|entry: LogEntry|
                    whole.contains(entry) && events.kind_of(entry) == HubEvent::NewChain
                        && entry.announced_chain() is None;
                assert(here.contains(entry) || rest.contains(entry));
            }
            if malformed(here, events) {
                let entry = choose|entry: LogEntry|
                    here.contains(entry) && events.kind_of(entry) == HubEvent::NewChain
                        && entry.announced_chain() is None;
                assert(whole.contains(entry));
            }
            if malformed(rest, events) {
                let entry = choose|entry: LogEntry|
                    rest.contains(entry) && events.kind_of(entry) == HubEvent::NewChain
                        && entry.announced_chain() is None;
                assert(whole.contains(entry));
            }
        }
        assert forall|id: u64|
            announced(whole, events).contains(id) <==> announced(here, events).contains(id)
                || announced(rest, events).contains(id) by {
            if announced(whole, events).contains(id) {
                let entry = choose|entry: LogEntry|
                    whole.contains(entry) && events.kind_of(entry) == HubEvent::NewChain
                        && entry.announced_chain() == Some(id);
                assert(here.contains(entry) || rest.contains(entry));
            }
            if announced(here, events).contains(id) {
                let entry = choose|entry: LogEntry|
                    here.contains(entry) && events.kind_of(entry) == HubEvent::NewChain
                        && entry.announced_chain() == Some(id);
                assert(whole.contains(entry));
            }
            if announced(rest, events).contains(id) {
                let entry = choose|entry: LogEntry|
                    rest.contains(entry) && events.kind_of(entry) == HubEvent::NewChain
                        && entry.announced_chain() == Some(id);
                assert(whole.contains(entry));
            }
        }
        if !malformed(here, events) {
            let next = discovery.step(chain(query))->Ok_0;
            assert(next.phase == DiscoveryPhase::Scanning(below));
            lemma_scan_finds_announced(next, chain, log, below);
            assert(discovery.found.union(announced(here, events)).union(announced(rest, events))
                =~= discovery.found.union(announced(whole, events)));
        }
    }
}

/// A discovery put to `chain` from its start finds exactly the chains that
/// `chain` holds: those announced in the hub's log up to the head block on
/// the root chain, those of the enumeration on a rollup.
pub proof fn lemma_run_discovers(
    chain: spec_fn(Query) -> Reply,
    hub: Address,
    role: NetworkRole,
    events: HubEvents,
    window_size: u64,
    head: u64,
    log: Seq<LogEntry>,
    pairs: Seq<(u64, Address)>,
)
    requires
        window_size > 0,
        serves_discovery(chain, role, hub, head, log, pairs),
    ensures
        DiscoveryModel::start(hub, role, events, window_size).run(chain) == discovered(
            role,
            events,
            head,
            log,
            pairs,
        ),
{
    let fresh = DiscoveryModel::start(hub, role, events, window_size);
    let next = fresh.step(chain(fresh.pending()->0))->Ok_0;
    assert(fresh.run(chain) == next.run(chain));
    match role {
        NetworkRole::RootChain => {
            let all = page(log, BlockWindow { from_block: 0, to_block: head });
            lemma_scan_finds_announced(next, chain, log, head);
            assert(Set::<u64>::empty().union(announced(all, events)) =~= announced(all, events));
        },
        NetworkRole::Rollup => {
            assert(next.run(chain) == Ok::<Set<u64>, InspectError>(next.found));
            assert(Set::<u64>::empty().union(enumerated(pairs)) =~= enumerated(pairs));
        },
    }
}

/// The chains that a scan finds do not depend on the size of its windows:
/// with any two positive sizes a discovery on the root chain has the same
/// outcome.
pub proof fn lemma_discovery_independent_of_window(
    chain: spec_fn(Query) -> Reply,
    hub: Address,
    events: HubEvents,
    head: u64,
    log: Seq<LogEntry>,
    first: u64,
    second: u64,
)
    requires
        first > 0,
        second > 0,
        serves_discovery(chain, NetworkRole::RootChain, hub, head, log, Seq::empty()),
    ensures
        DiscoveryModel::start(hub, NetworkRole::RootChain, events, first).run(chain)
            == DiscoveryModel::start(hub, NetworkRole::RootChain, events, second).run(chain),
{
    lemma_run_discovers(chain, hub, NetworkRole::RootChain, events, first, head, log, Seq::empty());
    lemma_run_discovers(
        chain,
        hub,
        NetworkRole::RootChain,
        events,
        second,
        head,
        log,
        Seq::empty(),
    );
}

} // verus!
