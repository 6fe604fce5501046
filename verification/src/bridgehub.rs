//! The hub that registers every chain, and what can be resolved through it.

use std::collections::HashSet;
use vstd::prelude::*;
use crate::discovery::{ChainDiscovery, DiscoveryModel, DiscoveryPhase, NetworkRole};
use crate::events::HubEvents;
use crate::error::InspectError;
use crate::primitives::{Address, Bytes32};
use crate::query::{Query, Reply};
use crate::scanner::DEFAULT_WINDOW;
use crate::statetransition::{StateTransition, StateTransitionReader};

verus! {

/// The contracts of one chain, as the hub and its transition manager report
/// them at one point in time.
#[derive(Clone, Copy, Debug, PartialEq, Eq, Structural)]
pub struct BridgehubChainDetails {
    pub stm_address: Address,
    pub st_address: Address,
    pub shared_bridge_address: Address,
    pub base_token_address: Address,
    pub validator_timelock_address: Address,
    pub stm_asset_id: Bytes32,
}

/// The lookup that a [`TopologyResolver`] makes next.
#[derive(Clone, Copy, Debug, PartialEq, Eq, Structural)]
pub enum TopologyStage {
    Manager,
    BaseToken,
    Hyperchain,
    SharedBridge,
    ValidatorTimelock,
    AssetId,
    Complete,
}

impl TopologyStage {
    /// The number of lookups still to make.
    pub open spec fn remaining(self) -> nat {
        match self {
            TopologyStage::Manager => 6,
            TopologyStage::BaseToken => 5,
            TopologyStage::Hyperchain => 4,
            TopologyStage::SharedBridge => 3,
            TopologyStage::ValidatorTimelock => 2,
            TopologyStage::AssetId => 1,
            TopologyStage::Complete => 0,
        }
    }
}

/// Resolves the contracts of one chain by six lookups in a fixed order.
///
/// Only the base token may be missing: a failed lookup of it yields the zero
/// address. Any other failed lookup ends the resolution.
#[derive(Clone, Copy, Debug, PartialEq, Eq, Structural)]
pub struct TopologyResolver {
    pub hub: Address,
    pub chain_id: u64,
    pub stage: TopologyStage,
    /// What has been resolved so far; the rest is zero.
    pub details: BridgehubChainDetails,
}

impl BridgehubChainDetails {
    /// The details before any lookup.
    pub open spec fn unresolved() -> BridgehubChainDetails {
        BridgehubChainDetails {
            stm_address: Address { hi: 0, lo: 0 },
            st_address: Address { hi: 0, lo: 0 },
            shared_bridge_address: Address { hi: 0, lo: 0 },
            base_token_address: Address { hi: 0, lo: 0 },
            validator_timelock_address: Address { hi: 0, lo: 0 },
            stm_asset_id: Bytes32 { hi: 0, lo: 0 },
        }
    }
}

impl TopologyResolver {
    /// The resolver before its first lookup.
    pub open spec fn start(hub: Address, chain_id: u64) -> TopologyResolver {
        TopologyResolver {
            hub,
            chain_id,
            stage: TopologyStage::Manager,
            details: BridgehubChainDetails::unresolved(),
        }
    }

    /// The query that the resolver waits for, if any.
    pub open spec fn pending(self) -> Option<Query> {
        match self.stage {
            TopologyStage::Manager => Some(
                Query::StateTransitionManager { hub: self.hub, chain_id: self.chain_id },
            ),
            TopologyStage::BaseToken => Some(
                Query::BaseToken { hub: self.hub, chain_id: self.chain_id },
            ),
            TopologyStage::Hyperchain => Some(
                Query::GetHyperchain { hub: self.hub, chain_id: self.chain_id },
            ),
            TopologyStage::SharedBridge => Some(Query::SharedBridge { hub: self.hub }),
            TopologyStage::ValidatorTimelock => Some(
                Query::ValidatorTimelock { manager: self.details.stm_address },
            ),
            TopologyStage::AssetId => Some(
                Query::StmAssetIdFromChainId { hub: self.hub, chain_id: self.chain_id },
            ),
            TopologyStage::Complete => None,
        }
    }

    /// The resolver after `reply` has come in for the pending query, or the
    /// error that ends the resolution.
    pub open spec fn step(self, reply: Reply) -> Result<TopologyResolver, InspectError> {
        match self.stage {
            TopologyStage::Manager => match reply {
                Reply::Address(a) => Ok(
                    TopologyResolver {
                        stage: TopologyStage::BaseToken,
                        details: BridgehubChainDetails { stm_address: a, ..self.details },
                        ..self
                    },
                ),
                _ => Err(InspectError::Transport),
            },
            TopologyStage::BaseToken => Ok(
                TopologyResolver {
                    stage: TopologyStage::Hyperchain,
                    details: BridgehubChainDetails {
                        base_token_address: match reply {
                            Reply::Address(a) => a,
                            _ => Address { hi: 0, lo: 0 },
                        },
                        ..self.details
                    },
                    ..self
                },
            ),
            TopologyStage::Hyperchain => match reply {
                Reply::Address(a) => Ok(
                    TopologyResolver {
                        stage: TopologyStage::SharedBridge,
                        details: BridgehubChainDetails { st_address: a, ..self.details },
                        ..self
                    },
                ),
                _ => Err(InspectError::Transport),
            },
            TopologyStage::SharedBridge => match reply {
                Reply::Address(a) => Ok(
                    TopologyResolver {
                        stage: TopologyStage::ValidatorTimelock,
                        details: BridgehubChainDetails {
                            shared_bridge_address: a,
                            ..self.details
                        },
                        ..self
                    },
                ),
                _ => Err(InspectError::Transport),
            },
            TopologyStage::ValidatorTimelock => match reply {
                Reply::Address(a) => Ok(
                    TopologyResolver {
                        stage: TopologyStage::AssetId,
                        details: BridgehubChainDetails {
                            validator_timelock_address: a,
                            ..self.details
                        },
                        ..self
                    },
                ),
                _ => Err(InspectError::Transport),
            },
            TopologyStage::AssetId => match reply {
                Reply::Word(w) => Ok(
                    TopologyResolver {
                        stage: TopologyStage::Complete,
                        details: BridgehubChainDetails { stm_asset_id: w, ..self.details },
                        ..self
                    },
                ),
                _ => Err(InspectError::Transport),
            },
            TopologyStage::Complete => Err(InspectError::Precondition),
        }
    }

    /// The resolver after the replies have come in, one after the other; the
    /// first error ends the resolution.
    pub open spec fn replay(self, replies: Seq<Reply>) -> Result<TopologyResolver, InspectError>
        decreases replies.len(),
    {
        if replies.len() == 0 {
            Ok(self)
        } else {
            match self.step(replies[0]) {
                Ok(next) => next.replay(replies.skip(1)),
                Err(e) => Err(e),
            }
        }
    }

    /// Each of the replies is what `chain` answers to the query that was
    /// pending when it came in, and nothing was asked after an error.
    pub open spec fn answered_by(self, chain: spec_fn(Query) -> Reply, replies: Seq<Reply>) -> bool
        decreases replies.len(),
    {
        replies.len() > 0 ==> {
            &&& self.pending() matches Some(query)
            &&& replies[0] == chain(query)
            &&& match self.step(replies[0]) {
                Ok(next) => next.answered_by(chain, replies.skip(1)),
                Err(_) => replies.len() == 1,
            }
        }
    }

    /// The outcome of putting every pending query to `chain` until none is
    /// left or one fails.
    pub open spec fn run(self, chain: spec_fn(Query) -> Reply) -> Result<
        BridgehubChainDetails,
        InspectError,
    >
        decreases self.stage.remaining(),
    {
        match self.pending() {
            None => Ok(self.details),
            Some(query) => match self.step(chain(query)) {
                Ok(next) => next.run(chain),
                Err(e) => Err(e),
            },
        }
    }

    /// A resolver for `chain_id` under the hub at `hub`.
    pub fn new(hub: Address, chain_id: u64) -> (resolver: TopologyResolver)
        ensures
            resolver == TopologyResolver::start(hub, chain_id),
    {
        TopologyResolver {
            hub,
            chain_id,
            stage: TopologyStage::Manager,
            details: BridgehubChainDetails {
                stm_address: Address::zero(),
                st_address: Address::zero(),
                shared_bridge_address: Address::zero(),
                base_token_address: Address::zero(),
                validator_timelock_address: Address::zero(),
                stm_asset_id: Bytes32::zero(),
            },
        }
    }

    /// The query to perform next; `None` once all six are answered.
    pub fn next_query(&self) -> (query: Option<Query>)
        ensures
            query == self.pending(),
    {
        match self.stage {
            TopologyStage::Manager => Some(
                Query::StateTransitionManager { hub: self.hub, chain_id: self.chain_id },
            ),
            TopologyStage::BaseToken => Some(
                Query::BaseToken { hub: self.hub, chain_id: self.chain_id },
            ),
            TopologyStage::Hyperchain => Some(
                Query::GetHyperchain { hub: self.hub, chain_id: self.chain_id },
            ),
            TopologyStage::SharedBridge => Some(Query::SharedBridge { hub: self.hub }),
            TopologyStage::ValidatorTimelock => Some(
                Query::ValidatorTimelock { manager: self.details.stm_address },
            ),
            TopologyStage::AssetId => Some(
                Query::StmAssetIdFromChainId { hub: self.hub, chain_id: self.chain_id },
            ),
            TopologyStage::Complete => None,
        }
    }

    /// Takes the reply to the pending query. On an error the resolver is
    /// left as it was.
    pub fn on_reply(&mut self, reply: Reply) -> (outcome: Result<(), InspectError>)
        ensures
            match old(self).step(reply) {
                Ok(next) => outcome is Ok && *final(self) == next,
                Err(e) => outcome == Err::<(), InspectError>(e) && *final(self) == *old(self),
            },
    {
        match self.stage {
            TopologyStage::Manager => {
                let a = reply.into_address()?;
                self.details.stm_address = a;
                self.stage = TopologyStage::BaseToken;
            },
            TopologyStage::BaseToken => {
                let a = match reply.into_address() {
                    Ok(a) => a,
                    Err(_) => Address::zero(),
                };
                self.details.base_token_address = a;
                self.stage = TopologyStage::Hyperchain;
            },
            TopologyStage::Hyperchain => {
                let a = reply.into_address()?;
                self.details.st_address = a;
                self.stage = TopologyStage::SharedBridge;
            },
            TopologyStage::SharedBridge => {
                let a = reply.into_address()?;
                self.details.shared_bridge_address = a;
                self.stage = TopologyStage::ValidatorTimelock;
            },
            TopologyStage::ValidatorTimelock => {
                let a = reply.into_address()?;
                self.details.validator_timelock_address = a;
                self.stage = TopologyStage::AssetId;
            },
            TopologyStage::AssetId => {
                let w = reply.into_word()?;
                self.details.stm_asset_id = w;
                self.stage = TopologyStage::Complete;
            },
            TopologyStage::Complete => {
                return Err(InspectError::Precondition);
            },
        }
        Ok(())
    }

    /// The resolved details, once all six lookups are answered.
    pub fn finish(&self) -> (details: Option<BridgehubChainDetails>)
        ensures
            details == (if self.stage == TopologyStage::Complete {
                Some(self.details)
            } else {
                None
            }),
    {
        match self.stage {
            TopologyStage::Complete => Some(self.details),
            _ => None,
        }
    }
}

/// The contracts of chain `chain_id` under the hub at `hub`, read off the
/// answers of `chain`: the transition manager, the base token or the zero
/// address where that lookup fails, the transition contract, the shared
/// bridge, the validator timelock of that transition manager, and the asset
/// id. Any other lookup that does not give a value of its type is an error.
pub open spec fn resolved_topology(
    hub: Address,
    chain_id: u64,
    chain: spec_fn(Query) -> Reply,
) -> Result<BridgehubChainDetails, InspectError> {
    let base_token_address = match chain(Query::BaseToken { hub, chain_id }) {
        Reply::Address(a) => a,
        _ => Address { hi: 0, lo: 0 },
    };
    match chain(Query::StateTransitionManager { hub, chain_id }) {
        Reply::Address(stm_address) => match (
            chain(Query::GetHyperchain { hub, chain_id }),
            chain(Query::SharedBridge { hub }),
            chain(Query::ValidatorTimelock { manager: stm_address }),
            chain(Query::StmAssetIdFromChainId { hub, chain_id }),
        ) {
            (
                Reply::Address(st_address),
                Reply::Address(shared_bridge_address),
                Reply::Address(validator_timelock_address),
                Reply::Word(stm_asset_id),
            ) => Ok(
                BridgehubChainDetails {
                    stm_address,
                    st_address,
                    shared_bridge_address,
                    base_token_address,
                    validator_timelock_address,
                    stm_asset_id,
                },
            ),
            _ => Err(InspectError::Transport),
        },
        _ => Err(InspectError::Transport),
    }
}

/// A resolution put to `chain` from its start yields exactly the contracts
/// that `chain` reports.
pub proof fn lemma_run_resolves_topology(
    hub: Address,
    chain_id: u64,
    chain: spec_fn(Query) -> Reply,
)
    ensures
        TopologyResolver::start(hub, chain_id).run(chain) == resolved_topology(
            hub,
            chain_id,
            chain,
        ),
{
    reveal_with_fuel(TopologyResolver::run, 8);
}

/// Replies that `chain` gave lead where the run against `chain` leads: once
/// no query is pending the details are those of the run, and an error is the
/// run's error.
pub proof fn lemma_replies_follow_run(
    resolver: TopologyResolver,
    chain: spec_fn(Query) -> Reply,
    replies: Seq<Reply>,
)
    requires
        resolver.answered_by(chain, replies),
    ensures
        match resolver.replay(replies) {
            Ok(reached) => reached.run(chain) == resolver.run(chain),
            Err(e) => resolver.run(chain) == Err::<BridgehubChainDetails, InspectError>(e),
        },
    decreases replies.len(),
{
    if replies.len() > 0 {
        match resolver.step(replies[0]) {
            Ok(next) => {
                lemma_replies_follow_run(next, chain, replies.skip(1));
            },
            Err(_) => {},
        }
    }
}

/// Resolving the same chain twice against an unchanged chain state gives the
/// same details: whatever replies the two resolutions saw, if `chain` gave
/// them and both resolutions were carried to their end.
pub proof fn lemma_resolution_is_idempotent(
    hub: Address,
    chain_id: u64,
    chain: spec_fn(Query) -> Reply,
    first: Seq<Reply>,
    second: Seq<Reply>,
)
    requires
        TopologyResolver::start(hub, chain_id).answered_by(chain, first),
        TopologyResolver::start(hub, chain_id).answered_by(chain, second),
        TopologyResolver::start(hub, chain_id).replay(first) matches Ok(a) && a.pending() is None,
        TopologyResolver::start(hub, chain_id).replay(second) matches Ok(b) && b.pending() is None,
    ensures
        TopologyResolver::start(hub, chain_id).replay(first)->Ok_0.details
            == TopologyResolver::start(hub, chain_id).replay(second)->Ok_0.details,
{
    lemma_replies_follow_run(TopologyResolver::start(hub, chain_id), chain, first);
    lemma_replies_follow_run(TopologyResolver::start(hub, chain_id), chain, second);
}

/// A failed lookup of the base token does not fail the resolution: it
/// succeeds exactly when the five other lookups do, and then reports the zero
/// address as base token.
pub proof fn lemma_base_token_failure_is_tolerated(
    hub: Address,
    chain_id: u64,
    chain: spec_fn(Query) -> Reply,
)
    requires
        !(chain(Query::BaseToken { hub, chain_id }) is Address),
    ensures
        TopologyResolver::start(hub, chain_id).run(chain) is Ok <==> {
            &&& chain(Query::StateTransitionManager { hub, chain_id }) matches Reply::Address(m)
            &&& chain(Query::GetHyperchain { hub, chain_id }) is Address
            &&& chain(Query::SharedBridge { hub }) is Address
            &&& chain(Query::ValidatorTimelock { manager: m }) is Address
            &&& chain(Query::StmAssetIdFromChainId { hub, chain_id }) is Word
        },
        TopologyResolver::start(hub, chain_id).run(chain) matches Ok(details)
            ==> details.base_token_address@ == 0,
{
    lemma_run_resolves_topology(hub, chain_id, chain);
}

/// The hub contract, with the chains registered with it where they have
/// been looked for.
pub struct Bridgehub {
    pub address: Address,
    pub shared_bridge: Address,
    /// The chains under the hub; `None` where they were not looked for.
    pub known_chains: Option<HashSet<u64>>,
}

/// A [`Bridgehub`] with its chains as a set.
pub struct BridgehubModel {
    pub address: Address,
    pub shared_bridge: Address,
    pub known_chains: Option<Set<u64>>,
}

impl View for Bridgehub {
    type V = BridgehubModel;

    open spec fn view(&self) -> BridgehubModel {
        BridgehubModel {
            address: self.address,
            shared_bridge: self.shared_bridge,
            known_chains: match self.known_chains {
                Some(chains) => Some(chains@),
                None => None,
            },
        }
    }
}

/// The step that a [`BridgehubProbe`] waits for.
#[derive(Clone, Copy, Debug, PartialEq, Eq, Structural)]
pub enum ProbePhase {
    /// The code at the hub's address is to be read.
    Code,
    /// The hub is to be asked for its shared bridge.
    SharedBridge,
    /// The chains under the hub are being discovered.
    Chains,
    Done,
}

/// Reads a hub: makes sure that there is a contract at its address, asks for
/// its shared bridge and, where wanted, discovers its chains.
pub struct BridgehubProbe {
    pub address: Address,
    /// Whether the chains are to be discovered.
    pub autodetect_chains: bool,
    pub phase: ProbePhase,
    /// The shared bridge, once the hub has named it; zero before.
    pub shared_bridge: Address,
    pub discovery: ChainDiscovery,
}

/// A [`BridgehubProbe`] with the chains found as a set.
pub struct ProbeModel {
    pub address: Address,
    pub autodetect_chains: bool,
    pub phase: ProbePhase,
    pub shared_bridge: Address,
    pub discovery: DiscoveryModel,
}

impl View for BridgehubProbe {
    type V = ProbeModel;

    open spec fn view(&self) -> ProbeModel {
        ProbeModel {
            address: self.address,
            autodetect_chains: self.autodetect_chains,
            phase: self.phase,
            shared_bridge: self.shared_bridge,
            discovery: self.discovery@,
        }
    }
}

impl ProbeModel {
    /// The probe before its first query.
    pub open spec fn start(
        address: Address,
        autodetect_chains: bool,
        role: NetworkRole,
        events: HubEvents,
    ) -> ProbeModel {
        ProbeModel {
            address,
            autodetect_chains,
            phase: ProbePhase::Code,
            shared_bridge: Address { hi: 0, lo: 0 },
            discovery: DiscoveryModel::start(address, role, events, DEFAULT_WINDOW),
        }
    }

    /// The discovery is that of this hub, and it has work left while the
    /// probe waits for it.
    pub open spec fn wf(self) -> bool {
        &&& self.discovery.wf()
        &&& self.discovery.hub == self.address
        &&& self.phase == ProbePhase::Chains ==> self.discovery.phase != DiscoveryPhase::Done
        &&& self.phase == ProbePhase::Done && self.autodetect_chains ==> self.discovery.phase
            == DiscoveryPhase::Done
    }

    /// The query that the probe waits for, if any.
    pub open spec fn pending(self) -> Option<Query> {
        match self.phase {
            ProbePhase::Code => Some(Query::CodeAt { address: self.address }),
            ProbePhase::SharedBridge => Some(Query::SharedBridge { hub: self.address }),
            ProbePhase::Chains => self.discovery.pending(),
            ProbePhase::Done => None,
        }
    }

    /// The probe after `reply` has come in for the pending query, or the
    /// error that ends it.
    ///
    /// Empty code means that there is no contract at the address. The shared
    /// bridge ends the probe, unless the chains are to be discovered: then
    /// every further reply goes to the discovery, and the probe ends when
    /// the discovery does.
    pub open spec fn step(self, reply: Reply) -> Result<ProbeModel, InspectError> {
        match self.phase {
            ProbePhase::Done => Err(InspectError::Precondition),
            ProbePhase::Code => match reply {
                Reply::Code(code) => if code@.len() == 0 {
                    Err(InspectError::NotFound)
                } else {
                    Ok(ProbeModel { phase: ProbePhase::SharedBridge, ..self })
                },
                _ => Err(InspectError::Transport),
            },
            ProbePhase::SharedBridge => match reply {
                Reply::Address(bridge) => Ok(
                    ProbeModel {
                        shared_bridge: bridge,
                        phase: if self.autodetect_chains && self.discovery.phase
                            != DiscoveryPhase::Done {
                            ProbePhase::Chains
                        } else {
                            ProbePhase::Done
                        },
                        ..self
                    },
                ),
                _ => Err(InspectError::Transport),
            },
            ProbePhase::Chains => match self.discovery.step(reply) {
                Ok(next) => Ok(
                    ProbeModel {
                        discovery: next,
                        phase: if next.phase == DiscoveryPhase::Done {
                            ProbePhase::Done
                        } else {
                            ProbePhase::Chains
                        },
                        ..self
                    },
                ),
                Err(e) => Err(e),
            },
        }
    }

    /// The hub as the probe has read it.
    pub open spec fn hub(self) -> BridgehubModel {
        BridgehubModel {
            address: self.address,
            shared_bridge: self.shared_bridge,
            known_chains: if self.autodetect_chains {
                Some(self.discovery.found)
            } else {
                None
            },
        }
    }

    /// A bound on the number of queries that the probe may still make.
    pub open spec fn remaining(self) -> nat {
        match self.phase {
            ProbePhase::Code => u64::MAX as nat + 6,
            ProbePhase::SharedBridge => u64::MAX as nat + 5,
            ProbePhase::Chains => self.discovery.remaining(),
            ProbePhase::Done => 0,
        }
    }

    /// The outcome of putting every pending query to `chain` until none is
    /// left or one fails.
    pub open spec fn run(self, chain: spec_fn(Query) -> Reply) -> Result<
        BridgehubModel,
        InspectError,
    >
        decreases self.remaining(),
        when self.wf()
    {
        match self.pending() {
            None => Ok(self.hub()),
            Some(query) => match self.step(chain(query)) {
                Ok(next) => next.run(chain),
                Err(e) => Err(e),
            },
        }
    }
}

/// The hub at `address`, read off the answers of `chain`: there must be code
/// at the address; the shared bridge is the one that the hub names; the
/// chains, where wanted, are those that a discovery finds.
pub open spec fn hub_on(
    chain: spec_fn(Query) -> Reply,
    address: Address,
    autodetect_chains: bool,
    chains: Result<Set<u64>, InspectError>,
) -> Result<BridgehubModel, InspectError> {
    match chain(Query::CodeAt { address }) {
        Reply::Code(code) => if code@.len() == 0 {
            Err(InspectError::NotFound)
        } else {
            match chain(Query::SharedBridge { hub: address }) {
                Reply::Address(shared_bridge) => if autodetect_chains {
                    match chains {
                        Ok(found) => Ok(
                            BridgehubModel { address, shared_bridge, known_chains: Some(found) },
                        ),
                        Err(e) => Err(e),
                    }
                } else {
                    Ok(BridgehubModel { address, shared_bridge, known_chains: None })
                },
                _ => Err(InspectError::Transport),
            }
        },
        _ => Err(InspectError::Transport),
    }
}

/// While the probe waits for its discovery, it runs as the discovery does.
pub proof fn lemma_probe_runs_as_discovery(probe: ProbeModel, chain: spec_fn(Query) -> Reply)
    requires
        probe.wf(),
        probe.autodetect_chains,
        probe.phase == ProbePhase::Chains || probe.phase == ProbePhase::Done,
    ensures
        probe.run(chain) == (match probe.discovery.run(chain) {
            Ok(found) => Ok(
                BridgehubModel {
                    address: probe.address,
                    shared_bridge: probe.shared_bridge,
                    known_chains: Some(found),
                },
            ),
            Err(e) => Err(e),
        }),
    decreases probe.remaining(),
{
    if probe.phase == ProbePhase::Chains {
        let query = probe.discovery.pending()->0;
        if let Ok(next) = probe.step(chain(query)) {
            lemma_probe_runs_as_discovery(next, chain);
        }
    }
}

/// A probe put to `chain` from its start reads exactly the hub that `chain`
/// holds, with the chains that a discovery finds on `chain`.
pub proof fn lemma_run_reads_hub(
    chain: spec_fn(Query) -> Reply,
    address: Address,
    autodetect_chains: bool,
    role: NetworkRole,
    events: HubEvents,
)
    ensures
        ProbeModel::start(address, autodetect_chains, role, events).run(chain) == hub_on(
            chain,
            address,
            autodetect_chains,
            DiscoveryModel::start(address, role, events, DEFAULT_WINDOW).run(chain),
        ),
{
    let fresh = ProbeModel::start(address, autodetect_chains, role, events);
    assert(fresh.wf());
    if let Reply::Code(code) = chain(Query::CodeAt { address }) {
        if code@.len() > 0 {
            let coded = ProbeModel { phase: ProbePhase::SharedBridge, ..fresh };
            assert(coded.wf());
            assert(fresh.run(chain) == coded.run(chain));
            if let Reply::Address(bridge) = chain(Query::SharedBridge { hub: address }) {
                let bridged = coded.step(chain(coded.pending()->0))->Ok_0;
                assert(bridged.wf());
                assert(coded.run(chain) == bridged.run(chain));
                if autodetect_chains {
                    lemma_probe_runs_as_discovery(bridged, chain);
                } else {
                    assert(bridged.run(chain) == Ok::<BridgehubModel, InspectError>(
                        bridged.hub(),
                    ));
                }
            } else {
                assert(coded.run(chain) == Err::<BridgehubModel, InspectError>(
                    InspectError::Transport,
                ));
            }
        }
    }
}

impl BridgehubProbe {
    /// The discovery is that of this hub, and it has work left while the
    /// probe waits for it.
    pub open spec fn wf(&self) -> bool {
        self@.wf()
    }

    /// The query to perform next; `None` once the hub has been read.
    pub fn next_query(&self) -> (query: Option<Query>)
        requires
            self.wf(),
        ensures
            query == self@.pending(),
    {
        match self.phase {
            ProbePhase::Code => Some(Query::CodeAt { address: self.address }),
            ProbePhase::SharedBridge => Some(Query::SharedBridge { hub: self.address }),
            ProbePhase::Chains => self.discovery.next_query(),
            ProbePhase::Done => None,
        }
    }

    /// Takes the reply to the pending query. On an error the probe is left
    /// as it was.
    pub fn on_reply(&mut self, reply: Reply) -> (outcome: Result<(), InspectError>)
        requires
            old(self).wf(),
        ensures
            final(self).wf(),
            match old(self)@.step(reply) {
                Ok(next) => outcome is Ok && final(self)@ == next,
                Err(e) => outcome == Err::<(), InspectError>(e) && final(self)@ == old(self)@,
            },
    {
        match self.phase {
            ProbePhase::Done => Err(InspectError::Precondition),
            ProbePhase::Code => match reply {
                Reply::Code(code) => {
                    if code.len() == 0 {
                        Err(InspectError::NotFound)
                    } else {
                        self.phase = ProbePhase::SharedBridge;
                        Ok(())
                    }
                },
                _ => Err(InspectError::Transport),
            },
            ProbePhase::SharedBridge => {
                let bridge = reply.into_address()?;
                self.shared_bridge = bridge;
                self.phase = if self.autodetect_chains && self.discovery.next_query().is_some() {
                    ProbePhase::Chains
                } else {
                    ProbePhase::Done
                };
                Ok(())
            },
            ProbePhase::Chains => {
                self.discovery.on_reply(reply)?;
                if self.discovery.next_query().is_none() {
                    self.phase = ProbePhase::Done;
                }
                Ok(())
            },
        }
    }

    /// The hub, once it has been read.
    pub fn finish(self) -> (hub: Option<Bridgehub>)
        requires
            self.wf(),
        ensures
            hub is Some <==> self.phase == ProbePhase::Done,
            hub matches Some(read) ==> read@ == self@.hub(),
    {
        match self.phase {
            ProbePhase::Done => {
                let known_chains = if self.autodetect_chains {
                    self.discovery.finish()
                } else {
                    None
                };
                Some(
                    Bridgehub {
                        address: self.address,
                        shared_bridge: self.shared_bridge,
                        known_chains,
                    },
                )
            },
            _ => None,
        }
    }
}

/// Reads the state transition of one chain: asks the hub for the chain's
/// transition contract and then reads that contract's snapshot.
#[derive(Clone, Copy, Debug, PartialEq, Eq)]
pub struct StateTransitionLookup {
    pub hub: Address,
    pub chain_id: u64,
    /// The reading of the transition contract, once the hub has named it.
    pub reader: Option<StateTransitionReader>,
}

impl StateTransitionLookup {
    /// The lookup before its first query.
    pub open spec fn start(hub: Address, chain_id: u64) -> StateTransitionLookup {
        StateTransitionLookup { hub, chain_id, reader: None }
    }

    /// The query that the lookup waits for, if any.
    pub open spec fn pending(self) -> Option<Query> {
        match self.reader {
            None => Some(Query::GetHyperchain { hub: self.hub, chain_id: self.chain_id }),
            Some(reader) => reader.pending(),
        }
    }

    /// The lookup after `reply` has come in for the pending query, or the
    /// error that ends it.
    pub open spec fn step(self, reply: Reply) -> Result<StateTransitionLookup, InspectError> {
        match self.reader {
            None => match reply {
                Reply::Address(contract) => Ok(
                    StateTransitionLookup {
                        reader: Some(StateTransitionReader::start(contract)),
                        ..self
                    },
                ),
                _ => Err(InspectError::Transport),
            },
            Some(reader) => match reader.step(reply) {
                Ok(next) => Ok(StateTransitionLookup { reader: Some(next), ..self }),
                Err(e) => Err(e),
            },
        }
    }

    /// A bound on the number of queries that the lookup may still make.
    pub open spec fn remaining(self) -> nat {
        match self.reader {
            None => 12,
            Some(reader) => reader.remaining(),
        }
    }

    /// The outcome of putting every pending query to `chain` until none is
    /// left or one fails.
    pub open spec fn run(self, chain: spec_fn(Query) -> Reply) -> Result<
        StateTransition,
        InspectError,
    >
        decreases self.remaining(),
    {
        match (self.pending(), self.reader) {
            (Some(query), _) => match self.step(chain(query)) {
                Ok(next) => next.run(chain),
                Err(e) => Err(e),
            },
            (None, Some(reader)) => Ok(reader.snapshot),
            (None, None) => Err(InspectError::Precondition),
        }
    }

    /// The state transition of the chain, read off the answers of `chain`.
    pub open spec fn state_transition_on(self, chain: spec_fn(Query) -> Reply) -> Result<
        StateTransition,
        InspectError,
    > {
        match chain(Query::GetHyperchain { hub: self.hub, chain_id: self.chain_id }) {
            Reply::Address(contract) => crate::statetransition::snapshot_of(chain, contract),
            _ => Err(InspectError::Transport),
        }
    }

    /// The query to perform next; `None` once the snapshot is read.
    pub fn next_query(&self) -> (query: Option<Query>)
        ensures
            query == self.pending(),
    {
        match &self.reader {
            None => Some(Query::GetHyperchain { hub: self.hub, chain_id: self.chain_id }),
            Some(reader) => reader.next_query(),
        }
    }

    /// Takes the reply to the pending query. On an error the lookup is left
    /// as it was.
    pub fn on_reply(&mut self, reply: Reply) -> (outcome: Result<(), InspectError>)
        ensures
            match old(self).step(reply) {
                Ok(next) => outcome is Ok && *final(self) == next,
                Err(e) => outcome == Err::<(), InspectError>(e) && *final(self) == *old(self),
            },
    {
        match self.reader {
            None => {
                let contract = reply.into_address()?;
                self.reader = Some(StateTransition::new(contract));
                Ok(())
            },
            Some(mut reader) => {
                reader.on_reply(reply)?;
                self.reader = Some(reader);
                Ok(())
            },
        }
    }

    /// The state transition, once its snapshot is read.
    pub fn finish(&self) -> (snapshot: Option<StateTransition>)
        ensures
            snapshot == (match self.reader {
                Some(reader) if reader.next is None => Some(reader.snapshot),
                _ => None,
            }),
    {
        match &self.reader {
            Some(reader) => reader.finish(),
            None => None,
        }
    }
}

/// Once the hub has named the transition contract, the lookup runs as the
/// reading of that contract does.
pub proof fn lemma_lookup_runs_as_reader(
    lookup: StateTransitionLookup,
    chain: spec_fn(Query) -> Reply,
)
    requires
        lookup.reader is Some,
    ensures
        lookup.run(chain) == lookup.reader->0.run(chain),
    decreases lookup.remaining(),
{
    let reader = lookup.reader->0;
    if let Some(query) = reader.pending() {
        if let Ok(next) = reader.step(chain(query)) {
            lemma_lookup_runs_as_reader(
                StateTransitionLookup { reader: Some(next), ..lookup },
                chain,
            );
        }
    }
}

/// A lookup put to `chain` from its start yields exactly the state
/// transition that `chain` reports for the chain.
pub proof fn lemma_lookup_reads_state_transition(
    hub: Address,
    chain_id: u64,
    chain: spec_fn(Query) -> Reply,
)
    ensures
        StateTransitionLookup::start(hub, chain_id).run(chain) == StateTransitionLookup::start(
            hub,
            chain_id,
        ).state_transition_on(chain),
{
    let lookup = StateTransitionLookup::start(hub, chain_id);
    if let Reply::Address(contract) = chain(Query::GetHyperchain { hub, chain_id }) {
        lemma_lookup_runs_as_reader(
            StateTransitionLookup { reader: Some(StateTransitionReader::start(contract)), ..lookup },
            chain,
        );
        crate::statetransition::lemma_run_reads_snapshot(chain, contract);
    }
}

impl Bridgehub {
    /// A probe of the hub at `address`, which also discovers the chains
    /// under it where `autodetect_chains` is set.
    pub fn new(address: Address, autodetect_chains: bool, role: NetworkRole) -> (probe:
        BridgehubProbe)
        ensures
            probe.wf(),
            probe.discovery.events.genuine(),
            probe@ == ProbeModel::start(address, autodetect_chains, role, probe.discovery.events),
    {
        BridgehubProbe {
            address,
            autodetect_chains,
            phase: ProbePhase::Code,
            shared_bridge: Address::zero(),
            discovery: Bridgehub::detect_chains(role, address),
        }
    }

    /// A discovery of the chains under the hub at `bridgehub`: a scan of the
    /// hub's log on the root chain, the settlement layer's enumeration on a
    /// rollup.
    pub fn detect_chains(role: NetworkRole, bridgehub: Address) -> (discovery: ChainDiscovery)
        ensures
            discovery.wf(),
            discovery.events.genuine(),
            discovery@ == DiscoveryModel::start(
                bridgehub,
                role,
                discovery.events,
                DEFAULT_WINDOW,
            ),
    {
        ChainDiscovery::new(bridgehub, role, DEFAULT_WINDOW)
    }

    /// The chains to report on in detail. They are there only after a
    /// discovery.
    pub fn print_detailed_info(&self) -> (chains: Result<&HashSet<u64>, InspectError>)
        ensures
            match self.known_chains {
                Some(known) => chains matches Ok(listed) && *listed == known,
                None => chains matches Err(e) && e == InspectError::Precondition,
            },
    {
        match &self.known_chains {
            Some(known) => Ok(known),
            None => Err(InspectError::Precondition),
        }
    }

    /// A resolver for the contracts of one chain under this hub.
    pub fn get_chain_details(&self, chain_id: u64) -> (resolver: TopologyResolver)
        ensures
            resolver == TopologyResolver::start(self.address, chain_id),
    {
        TopologyResolver::new(self.address, chain_id)
    }

    /// A lookup of the state transition of one chain under this hub.
    pub fn get_state_transition(&self, chain_id: u64) -> (lookup: StateTransitionLookup)
        ensures
            lookup == StateTransitionLookup::start(self.address, chain_id),
    {
        StateTransitionLookup { hub: self.address, chain_id, reader: None }
    }
}

} // verus!
