//! The shared asset router: the assets registered with it, and what the
//! native token vault behind it holds.

use vstd::prelude::*;
use crate::error::InspectError;
use crate::events::asset_handler_registered_topic;
use crate::primitives::{Address, Bytes32, Uint256};
use crate::query::{LogEntry, Query, Reply};
pub use crate::registered_asset::{AssetHandler, NativeTokenVaultAsset, RegisteredAsset};
use crate::registered_asset::{AssetResolver, ResolverModel};
use crate::scanner::{LogWindowScanner, ScanCursor, ScannerModel, DEFAULT_WINDOW};

verus! {

/// The asset among `assets` that was registered last under `id`.
pub open spec fn latest(assets: Seq<RegisteredAsset>, id: Bytes32) -> Option<RegisteredAsset>
    decreases assets.len(),
{
    if assets.len() == 0 {
        None
    } else if assets.last().asset_id == id {
        Some(assets.last())
    } else {
        latest(assets.drop_last(), id)
    }
}

/// The assets by their id, where a later asset replaces an earlier one with
/// the same id.
pub open spec fn registry(assets: Seq<RegisteredAsset>) -> Map<Bytes32, RegisteredAsset> {
    Map::new(
        |id: Bytes32| latest(assets, id) is Some,
        |id: Bytes32| latest(assets, id)->0,
    )
}

/// No two of the assets have the same id.
pub open spec fn distinct_ids(assets: Seq<RegisteredAsset>) -> bool {
    forall|i: int, j: int|
        0 <= i < j < assets.len() ==> (#[trigger] assets[i]).asset_id != (
        #[trigger] assets[j]).asset_id
}

/// Among assets with distinct ids, each is the latest under its own id.
pub proof fn lemma_latest_of_distinct(assets: Seq<RegisteredAsset>, i: int)
    requires
        distinct_ids(assets),
        0 <= i < assets.len(),
    ensures
        latest(assets, assets[i].asset_id) == Some(assets[i]),
    decreases assets.len(),
{
    if i < assets.len() - 1 {
        assert(assets.last() == assets[assets.len() - 1]);
        assert(assets.drop_last()[i] == assets[i]);
        assert(distinct_ids(assets.drop_last())) by {
            assert forall|a: int, b: int| 0 <= a < b < assets.drop_last().len() implies (
            #[trigger] assets.drop_last()[a]).asset_id != (
            #[trigger] assets.drop_last()[b]).asset_id by {
                assert(assets.drop_last()[a] == assets[a]);
                assert(assets.drop_last()[b] == assets[b]);
            }
        }
        lemma_latest_of_distinct(assets.drop_last(), i);
    }
}

/// The latest asset under an id is one of the assets and has that id; there
/// is none exactly when no asset has the id.
pub proof fn lemma_latest_is_member(assets: Seq<RegisteredAsset>, id: Bytes32)
    ensures
        latest(assets, id) matches Some(asset) ==> asset.asset_id == id && assets.contains(asset),
        latest(assets, id) is None <==> forall|i: int|
            0 <= i < assets.len() ==> (#[trigger] assets[i]).asset_id != id,
    decreases assets.len(),
{
    if assets.len() > 0 {
        lemma_latest_is_member(assets.drop_last(), id);
        if assets.last().asset_id == id {
            assert(assets[assets.len() - 1] == assets.last());
        } else {
            if let Some(asset) = latest(assets.drop_last(), id) {
                let i = choose|i: int|
                    0 <= i < assets.drop_last().len() && assets.drop_last()[i] == asset;
                assert(assets[i] == asset);
            }
            if latest(assets, id) is None {
                assert forall|i: int| 0 <= i < assets.len() implies (
                #[trigger] assets[i]).asset_id != id by {
                    if i < assets.len() - 1 {
                        assert(assets.drop_last()[i] == assets[i]);
                    }
                }
            } else {
                let i = choose|i: int|
                    0 <= i < assets.drop_last().len() && assets.drop_last()[i].asset_id == id;
                assert(assets[i] == assets.drop_last()[i]);
            }
        }
    }
}

/// `at` is the place of the last of the assets with the id.
pub open spec fn is_last_with_id(assets: Seq<RegisteredAsset>, id: Bytes32, at: int) -> bool {
    &&& 0 <= at < assets.len()
    &&& assets[at].asset_id == id
    &&& forall|later: int| at < later < assets.len() ==> (#[trigger] assets[later]).asset_id != id
}

/// The last of the assets with an id is the latest under that id.
pub proof fn lemma_latest_is_last(assets: Seq<RegisteredAsset>, id: Bytes32, at: int)
    requires
        is_last_with_id(assets, id, at),
    ensures
        latest(assets, id) == Some(assets[at]),
    decreases assets.len(),
{
    if at < assets.len() - 1 {
        assert(assets.last() == assets[assets.len() - 1]);
        assert(assets.drop_last()[at] == assets[at]);
        assert forall|later: int| at < later < assets.drop_last().len() implies (
        #[trigger] assets.drop_last()[later]).asset_id != id by {
            assert(assets.drop_last()[later] == assets[later]);
        }
        lemma_latest_is_last(assets.drop_last(), id, at);
    }
}

/// A registry holds one entry for each id that occurs among the assets, and
/// no other: the entry under an id is the last of the assets with that id.
pub proof fn lemma_registry_holds_every_id(assets: Seq<RegisteredAsset>, id: Bytes32)
    ensures
        registry(assets).dom().contains(id) <==> exists|i: int|
            0 <= i < assets.len() && (#[trigger] assets[i]).asset_id == id,
        registry(assets).dom().contains(id) ==> exists|at: int| #[trigger]
            is_last_with_id(assets, id, at) && registry(assets)[id] == assets[at],
    decreases assets.len(),
{
    lemma_latest_is_member(assets, id);
    if assets.len() > 0 && registry(assets).dom().contains(id) {
        if assets.last().asset_id == id {
            assert(is_last_with_id(assets, id, assets.len() - 1));
        } else {
            lemma_registry_holds_every_id(assets.drop_last(), id);
            let at = choose|at: int| #[trigger]
                is_last_with_id(assets.drop_last(), id, at) && registry(assets.drop_last())[id]
                    == assets.drop_last()[at];
            assert(assets[at] == assets.drop_last()[at]);
            assert forall|later: int| at < later < assets.len() implies (
            #[trigger] assets[later]).asset_id != id by {
                if later < assets.len() - 1 {
                    assert(assets.drop_last()[later] == assets[later]);
                }
            }
            assert(is_last_with_id(assets, id, at));
        }
    }
}

/// Assets with distinct ids are exactly the entries of their registry: each
/// is entered under its id, and every id entered is that of one of them.
pub proof fn lemma_registry_of_distinct(assets: Seq<RegisteredAsset>)
    requires
        distinct_ids(assets),
    ensures
        forall|i: int|
            0 <= i < assets.len() ==> registry(assets).dom().contains(
                (#[trigger] assets[i]).asset_id,
            ) && registry(assets)[assets[i].asset_id] == assets[i],
        forall|id: Bytes32|
            registry(assets).dom().contains(id) ==> exists|i: int|
                0 <= i < assets.len() && (#[trigger] assets[i]).asset_id == id,
{
    assert forall|i: int| 0 <= i < assets.len() implies registry(assets).dom().contains(
        (#[trigger] assets[i]).asset_id,
    ) && registry(assets)[assets[i].asset_id] == assets[i] by {
        lemma_latest_of_distinct(assets, i);
    }
    assert forall|id: Bytes32| registry(assets).dom().contains(id) implies exists|i: int|
        0 <= i < assets.len() && (#[trigger] assets[i]).asset_id == id by {
        lemma_latest_is_member(assets, id);
    }
}

/// The asset router with the assets registered with it.
pub struct L1AssetRouter {
    pub address: Address,
    pub native_token_vault: Address,
    /// One entry for each asset id.
    pub registered_assets: Vec<RegisteredAsset>,
}

impl View for L1AssetRouter {
    type V = Map<Bytes32, RegisteredAsset>;

    open spec fn view(&self) -> Map<Bytes32, RegisteredAsset> {
        registry(self.registered_assets@)
    }
}

impl L1AssetRouter {
    /// No asset id is entered twice.
    pub open spec fn wf(&self) -> bool {
        distinct_ids(self.registered_assets@)
    }

    /// A discovery of the assets registered with the router at `address`,
    /// in windows of the usual size.
    pub fn new(address: Address) -> (discovery: AssetDiscovery)
        ensures
            discovery.wf(),
            discovery@ == AssetDiscoveryModel::start(address, discovery.signature, DEFAULT_WINDOW),
            discovery.signature@ == crate::events::keccak256_digest(
                crate::events::asset_handler_registered_signature(),
            ),
    {
        AssetDiscovery::new(address, DEFAULT_WINDOW)
    }

    /// The router with `assets` entered in their order: an asset replaces an
    /// earlier one with the same id.
    pub fn assemble(
        address: Address,
        native_token_vault: Address,
        assets: Vec<RegisteredAsset>,
    ) -> (router: L1AssetRouter)
        ensures
            router.wf(),
            router.address == address,
            router.native_token_vault == native_token_vault,
            router@ == registry(assets@),
    {
        let mut entries: Vec<RegisteredAsset> = Vec::new();
        let ghost all = assets@;
        for asset in given: assets
            invariant
                given.seq() == all,
                distinct_ids(entries@),
                forall|id: Bytes32|
                    #[trigger] latest(entries@, id) == latest(all.take(given.index() as int), id),
        {
            let ghost seen = all.take(given.index() as int);
            let ghost more = all.take(given.index() + 1);
            let ghost before = entries@;
            proof {
                assert(more.drop_last() == seen);
                assert(more.last() == asset);
            }
            match position_of(&entries, &asset.asset_id) {
                Some(at) => {
                    entries.set(at, asset);
                    proof {
                        let after = entries@;
                        assert(distinct_ids(after)) by {
                            assert forall|i: int, j: int| 0 <= i < j < after.len() implies (
                            #[trigger] after[i]).asset_id != (#[trigger] after[j]).asset_id by {
                                assert(after[i].asset_id == before[i].asset_id);
                                assert(after[j].asset_id == before[j].asset_id);
                            }
                        }
                        assert forall|id: Bytes32| #[trigger]
                            latest(after, id) == latest(more, id) by {
                            if id == asset.asset_id {
                                lemma_latest_of_distinct(after, at as int);
                            } else {
                                lemma_latest_is_member(after, id);
                                lemma_latest_is_member(before, id);
                                if let Some(found) = latest(before, id) {
                                    let i = choose|i: int|
                                        0 <= i < before.len() && before[i] == found;
                                    assert(after[i] == found);
                                    lemma_latest_of_distinct(after, i);
                                } else {
                                    assert forall|i: int| 0 <= i < after.len() implies (
                                    #[trigger] after[i]).asset_id != id by {
                                        assert(after[i].asset_id == before[i].asset_id);
                                    }
                                }
                            }
                        }
                    }
                },
                None => {
                    entries.push(asset);
                    proof {
                        let after = entries@;
                        assert(after.drop_last() == before);
                        assert(after.last() == asset);
                        assert(distinct_ids(after)) by {
                            assert forall|i: int, j: int| 0 <= i < j < after.len() implies (
                            #[trigger] after[i]).asset_id != (#[trigger] after[j]).asset_id by {
                                assert(after[i] == before[i]);
                                if j < before.len() {
                                    assert(after[j] == before[j]);
                                }
                            }
                        }
                        assert forall|id: Bytes32| #[trigger]
                            latest(after, id) == latest(more, id) by {
                            assert(latest(before, id) == latest(seen, id));
                        }
                    }
                },
            }
        }
        proof {
            assert(all.take(all.len() as int) == all);
            assert(registry(entries@) =~= registry(all));
        }
        L1AssetRouter { address, native_token_vault, registered_assets: entries }
    }

    /// The entry for an asset id, if there is one.
    pub fn get(&self, asset_id: &Bytes32) -> (asset: Option<&RegisteredAsset>)
        ensures
            match asset {
                Some(found) => self@.dom().contains(*asset_id) && self@[*asset_id] == *found,
                None => !self@.dom().contains(*asset_id),
            },
    {
        let mut i: usize = self.registered_assets.len();
        while i > 0
            invariant
                i <= self.registered_assets.len(),
                forall|later: int|
                    i <= later < self.registered_assets@.len() ==> (
                    #[trigger] self.registered_assets@[later]).asset_id != *asset_id,
            decreases i,
        {
            i -= 1;
            if self.registered_assets[i].asset_id == *asset_id {
                proof {
                    lemma_latest_is_last(self.registered_assets@, *asset_id, i as int);
                }
                return Some(&self.registered_assets[i]);
            }
        }
        proof {
            lemma_latest_is_member(self.registered_assets@, *asset_id);
        }
        None
    }

    /// A lookup of what the vault holds of an asset for a chain.
    pub fn chain_balance(&self, chain_id: Uint256, asset_id: &Bytes32) -> (lookup: BalanceLookup)
        ensures
            lookup == BalanceLookup::start(self.native_token_vault, chain_id, *asset_id),
    {
        BalanceLookup {
            vault: self.native_token_vault,
            chain: chain_id,
            asset_id: *asset_id,
            stage: BalanceStage::TokenAddress,
        }
    }
}

/// The place of the asset with the given id among `entries`.
fn position_of(entries: &Vec<RegisteredAsset>, asset_id: &Bytes32) -> (at: Option<usize>)
    ensures
        match at {
            Some(i) => i < entries@.len() && entries@[i as int].asset_id == *asset_id,
            None => forall|i: int|
                0 <= i < entries@.len() ==> (#[trigger] entries@[i]).asset_id != *asset_id,
        },
{
    let mut i: usize = 0;
    while i < entries.len()
        invariant
            i <= entries.len(),
            forall|j: int| 0 <= j < i ==> (#[trigger] entries@[j]).asset_id != *asset_id,
        decreases entries.len() - i,
    {
        if entries[i].asset_id == *asset_id {
            return Some(i);
        }
        i += 1;
    }
    None
}

/// The step that a [`BalanceLookup`] waits for.
#[derive(Clone, Copy, Debug, PartialEq, Eq, Structural)]
pub enum BalanceStage {
    /// The vault is to be asked for the token of the asset.
    TokenAddress,
    /// The vault is to be asked for the chain's balance of the token.
    Balance(Address),
    Done(Uint256),
}

/// Reads what the native token vault holds of one asset for one chain.
#[derive(Clone, Copy, Debug, PartialEq, Eq, Structural)]
pub struct BalanceLookup {
    pub vault: Address,
    pub chain: Uint256,
    pub asset_id: Bytes32,
    pub stage: BalanceStage,
}

impl BalanceLookup {
    /// The lookup before its first query.
    pub open spec fn start(vault: Address, chain: Uint256, asset_id: Bytes32) -> BalanceLookup {
        BalanceLookup { vault, chain, asset_id, stage: BalanceStage::TokenAddress }
    }

    /// The query that the lookup waits for, if any.
    pub open spec fn pending(self) -> Option<Query> {
        match self.stage {
            BalanceStage::TokenAddress => Some(
                Query::TokenAddress { vault: self.vault, asset_id: self.asset_id },
            ),
            BalanceStage::Balance(token) => Some(
                Query::ChainBalance { vault: self.vault, chain: self.chain, token },
            ),
            BalanceStage::Done(_) => None,
        }
    }

    /// The lookup after `reply` has come in for the pending query, or the
    /// error that ends it.
    pub open spec fn step(self, reply: Reply) -> Result<BalanceLookup, InspectError> {
        match (self.stage, reply) {
            (BalanceStage::Done(_), _) => Err(InspectError::Precondition),
            (BalanceStage::TokenAddress, Reply::Address(token)) => Ok(
                BalanceLookup { stage: BalanceStage::Balance(token), ..self },
            ),
            (BalanceStage::Balance(_), Reply::Word(balance)) => Ok(
                BalanceLookup { stage: BalanceStage::Done(balance), ..self },
            ),
            _ => Err(InspectError::Transport),
        }
    }

    /// The balance that `chain` reports: that of the token which the vault
    /// names for the asset.
    pub open spec fn balance_on(self, chain: spec_fn(Query) -> Reply) -> Result<
        Uint256,
        InspectError,
    > {
        match chain(Query::TokenAddress { vault: self.vault, asset_id: self.asset_id }) {
            Reply::Address(token) => match chain(
                Query::ChainBalance { vault: self.vault, chain: self.chain, token },
            ) {
                Reply::Word(balance) => Ok(balance),
                _ => Err(InspectError::Transport),
            },
            _ => Err(InspectError::Transport),
        }
    }

    /// The query to perform next; `None` once the balance is known.
    pub fn next_query(&self) -> (query: Option<Query>)
        ensures
            query == self.pending(),
    {
        match self.stage {
            BalanceStage::TokenAddress => Some(
                Query::TokenAddress { vault: self.vault, asset_id: self.asset_id },
            ),
            BalanceStage::Balance(token) => Some(
                Query::ChainBalance { vault: self.vault, chain: self.chain, token },
            ),
            BalanceStage::Done(_) => None,
        }
    }

    /// Takes the reply to the pending query. On an error the lookup is left
    /// as it was.
    pub fn on_reply(&mut self, reply: Reply) -> (outcome: Result<(), InspectError>)
        ensures
            match old(self).step(reply) {
                Ok(next) => outcome is Ok && *final(self) == next,
                Err(e) => outcome == Err::<(), InspectError>(e) && *final(self) == *old(self),
            },
    {
        match (self.stage, reply) {
            (BalanceStage::Done(_), _) => Err(InspectError::Precondition),
            (BalanceStage::TokenAddress, Reply::Address(token)) => {
                self.stage = BalanceStage::Balance(token);
                Ok(())
            },
            (BalanceStage::Balance(_), Reply::Word(balance)) => {
                self.stage = BalanceStage::Done(balance);
                Ok(())
            },
            _ => Err(InspectError::Transport),
        }
    }

    /// The balance, once it is known.
    pub fn finish(&self) -> (balance: Option<Uint256>)
        ensures
            balance == (match self.stage {
                BalanceStage::Done(held) => Some(held),
                _ => None,
            }),
    {
        match self.stage {
            BalanceStage::Done(held) => Some(held),
            _ => None,
        }
    }
}

/// A lookup that starts fresh and takes the two answers of `chain` ends with
/// the balance that `chain` reports, or with its error.
pub proof fn lemma_lookup_reads_balance(
    vault: Address,
    chain_id: Uint256,
    asset_id: Bytes32,
    chain: spec_fn(Query) -> Reply,
)
    ensures
        ({
            let lookup = BalanceLookup::start(vault, chain_id, asset_id);
            match lookup.step(chain(lookup.pending()->0)) {
                Ok(asked) => match asked.step(chain(asked.pending()->0)) {
                    Ok(done) => done.pending() is None && lookup.balance_on(chain) == Ok::<
                        Uint256,
                        InspectError,
                    >(done.stage->Done_0),
                    Err(e) => lookup.balance_on(chain) == Err::<Uint256, InspectError>(e),
                },
                Err(e) => lookup.balance_on(chain) == Err::<Uint256, InspectError>(e),
            }
        }),
{
}

/// What the asset router reports about itself and its log.
pub struct DiscoveredAssets {
    pub native_token_vault: Address,
    pub bridgehub: Address,
    /// Each registration in the log: the asset id and the contract that
    /// tracks its deployment.
    pub registrations: Vec<(Bytes32, Address)>,
}

/// [`DiscoveredAssets`] with the registrations as a sequence.
pub struct DiscoveredModel {
    pub native_token_vault: Address,
    pub bridgehub: Address,
    pub registrations: Seq<(Bytes32, Address)>,
}

impl View for DiscoveredAssets {
    type V = DiscoveredModel;

    open spec fn view(&self) -> DiscoveredModel {
        DiscoveredModel {
            native_token_vault: self.native_token_vault,
            bridgehub: self.bridgehub,
            registrations: self.registrations@,
        }
    }
}

impl DiscoveredAssets {
    /// A resolver for each registration, in their order. The resolvers do
    /// not depend on each other and may be carried out side by side.
    pub fn resolvers(&self) -> (resolvers: Vec<AssetResolver>)
        ensures
            resolvers@.len() == self.registrations@.len(),
            forall|i: int|
                0 <= i < resolvers@.len() ==> (#[trigger] resolvers@[i])@ == ResolverModel::start(
                    self.registrations@[i].0,
                    self.registrations@[i].1,
                    self.native_token_vault,
                    self.bridgehub,
                ),
    {
        let mut resolvers: Vec<AssetResolver> = Vec::new();
        let mut i: usize = 0;
        while i < self.registrations.len()
            invariant
                i <= self.registrations.len(),
                resolvers@.len() == i,
                forall|j: int|
                    0 <= j < i ==> (#[trigger] resolvers@[j])@ == ResolverModel::start(
                        self.registrations@[j].0,
                        self.registrations@[j].1,
                        self.native_token_vault,
                        self.bridgehub,
                    ),
            decreases self.registrations.len() - i,
        {
            let (asset_id, tracker) = self.registrations[i];
            resolvers.push(
                RegisteredAsset::new(asset_id, tracker, &self.native_token_vault, &self.bridgehub),
            );
            i += 1;
        }
        resolvers
    }
}

/// Finds the assets registered with an asset router: asks for the vault and
/// the hub, then scans the router's log for registrations.
pub struct AssetDiscovery {
    pub router: Address,
    /// The first topic of a registration.
    pub signature: Bytes32,
    /// The number of blocks in a window; positive.
    pub window_size: u64,
    pub native_token_vault: Option<Address>,
    pub bridgehub: Option<Address>,
    /// The scan of the router's log, once the head block is known.
    pub scanner: Option<LogWindowScanner>,
}

/// An [`AssetDiscovery`] with the collected entries as a sequence.
pub struct AssetDiscoveryModel {
    pub router: Address,
    pub signature: Bytes32,
    pub window_size: u64,
    pub native_token_vault: Option<Address>,
    pub bridgehub: Option<Address>,
    pub scanner: Option<ScannerModel>,
}

impl View for AssetDiscovery {
    type V = AssetDiscoveryModel;

    open spec fn view(&self) -> AssetDiscoveryModel {
        AssetDiscoveryModel {
            router: self.router,
            signature: self.signature,
            window_size: self.window_size,
            native_token_vault: self.native_token_vault,
            bridgehub: self.bridgehub,
            scanner: match self.scanner {
                Some(scanner) => Some(scanner@),
                None => None,
            },
        }
    }
}

/// What the entries name, each read as the registration of an asset
/// handler.
pub open spec fn registrations_in(entries: Seq<LogEntry>) -> Seq<(Bytes32, Address)> {
    entries.map_values(|entry: LogEntry| entry.registered_handler()->0)
}

/// Every one of the entries reads as the registration of an asset handler.
pub open spec fn all_registrations(entries: Seq<LogEntry>) -> bool {
    forall|i: int| 0 <= i < entries.len() ==> (#[trigger] entries[i]).registered_handler() is Some
}

impl AssetDiscoveryModel {
    /// The discovery before its first query.
    pub open spec fn start(router: Address, signature: Bytes32, window_size: u64) -> AssetDiscoveryModel {
        AssetDiscoveryModel {
            router,
            signature,
            window_size,
            native_token_vault: None,
            bridgehub: None,
            scanner: None,
        }
    }

    /// The windows hold at least one block, and the scan is that of the
    /// router's log for registrations.
    pub open spec fn wf(self) -> bool {
        &&& self.window_size > 0
        &&& self.scanner matches Some(scanner) ==> {
            &&& scanner.window_size == self.window_size
            &&& scanner.address == self.router
            &&& scanner.signature == self.signature
            &&& self.native_token_vault is Some
            &&& self.bridgehub is Some
        }
    }

    /// The query that the discovery waits for, if any.
    pub open spec fn pending(self) -> Option<Query> {
        if self.native_token_vault is None {
            Some(Query::NativeTokenVault { router: self.router })
        } else if self.bridgehub is None {
            Some(Query::BridgeHub { router: self.router })
        } else {
            match self.scanner {
                None => Some(Query::BlockNumber),
                Some(scanner) => scanner.pending(),
            }
        }
    }

    /// The discovery after `reply` has come in for the pending query, or the
    /// error that ends it: the vault, then the hub, then the head block,
    /// which starts the scan, then the pages of the log.
    pub open spec fn step(self, reply: Reply) -> Result<AssetDiscoveryModel, InspectError> {
        if self.native_token_vault is None {
            match reply {
                Reply::Address(vault) => Ok(
                    AssetDiscoveryModel { native_token_vault: Some(vault), ..self },
                ),
                _ => Err(InspectError::Transport),
            }
        } else if self.bridgehub is None {
            match reply {
                Reply::Address(hub) => Ok(AssetDiscoveryModel { bridgehub: Some(hub), ..self }),
                _ => Err(InspectError::Transport),
            }
        } else {
            match self.scanner {
                None => match reply {
                    Reply::BlockNumber(head) => Ok(
                        AssetDiscoveryModel {
                            scanner: Some(
                                ScannerModel::start(
                                    self.router,
                                    self.signature,
                                    head,
                                    self.window_size,
                                ),
                            ),
                            ..self
                        },
                    ),
                    _ => Err(InspectError::Transport),
                },
                Some(scanner) => match scanner.step(reply) {
                    Ok(next) => Ok(AssetDiscoveryModel { scanner: Some(next), ..self }),
                    Err(e) => Err(e),
                },
            }
        }
    }

    /// What the discovery has found: nothing before its scan is over, and
    /// nothing where a collected entry does not read as a registration.
    pub open spec fn outcome(self) -> Result<DiscoveredModel, InspectError> {
        match (self.native_token_vault, self.bridgehub, self.scanner) {
            (Some(native_token_vault), Some(bridgehub), Some(scanner)) => if scanner.cursor
                != ScanCursor::Done {
                Err(InspectError::Precondition)
            } else if all_registrations(scanner.matches) {
                Ok(
                    DiscoveredModel {
                        native_token_vault,
                        bridgehub,
                        registrations: registrations_in(scanner.matches),
                    },
                )
            } else {
                Err(InspectError::Shape)
            },
            _ => Err(InspectError::Precondition),
        }
    }

    /// A bound on the number of queries that the discovery may still make.
    pub open spec fn remaining(self) -> nat {
        if self.native_token_vault is None {
            u64::MAX as nat + 5
        } else if self.bridgehub is None {
            u64::MAX as nat + 4
        } else {
            match self.scanner {
                None => u64::MAX as nat + 3,
                Some(scanner) => scanner.cursor.distance(),
            }
        }
    }

    /// The outcome of putting every pending query to `chain` until none is
    /// left or one fails.
    pub open spec fn run(self, chain: spec_fn(Query) -> Reply) -> Result<
        DiscoveredModel,
        InspectError,
    >
        decreases self.remaining(),
        when self.wf()
    {
        match self.pending() {
            None => self.outcome(),
            Some(query) => match self.step(chain(query)) {
                Ok(next) => next.run(chain),
                Err(e) => Err(e),
            },
        }
    }
}

/// What is found at the router at `router`, read off the answers of a chain
/// that serves `log` as the router's log: the vault and the hub that the
/// router names, and the registrations among the entries with the signature
/// in the blocks up to the head, as a scan in windows of `window_size`
/// collects them.
pub open spec fn assets_on(
    chain: spec_fn(Query) -> Reply,
    router: Address,
    signature: Bytes32,
    window_size: u64,
    log: Seq<LogEntry>,
) -> Result<DiscoveredModel, InspectError> {
    match (
        chain(Query::NativeTokenVault { router }),
        chain(Query::BridgeHub { router }),
        chain(Query::BlockNumber),
    ) {
        (Reply::Address(native_token_vault), Reply::Address(bridgehub), Reply::BlockNumber(head)) => {
            let entries = crate::scanner::collected(
                log,
                signature,
                ScanCursor::Scanning(head),
                window_size,
            );
            if all_registrations(entries) {
                Ok(
                    DiscoveredModel {
                        native_token_vault,
                        bridgehub,
                        registrations: registrations_in(entries),
                    },
                )
            } else {
                Err(InspectError::Shape)
            }
        },
        _ => Err(InspectError::Transport),
    }
}

/// Once the scan has begun, the discovery runs as its scan does and then
/// reads the registrations out of what the scan has collected.
pub proof fn lemma_discovery_runs_as_scanner(
    discovery: AssetDiscoveryModel,
    chain: spec_fn(Query) -> Reply,
)
    requires
        discovery.wf(),
        discovery.scanner is Some,
    ensures
        discovery.run(chain) == (match discovery.scanner->0.run(chain) {
            Ok(entries) => if all_registrations(entries) {
                Ok(
                    DiscoveredModel {
                        native_token_vault: discovery.native_token_vault->0,
                        bridgehub: discovery.bridgehub->0,
                        registrations: registrations_in(entries),
                    },
                )
            } else {
                Err(InspectError::Shape)
            },
            Err(e) => Err(e),
        }),
    decreases discovery.remaining(),
{
    let scanner = discovery.scanner->0;
    if let Some(query) = scanner.pending() {
        if let Ok(next) = scanner.step(chain(query)) {
            lemma_discovery_runs_as_scanner(
                AssetDiscoveryModel { scanner: Some(next), ..discovery },
                chain,
            );
        }
    }
}

/// A discovery put to a chain that serves `log` from its start finds
/// exactly what the chain reports.
pub proof fn lemma_run_finds_assets(
    chain: spec_fn(Query) -> Reply,
    router: Address,
    signature: Bytes32,
    window_size: u64,
    log: Seq<LogEntry>,
)
    requires
        window_size > 0,
        crate::scanner::serves_log(chain, router, log),
    ensures
        AssetDiscoveryModel::start(router, signature, window_size).run(chain) == assets_on(
            chain,
            router,
            signature,
            window_size,
            log,
        ),
{
    let fresh = AssetDiscoveryModel::start(router, signature, window_size);
    assert(fresh.wf());
    assert(fresh.pending() == Some(Query::NativeTokenVault { router }));
    match chain(Query::NativeTokenVault { router }) {
        Reply::Address(vault) => {
            let with_vault = AssetDiscoveryModel { native_token_vault: Some(vault), ..fresh };
            assert(with_vault.wf());
            assert(fresh.run(chain) == with_vault.run(chain));
            assert(with_vault.pending() == Some(Query::BridgeHub { router }));
            match chain(Query::BridgeHub { router }) {
                Reply::Address(hub) => {
                    let with_hub = AssetDiscoveryModel { bridgehub: Some(hub), ..with_vault };
                    assert(with_hub.wf());
                    assert(with_vault.run(chain) == with_hub.run(chain));
                    assert(with_hub.pending() == Some(Query::BlockNumber));
                    match chain(Query::BlockNumber) {
                        Reply::BlockNumber(head) => {
                            let scanner = ScannerModel::start(
                                router,
                                signature,
                                head,
                                window_size,
                            );
                            let scanning = AssetDiscoveryModel {
                                scanner: Some(scanner),
                                ..with_hub
                            };
                            assert(scanning.wf());
                            assert(with_hub.run(chain) == scanning.run(chain));
                            lemma_discovery_runs_as_scanner(scanning, chain);
                            crate::scanner::lemma_run_collects(scanner, chain, log);
                            assert(Seq::<LogEntry>::empty() + crate::scanner::collected(
                                log,
                                signature,
                                ScanCursor::Scanning(head),
                                window_size,
                            ) =~= crate::scanner::collected(
                                log,
                                signature,
                                ScanCursor::Scanning(head),
                                window_size,
                            ));
                        },
                        _ => {
                            assert(with_hub.run(chain) == Err::<DiscoveredModel, InspectError>(
                                InspectError::Transport,
                            ));
                        },
                    }
                },
                _ => {
                    assert(with_vault.run(chain) == Err::<DiscoveredModel, InspectError>(
                        InspectError::Transport,
                    ));
                },
            }
        },
        _ => {
            assert(fresh.run(chain) == Err::<DiscoveredModel, InspectError>(
                InspectError::Transport,
            ));
        },
    }
}

impl AssetDiscovery {
    /// The windows hold at least one block, and the scan is that of the
    /// router's log for registrations.
    pub open spec fn wf(&self) -> bool {
        self@.wf()
    }

    /// A discovery of the assets registered with the router at `router`, in
    /// windows of `window_size` blocks.
    pub fn new(router: Address, window_size: u64) -> (discovery: AssetDiscovery)
        requires
            window_size > 0,
        ensures
            discovery.wf(),
            discovery@ == AssetDiscoveryModel::start(router, discovery.signature, window_size),
            discovery.signature@ == crate::events::keccak256_digest(
                crate::events::asset_handler_registered_signature(),
            ),
    {
        AssetDiscovery {
            router,
            signature: asset_handler_registered_topic(),
            window_size,
            native_token_vault: None,
            bridgehub: None,
            scanner: None,
        }
    }

    /// The query to perform next; `None` once the log has been scanned.
    pub fn next_query(&self) -> (query: Option<Query>)
        requires
            self.wf(),
        ensures
            query == self@.pending(),
    {
        if self.native_token_vault.is_none() {
            Some(Query::NativeTokenVault { router: self.router })
        } else if self.bridgehub.is_none() {
            Some(Query::BridgeHub { router: self.router })
        } else {
            match &self.scanner {
                None => Some(Query::BlockNumber),
                Some(scanner) => scanner.next_query(),
            }
        }
    }

    /// Takes the reply to the pending query. A reply of another shape than
    /// asked for is a failed query, and a reply when nothing is pending a
    /// misuse. On an error the discovery is left as it was.
    pub fn on_reply(&mut self, reply: Reply) -> (outcome: Result<(), InspectError>)
        requires
            old(self).wf(),
        ensures
            final(self).wf(),
            match old(self)@.step(reply) {
                Ok(next) => outcome is Ok && final(self)@ == next,
                Err(e) => outcome == Err::<(), InspectError>(e) && final(self)@ == old(self)@,
            },
    {
        if self.native_token_vault.is_none() {
            let vault = reply.into_address()?;
            self.native_token_vault = Some(vault);
            Ok(())
        } else if self.bridgehub.is_none() {
            let hub = reply.into_address()?;
            self.bridgehub = Some(hub);
            Ok(())
        } else {
            match self.scanner.take() {
                None => {
                    match reply {
                        Reply::BlockNumber(head) => {
                            self.scanner = Some(
                                LogWindowScanner::new(
                                    self.router,
                                    self.signature,
                                    head,
                                    self.window_size,
                                ),
                            );
                            Ok(())
                        },
                        _ => Err(InspectError::Transport),
                    }
                },
                Some(mut scanner) => {
                    let outcome = scanner.on_reply(reply);
                    self.scanner = Some(scanner);
                    outcome
                },
            }
        }
    }

    /// What was found, once the log has been scanned: the vault, the hub,
    /// and the registrations in the order in which the scan collected them.
    /// An entry that does not read as a registration is refused.
    pub fn finish(self) -> (found: Result<DiscoveredAssets, InspectError>)
        ensures
            match self@.outcome() {
                Ok(expected) => found matches Ok(assets) && assets@ == expected,
                Err(e) => found matches Err(refused) && refused == e,
            },
    {
        let ghost model = self@;
        let scanner = match self.scanner {
            Some(scanner) => scanner,
            None => {
                return Err(InspectError::Precondition);
            },
        };
        let (native_token_vault, bridgehub) = match (self.native_token_vault, self.bridgehub) {
            (Some(vault), Some(hub)) => (vault, hub),
            _ => {
                return Err(InspectError::Precondition);
            },
        };
        let ghost collected = scanner.matches@;
        let entries = match scanner.finish() {
            Some(entries) => entries,
            None => {
                return Err(InspectError::Precondition);
            },
        };
        let mut registrations: Vec<(Bytes32, Address)> = Vec::new();
        let mut i: usize = 0;
        while i < entries.len()
            invariant
                i <= entries.len(),
                entries@ == collected,
                self@ == model,
                model.scanner matches Some(whole) && whole.cursor == ScanCursor::Done
                    && whole.matches == collected,
                model.native_token_vault == Some(native_token_vault),
                model.bridgehub == Some(bridgehub),
                all_registrations(collected.take(i as int)),
                registrations@ == registrations_in(collected.take(i as int)),
            decreases entries.len() - i,
        {
            let ghost seen = collected.take(i as int);
            let ghost more = collected.take(i + 1);
            match entries[i].asset_registration() {
                Ok(pair) => {
                    registrations.push(pair);
                    proof {
                        assert(more == seen.push(collected[i as int]));
                        assert(all_registrations(more)) by {
                            assert forall|j: int| 0 <= j < more.len() implies (
                            #[trigger] more[j]).registered_handler() is Some by {
                                if j < i {
                                    assert(more[j] == seen[j]);
                                }
                            }
                        }
                        assert(registrations@ =~= registrations_in(more));
                    }
                },
                Err(e) => {
                    proof {
                        assert(collected[i as int].registered_handler() is None);
                    }
                    return Err(e);
                },
            }
            i += 1;
        }
        proof {
            assert(collected.take(collected.len() as int) == collected);
        }
        Ok(DiscoveredAssets { native_token_vault, bridgehub, registrations })
    }
}

} // verus!
