//! An asset registered with the asset router, and how it is told apart by
//! the contract that tracks its deployment.

use vstd::prelude::*;
use vstd::string::StringExecFns;
use crate::error::InspectError;
use crate::primitives::{Address, Bytes32};
use crate::query::{Query, Reply};

verus! {

/// An asset that the native token vault backs.
#[derive(Debug, PartialEq, Eq)]
pub struct NativeTokenVaultAsset {
    /// The token's contract.
    pub address: Address,
    /// The token's name, read once when the asset is resolved.
    pub token_name: String,
}

/// Who handles an asset.
#[derive(Debug, PartialEq, Eq)]
pub enum AssetHandler {
    /// The hub itself.
    Bridgehub,
    /// The native token vault.
    NativeTokenVault(NativeTokenVaultAsset),
    /// A deployment tracker that is neither of the two.
    Other(Address),
}

/// An asset with its handler.
#[derive(Debug, PartialEq, Eq)]
pub struct RegisteredAsset {
    pub asset_id: Bytes32,
    pub handler: AssetHandler,
}

/// An [`AssetHandler`] with the token's name as a sequence of characters.
pub enum HandlerModel {
    Bridgehub,
    NativeTokenVault { address: Address, token_name: Seq<char> },
    Other(Address),
}

impl View for AssetHandler {
    type V = HandlerModel;

    open spec fn view(&self) -> HandlerModel {
        match *self {
            AssetHandler::Bridgehub => HandlerModel::Bridgehub,
            AssetHandler::NativeTokenVault(asset) => HandlerModel::NativeTokenVault {
                address: asset.address,
                token_name: asset.token_name@,
            },
            AssetHandler::Other(tracker) => HandlerModel::Other(tracker),
        }
    }
}

impl Clone for NativeTokenVaultAsset {
    fn clone(&self) -> (copy: NativeTokenVaultAsset)
        ensures
            copy == *self,
    {
        NativeTokenVaultAsset { address: self.address, token_name: self.token_name.clone() }
    }
}

impl Clone for AssetHandler {
    fn clone(&self) -> (copy: AssetHandler)
        ensures
            copy == *self,
    {
        match self {
            AssetHandler::Bridgehub => AssetHandler::Bridgehub,
            AssetHandler::NativeTokenVault(asset) => AssetHandler::NativeTokenVault(asset.clone()),
            AssetHandler::Other(tracker) => AssetHandler::Other(*tracker),
        }
    }
}

impl Clone for RegisteredAsset {
    fn clone(&self) -> (copy: RegisteredAsset)
        ensures
            copy == *self,
    {
        RegisteredAsset { asset_id: self.asset_id, handler: self.handler.clone() }
    }
}

/// The step that an [`AssetResolver`] waits for.
#[derive(Debug, PartialEq, Eq)]
pub enum AssetStage {
    /// The vault is to be asked for the token of the asset.
    TokenAddress,
    /// The token is to be asked for its name.
    TokenName(Address),
    Resolved(AssetHandler),
}

/// An [`AssetStage`] with the token's name as a sequence of characters.
pub enum StageModel {
    TokenAddress,
    TokenName(Address),
    Resolved(HandlerModel),
}

impl View for AssetStage {
    type V = StageModel;

    open spec fn view(&self) -> StageModel {
        match *self {
            AssetStage::TokenAddress => StageModel::TokenAddress,
            AssetStage::TokenName(token) => StageModel::TokenName(token),
            AssetStage::Resolved(handler) => StageModel::Resolved(handler@),
        }
    }
}

/// The name under which the native currency goes.
pub open spec fn native_currency_name() -> Seq<char> {
    seq!['E', 'T', 'H']
}

/// Finds out who handles one asset.
///
/// An asset tracked by the hub or by an unknown contract needs no query. One
/// tracked by the native token vault needs the token's address, and then the
/// token's name, unless the token is the native currency.
#[derive(Debug, PartialEq, Eq)]
pub struct AssetResolver {
    pub asset_id: Bytes32,
    pub vault: Address,
    pub stage: AssetStage,
}

/// An [`AssetResolver`] with the token's name as a sequence of characters.
pub struct ResolverModel {
    pub asset_id: Bytes32,
    pub vault: Address,
    pub stage: StageModel,
}

impl View for AssetResolver {
    type V = ResolverModel;

    open spec fn view(&self) -> ResolverModel {
        ResolverModel { asset_id: self.asset_id, vault: self.vault, stage: self.stage@ }
    }
}

impl ResolverModel {
    /// The resolver for an asset as it is registered: with the contract that
    /// tracks its deployment, held against the vault first and the hub
    /// second.
    pub open spec fn start(
        asset_id: Bytes32,
        deployment_tracker: Address,
        native_token_vault: Address,
        bridgehub: Address,
    ) -> ResolverModel {
        ResolverModel {
            asset_id,
            vault: native_token_vault,
            stage: if deployment_tracker == native_token_vault {
                StageModel::TokenAddress
            } else if deployment_tracker == bridgehub {
                StageModel::Resolved(HandlerModel::Bridgehub)
            } else {
                StageModel::Resolved(HandlerModel::Other(deployment_tracker))
            },
        }
    }

    /// The query that the resolver waits for, if any.
    pub open spec fn pending(self) -> Option<Query> {
        match self.stage {
            StageModel::TokenAddress => Some(
                Query::TokenAddress { vault: self.vault, asset_id: self.asset_id },
            ),
            StageModel::TokenName(token) => Some(Query::TokenName { token }),
            StageModel::Resolved(_) => None,
        }
    }

    /// The resolver after `reply` has come in for the pending query, or the
    /// error that ends the resolution.
    pub open spec fn step(self, reply: Reply) -> Result<ResolverModel, InspectError> {
        match (self.stage, reply) {
            (StageModel::Resolved(_), _) => Err(InspectError::Precondition),
            (StageModel::TokenAddress, Reply::Address(token)) => Ok(
                ResolverModel {
                    stage: if token == (Address { hi: 0, lo: 1 }) {
                        StageModel::Resolved(
                            HandlerModel::NativeTokenVault {
                                address: token,
                                token_name: native_currency_name(),
                            },
                        )
                    } else {
                        StageModel::TokenName(token)
                    },
                    ..self
                },
            ),
            (StageModel::TokenName(token), Reply::Text(name)) => Ok(
                ResolverModel {
                    stage: StageModel::Resolved(
                        HandlerModel::NativeTokenVault { address: token, token_name: name@ },
                    ),
                    ..self
                },
            ),
            _ => Err(InspectError::Transport),
        }
    }

    /// The number of queries that the resolver may still make.
    pub open spec fn remaining(self) -> nat {
        match self.stage {
            StageModel::TokenAddress => 2,
            StageModel::TokenName(_) => 1,
            StageModel::Resolved(_) => 0,
        }
    }

    /// The outcome of putting every pending query to `chain` until none is
    /// left or one fails.
    pub open spec fn run(self, chain: spec_fn(Query) -> Reply) -> Result<
        HandlerModel,
        InspectError,
    >
        decreases self.remaining(),
    {
        match self.stage {
            StageModel::Resolved(handler) => Ok(handler),
            _ => match self.step(chain(self.pending()->0)) {
                Ok(next) => next.run(chain),
                Err(e) => Err(e),
            },
        }
    }
}

/// The handler of an asset, read off the answers of `chain`. The tracker is
/// held against the vault first and the hub second. A vault asset has the
/// token that the vault names for it, under the token's own name, or under
/// the native currency's name, without asking, where the token is the
/// reserved address `0x…01`.
pub open spec fn classified(
    asset_id: Bytes32,
    deployment_tracker: Address,
    native_token_vault: Address,
    bridgehub: Address,
    chain: spec_fn(Query) -> Reply,
) -> Result<HandlerModel, InspectError> {
    if deployment_tracker == native_token_vault {
        match chain(Query::TokenAddress { vault: native_token_vault, asset_id }) {
            Reply::Address(token) => if token == (Address { hi: 0, lo: 1 }) {
                Ok(
                    HandlerModel::NativeTokenVault {
                        address: token,
                        token_name: native_currency_name(),
                    },
                )
            } else {
                match chain(Query::TokenName { token }) {
                    Reply::Text(name) => Ok(
                        HandlerModel::NativeTokenVault { address: token, token_name: name@ },
                    ),
                    _ => Err(InspectError::Transport),
                }
            },
            _ => Err(InspectError::Transport),
        }
    } else if deployment_tracker == bridgehub {
        Ok(HandlerModel::Bridgehub)
    } else {
        Ok(HandlerModel::Other(deployment_tracker))
    }
}

/// A resolution put to `chain` from its start yields exactly the handler
/// that `chain` reports. It never ends without a handler or an error.
pub proof fn lemma_run_classifies(
    asset_id: Bytes32,
    deployment_tracker: Address,
    native_token_vault: Address,
    bridgehub: Address,
    chain: spec_fn(Query) -> Reply,
)
    ensures
        ResolverModel::start(asset_id, deployment_tracker, native_token_vault, bridgehub).run(
            chain,
        ) == classified(asset_id, deployment_tracker, native_token_vault, bridgehub, chain),
{
    reveal_with_fuel(ResolverModel::run, 4);
}

/// A vault asset whose token is the reserved address of the native currency
/// is resolved by the vault's answer alone: its name is that of the native
/// currency, and no query is pending, so the token is never asked.
pub proof fn lemma_native_currency_shortcut(
    asset_id: Bytes32,
    native_token_vault: Address,
    bridgehub: Address,
)
    ensures
        ({
            let resolver = ResolverModel::start(
                asset_id,
                native_token_vault,
                native_token_vault,
                bridgehub,
            );
            &&& resolver.pending() == Some(
                Query::TokenAddress { vault: native_token_vault, asset_id },
            )
            &&& resolver.step(Reply::Address(Address { hi: 0, lo: 1 })) matches Ok(next)
            &&& next.pending() is None
            &&& next.stage == StageModel::Resolved(
                HandlerModel::NativeTokenVault {
                    address: Address { hi: 0, lo: 1 },
                    token_name: native_currency_name(),
                },
            )
        }),
{
}

impl RegisteredAsset {
    /// A resolver for the asset `asset_id`, whose deployment is tracked by
    /// `deployment_tracker`.
    pub fn new(
        asset_id: Bytes32,
        deployment_tracker: Address,
        native_token_vault: &Address,
        bridgehub: &Address,
    ) -> (resolver: AssetResolver)
        ensures
            resolver@ == ResolverModel::start(
                asset_id,
                deployment_tracker,
                *native_token_vault,
                *bridgehub,
            ),
    {
        let stage = if deployment_tracker == *native_token_vault {
            AssetStage::TokenAddress
        } else if deployment_tracker == *bridgehub {
            AssetStage::Resolved(AssetHandler::Bridgehub)
        } else {
            AssetStage::Resolved(AssetHandler::Other(deployment_tracker))
        };
        AssetResolver { asset_id, vault: *native_token_vault, stage }
    }
}

impl AssetResolver {
    /// The query to perform next; `None` once the handler is known.
    pub fn next_query(&self) -> (query: Option<Query>)
        ensures
            query == self@.pending(),
    {
        match &self.stage {
            AssetStage::TokenAddress => Some(
                Query::TokenAddress { vault: self.vault, asset_id: self.asset_id },
            ),
            AssetStage::TokenName(token) => Some(Query::TokenName { token: *token }),
            AssetStage::Resolved(_) => None,
        }
    }

    /// Takes the reply to the pending query. On an error the resolver is
    /// left as it was.
    pub fn on_reply(&mut self, reply: Reply) -> (outcome: Result<(), InspectError>)
        ensures
            match old(self)@.step(reply) {
                Ok(next) => outcome is Ok && final(self)@ == next,
                Err(e) => outcome == Err::<(), InspectError>(e) && final(self)@ == old(self)@,
            },
    {
        let token = match &self.stage {
            AssetStage::Resolved(_) => {
                return Err(InspectError::Precondition);
            },
            AssetStage::TokenAddress => None,
            AssetStage::TokenName(token) => Some(*token),
        };
        match (token, reply) {
            (None, Reply::Address(token)) => {
                if token == Address::native_currency() {
                    let token_name = String::from_str("ETH");
                    proof {
                        reveal_strlit("ETH");
                        assert(token_name@ =~= native_currency_name());
                    }
                    self.stage = AssetStage::Resolved(
                        AssetHandler::NativeTokenVault(
                            NativeTokenVaultAsset { address: token, token_name },
                        ),
                    );
                } else {
                    self.stage = AssetStage::TokenName(token);
                }
                Ok(())
            },
            (Some(token), Reply::Text(token_name)) => {
                self.stage = AssetStage::Resolved(
                    AssetHandler::NativeTokenVault(
                        NativeTokenVaultAsset { address: token, token_name },
                    ),
                );
                Ok(())
            },
            _ => Err(InspectError::Transport),
        }
    }

    /// The asset with its handler, once that is known.
    pub fn finish(self) -> (asset: Option<RegisteredAsset>)
        ensures
            match self.stage {
                AssetStage::Resolved(handler) => asset == Some(
                    RegisteredAsset { asset_id: self.asset_id, handler },
                ),
                _ => asset is None,
            },
    {
        match self.stage {
            AssetStage::Resolved(handler) => Some(
                RegisteredAsset { asset_id: self.asset_id, handler },
            ),
            _ => None,
        }
    }
}

/// The name of an asset id: that of the first entry of `well_known` with
/// this id or, where there is none, the id written out.
pub open spec fn human_name(asset_id: Bytes32, well_known: Seq<(Bytes32, String)>) -> Seq<char>
    decreases well_known.len(),
{
    if well_known.len() == 0 {
        asset_id.hex()
    } else if well_known[0].0 == asset_id {
        well_known[0].1@
    } else {
        human_name(asset_id, well_known.skip(1))
    }
}

/// The name under which an asset id is shown, looked up among the
/// well-known ids.
pub fn get_human_name_for(asset_id: Bytes32, well_known: &Vec<(Bytes32, String)>) -> (name: String)
    ensures
        name@ == human_name(asset_id, well_known@),
{
    let mut i: usize = 0;
    proof {
        assert(well_known@.skip(0) == well_known@);
    }
    while i < well_known.len()
        invariant
            i <= well_known.len(),
            human_name(asset_id, well_known@) == human_name(asset_id, well_known@.skip(i as int)),
        decreases well_known.len() - i,
    {
        proof {
            let rest = well_known@.skip(i as int);
            assert(rest[0] == well_known@[i as int]);
            assert(rest.skip(1) == well_known@.skip(i + 1));
        }
        if well_known[i].0 == asset_id {
            return well_known[i].1.clone();
        }
        i += 1;
    }
    asset_id.to_hex()
}

impl RegisteredAsset {
    /// The asset's name: for a vault asset the token's name, a hyphen and
    /// the name of the asset id, for any other the name of the asset id.
    pub open spec fn display_name(&self, well_known: Seq<(Bytes32, String)>) -> Seq<char> {
        match self.handler {
            AssetHandler::NativeTokenVault(asset) => asset.token_name@ + seq!['-'] + human_name(
                self.asset_id,
                well_known,
            ),
            _ => human_name(self.asset_id, well_known),
        }
    }

    /// The name under which the asset is shown.
    pub fn name(&self, well_known: &Vec<(Bytes32, String)>) -> (name: String)
        ensures
            name@ == self.display_name(well_known@),
    {
        let id_name = get_human_name_for(self.asset_id, well_known);
        match &self.handler {
            AssetHandler::NativeTokenVault(asset) => {
                let mut name = asset.token_name.clone();
                proof {
                    reveal_strlit("-");
                    assert("-"@ =~= seq!['-']);
                }
                name.append("-");
                name.append(id_name.as_str());
                name
            },
            _ => id_name,
        }
    }
}

} // verus!
