//! The progress and version snapshot of one transition contract.

use vstd::prelude::*;
use colored::Colorize;
use crate::error::InspectError;
use crate::primitives::{Address, Bytes32, Uint256};
use crate::query::{Query, Reply, SnapshotField};

verus! {

/// What a transition contract reports about itself. The values are taken as
/// the chain gives them: the three counters are not held against each other.
#[derive(Clone, Copy, Debug, PartialEq, Eq)]
pub struct StateTransition {
    pub verifier: Address,
    pub total_batches_executed: Uint256,
    pub total_batches_verified: Uint256,
    pub total_batches_committed: Uint256,
    pub bootloader_hash: Bytes32,
    pub default_account_hash: Bytes32,
    pub protocol_version: (u32, u32, u32),
    pub system_upgrade_tx_hash: Bytes32,
    pub admin: Address,
    pub chain_id: Uint256,
    pub settlement_layer: Address,
}

impl SnapshotField {
    /// The view that is read after this one; `None` after the last.
    pub open spec fn following(self) -> Option<SnapshotField> {
        match self {
            SnapshotField::Verifier => Some(SnapshotField::TotalBatchesCommitted),
            SnapshotField::TotalBatchesCommitted => Some(SnapshotField::TotalBatchesVerified),
            SnapshotField::TotalBatchesVerified => Some(SnapshotField::TotalBatchesExecuted),
            SnapshotField::TotalBatchesExecuted => Some(SnapshotField::SemverProtocolVersion),
            SnapshotField::SemverProtocolVersion => Some(SnapshotField::Admin),
            SnapshotField::Admin => Some(SnapshotField::L2BootloaderBytecodeHash),
            SnapshotField::L2BootloaderBytecodeHash => Some(
                SnapshotField::L2DefaultAccountBytecodeHash,
            ),
            SnapshotField::L2DefaultAccountBytecodeHash => Some(
                SnapshotField::L2SystemContractsUpgradeTxHash,
            ),
            SnapshotField::L2SystemContractsUpgradeTxHash => Some(SnapshotField::ChainId),
            SnapshotField::ChainId => Some(SnapshotField::SettlementLayer),
            SnapshotField::SettlementLayer => None,
        }
    }

    /// The number of views read from this one on, itself included.
    pub open spec fn remaining(self) -> nat {
        match self {
            SnapshotField::Verifier => 11,
            SnapshotField::TotalBatchesCommitted => 10,
            SnapshotField::TotalBatchesVerified => 9,
            SnapshotField::TotalBatchesExecuted => 8,
            SnapshotField::SemverProtocolVersion => 7,
            SnapshotField::Admin => 6,
            SnapshotField::L2BootloaderBytecodeHash => 5,
            SnapshotField::L2DefaultAccountBytecodeHash => 4,
            SnapshotField::L2SystemContractsUpgradeTxHash => 3,
            SnapshotField::ChainId => 2,
            SnapshotField::SettlementLayer => 1,
        }
    }

    /// The view that is read after this one.
    pub fn next(self) -> (next: Option<SnapshotField>)
        ensures
            next == self.following(),
    {
        match self {
            SnapshotField::Verifier => Some(SnapshotField::TotalBatchesCommitted),
            SnapshotField::TotalBatchesCommitted => Some(SnapshotField::TotalBatchesVerified),
            SnapshotField::TotalBatchesVerified => Some(SnapshotField::TotalBatchesExecuted),
            SnapshotField::TotalBatchesExecuted => Some(SnapshotField::SemverProtocolVersion),
            SnapshotField::SemverProtocolVersion => Some(SnapshotField::Admin),
            SnapshotField::Admin => Some(SnapshotField::L2BootloaderBytecodeHash),
            SnapshotField::L2BootloaderBytecodeHash => Some(
                SnapshotField::L2DefaultAccountBytecodeHash,
            ),
            SnapshotField::L2DefaultAccountBytecodeHash => Some(
                SnapshotField::L2SystemContractsUpgradeTxHash,
            ),
            SnapshotField::L2SystemContractsUpgradeTxHash => Some(SnapshotField::ChainId),
            SnapshotField::ChainId => Some(SnapshotField::SettlementLayer),
            SnapshotField::SettlementLayer => None,
        }
    }
}

impl StateTransition {
    /// The snapshot before any view is read.
    pub open spec fn unread() -> StateTransition {
        StateTransition {
            verifier: Address { hi: 0, lo: 0 },
            total_batches_executed: Bytes32 { hi: 0, lo: 0 },
            total_batches_verified: Bytes32 { hi: 0, lo: 0 },
            total_batches_committed: Bytes32 { hi: 0, lo: 0 },
            bootloader_hash: Bytes32 { hi: 0, lo: 0 },
            default_account_hash: Bytes32 { hi: 0, lo: 0 },
            protocol_version: (0u32, 0u32, 0u32),
            system_upgrade_tx_hash: Bytes32 { hi: 0, lo: 0 },
            admin: Address { hi: 0, lo: 0 },
            chain_id: Bytes32 { hi: 0, lo: 0 },
            settlement_layer: Address { hi: 0, lo: 0 },
        }
    }

    /// The snapshot with the value of one view taken from `reply`; `None`
    /// where the reply does not hold a value of the view's type.
    pub open spec fn with_field(self, field: SnapshotField, reply: Reply) -> Option<
        StateTransition,
    > {
        match (field, reply) {
            (SnapshotField::Verifier, Reply::Address(a)) => Some(
                StateTransition { verifier: a, ..self },
            ),
            (SnapshotField::Admin, Reply::Address(a)) => Some(
                StateTransition { admin: a, ..self },
            ),
            (SnapshotField::SettlementLayer, Reply::Address(a)) => Some(
                StateTransition { settlement_layer: a, ..self },
            ),
            (SnapshotField::TotalBatchesCommitted, Reply::Word(w)) => Some(
                StateTransition { total_batches_committed: w, ..self },
            ),
            (SnapshotField::TotalBatchesVerified, Reply::Word(w)) => Some(
                StateTransition { total_batches_verified: w, ..self },
            ),
            (SnapshotField::TotalBatchesExecuted, Reply::Word(w)) => Some(
                StateTransition { total_batches_executed: w, ..self },
            ),
            (SnapshotField::L2BootloaderBytecodeHash, Reply::Word(w)) => Some(
                StateTransition { bootloader_hash: w, ..self },
            ),
            (SnapshotField::L2DefaultAccountBytecodeHash, Reply::Word(w)) => Some(
                StateTransition { default_account_hash: w, ..self },
            ),
            (SnapshotField::L2SystemContractsUpgradeTxHash, Reply::Word(w)) => Some(
                StateTransition { system_upgrade_tx_hash: w, ..self },
            ),
            (SnapshotField::ChainId, Reply::Word(w)) => Some(
                StateTransition { chain_id: w, ..self },
            ),
            (SnapshotField::SemverProtocolVersion, Reply::Version(major, minor, patch)) => Some(
                StateTransition { protocol_version: (major, minor, patch), ..self },
            ),
            _ => None,
        }
    }

    /// A reader for the snapshot of the transition contract at `hyperchain`.
    pub fn new(hyperchain: Address) -> (reader: StateTransitionReader)
        ensures
            reader == StateTransitionReader::start(hyperchain),
    {
        StateTransitionReader {
            contract: hyperchain,
            next: Some(SnapshotField::Verifier),
            snapshot: StateTransition {
                verifier: Address::zero(),
                total_batches_executed: Bytes32::zero(),
                total_batches_verified: Bytes32::zero(),
                total_batches_committed: Bytes32::zero(),
                bootloader_hash: Bytes32::zero(),
                default_account_hash: Bytes32::zero(),
                protocol_version: (0, 0, 0),
                system_upgrade_tx_hash: Bytes32::zero(),
                admin: Address::zero(),
                chain_id: Bytes32::zero(),
                settlement_layer: Address::zero(),
            },
        }
    }
}

/// Reads the views of one transition contract, one after the other, into a
/// snapshot. A view that cannot be read ends the reading.
#[derive(Clone, Copy, Debug, PartialEq, Eq)]
pub struct StateTransitionReader {
    pub contract: Address,
    /// The view to read next; `None` once all are read.
    pub next: Option<SnapshotField>,
    /// What has been read so far; the rest is zero.
    pub snapshot: StateTransition,
}

impl StateTransitionReader {
    /// The reader before its first query.
    pub open spec fn start(contract: Address) -> StateTransitionReader {
        StateTransitionReader {
            contract,
            next: Some(SnapshotField::Verifier),
            snapshot: StateTransition::unread(),
        }
    }

    /// The query that the reader waits for, if any.
    pub open spec fn pending(self) -> Option<Query> {
        match self.next {
            Some(field) => Some(Query::Snapshot { contract: self.contract, field }),
            None => None,
        }
    }

    /// The reader after `reply` has come in for the pending query, or the
    /// error that ends the reading.
    pub open spec fn step(self, reply: Reply) -> Result<StateTransitionReader, InspectError> {
        match self.next {
            None => Err(InspectError::Precondition),
            Some(field) => match self.snapshot.with_field(field, reply) {
                Some(snapshot) => Ok(
                    StateTransitionReader { next: field.following(), snapshot, ..self },
                ),
                None => Err(InspectError::Transport),
            },
        }
    }

    /// The number of views still to read.
    pub open spec fn remaining(self) -> nat {
        match self.next {
            Some(field) => field.remaining(),
            None => 0,
        }
    }

    /// The outcome of putting every pending query to `chain` until none is
    /// left or one fails.
    pub open spec fn run(self, chain: spec_fn(Query) -> Reply) -> Result<
        StateTransition,
        InspectError,
    >
        decreases self.remaining(),
    {
        match self.pending() {
            None => Ok(self.snapshot),
            Some(query) => match self.step(chain(query)) {
                Ok(next) => next.run(chain),
                Err(e) => Err(e),
            },
        }
    }

    /// The query to perform next; `None` once every view is read.
    pub fn next_query(&self) -> (query: Option<Query>)
        ensures
            query == self.pending(),
    {
        match self.next {
            Some(field) => Some(Query::Snapshot { contract: self.contract, field }),
            None => None,
        }
    }

    /// Takes the reply to the pending query. On an error the reader is left
    /// as it was.
    pub fn on_reply(&mut self, reply: Reply) -> (outcome: Result<(), InspectError>)
        ensures
            match old(self).step(reply) {
                Ok(next) => outcome is Ok && *final(self) == next,
                Err(e) => outcome == Err::<(), InspectError>(e) && *final(self) == *old(self),
            },
    {
        let field = match self.next {
            Some(field) => field,
            None => {
                return Err(InspectError::Precondition);
            },
        };
        match (field, reply) {
            (SnapshotField::Verifier, Reply::Address(a)) => {
                self.snapshot.verifier = a;
            },
            (SnapshotField::Admin, Reply::Address(a)) => {
                self.snapshot.admin = a;
            },
            (SnapshotField::SettlementLayer, Reply::Address(a)) => {
                self.snapshot.settlement_layer = a;
            },
            (SnapshotField::TotalBatchesCommitted, Reply::Word(w)) => {
                self.snapshot.total_batches_committed = w;
            },
            (SnapshotField::TotalBatchesVerified, Reply::Word(w)) => {
                self.snapshot.total_batches_verified = w;
            },
            (SnapshotField::TotalBatchesExecuted, Reply::Word(w)) => {
                self.snapshot.total_batches_executed = w;
            },
            (SnapshotField::L2BootloaderBytecodeHash, Reply::Word(w)) => {
                self.snapshot.bootloader_hash = w;
            },
            (SnapshotField::L2DefaultAccountBytecodeHash, Reply::Word(w)) => {
                self.snapshot.default_account_hash = w;
            },
            (SnapshotField::L2SystemContractsUpgradeTxHash, Reply::Word(w)) => {
                self.snapshot.system_upgrade_tx_hash = w;
            },
            (SnapshotField::ChainId, Reply::Word(w)) => {
                self.snapshot.chain_id = w;
            },
            (SnapshotField::SemverProtocolVersion, Reply::Version(major, minor, patch)) => {
                self.snapshot.protocol_version = (major, minor, patch);
            },
            _ => {
                return Err(InspectError::Transport);
            },
        }
        self.next = field.next();
        Ok(())
    }

    /// The snapshot, once every view is read.
    pub fn finish(&self) -> (snapshot: Option<StateTransition>)
        ensures
            snapshot == (if self.next is None {
                Some(self.snapshot)
            } else {
                None
            }),
    {
        match self.next {
            None => Some(self.snapshot),
            Some(_) => None,
        }
    }
}

/// The address that `chain` reports for one view of `contract`, if it
/// reports one.
pub open spec fn address_view(
    chain: spec_fn(Query) -> Reply,
    contract: Address,
    field: SnapshotField,
) -> Option<Address> {
    match chain(Query::Snapshot { contract, field }) {
        Reply::Address(a) => Some(a),
        _ => None,
    }
}

/// The word that `chain` reports for one view of `contract`, if it reports
/// one.
pub open spec fn word_view(
    chain: spec_fn(Query) -> Reply,
    contract: Address,
    field: SnapshotField,
) -> Option<Bytes32> {
    match chain(Query::Snapshot { contract, field }) {
        Reply::Word(w) => Some(w),
        _ => None,
    }
}

/// The snapshot of `contract` read off the answers of `chain`: each field is
/// what `chain` reports for its view, and a view without a value of its type
/// is an error.
pub open spec fn snapshot_of(chain: spec_fn(Query) -> Reply, contract: Address) -> Result<
    StateTransition,
    InspectError,
> {
    let version = chain(
        Query::Snapshot { contract, field: SnapshotField::SemverProtocolVersion },
    );
    if address_view(chain, contract, SnapshotField::Verifier) is Some && address_view(
        chain,
        contract,
        SnapshotField::Admin,
    ) is Some && address_view(chain, contract, SnapshotField::SettlementLayer) is Some
        && word_view(chain, contract, SnapshotField::TotalBatchesCommitted) is Some && word_view(
        chain,
        contract,
        SnapshotField::TotalBatchesVerified,
    ) is Some && word_view(chain, contract, SnapshotField::TotalBatchesExecuted) is Some
        && word_view(chain, contract, SnapshotField::L2BootloaderBytecodeHash) is Some
        && word_view(chain, contract, SnapshotField::L2DefaultAccountBytecodeHash) is Some
        && word_view(chain, contract, SnapshotField::L2SystemContractsUpgradeTxHash) is Some
        && word_view(chain, contract, SnapshotField::ChainId) is Some && version is Version {
        Ok(
            StateTransition {
                verifier: address_view(chain, contract, SnapshotField::Verifier)->0,
                total_batches_executed: word_view(
                    chain,
                    contract,
                    SnapshotField::TotalBatchesExecuted,
                )->0,
                total_batches_verified: word_view(
                    chain,
                    contract,
                    SnapshotField::TotalBatchesVerified,
                )->0,
                total_batches_committed: word_view(
                    chain,
                    contract,
                    SnapshotField::TotalBatchesCommitted,
                )->0,
                bootloader_hash: word_view(
                    chain,
                    contract,
                    SnapshotField::L2BootloaderBytecodeHash,
                )->0,
                default_account_hash: word_view(
                    chain,
                    contract,
                    SnapshotField::L2DefaultAccountBytecodeHash,
                )->0,
                protocol_version: (version->Version_0, version->Version_1, version->Version_2),
                system_upgrade_tx_hash: word_view(
                    chain,
                    contract,
                    SnapshotField::L2SystemContractsUpgradeTxHash,
                )->0,
                admin: address_view(chain, contract, SnapshotField::Admin)->0,
                chain_id: word_view(chain, contract, SnapshotField::ChainId)->0,
                settlement_layer: address_view(chain, contract, SnapshotField::SettlementLayer)->0,
            },
        )
    } else {
        Err(InspectError::Transport)
    }
}

/// A reading put to `chain` from its start yields exactly the snapshot that
/// `chain` reports.
pub proof fn lemma_run_reads_snapshot(chain: spec_fn(Query) -> Reply, contract: Address)
    ensures
        StateTransitionReader::start(contract).run(chain) == snapshot_of(chain, contract),
{
    reveal_with_fuel(StateTransitionReader::run, 13);
}

/// The escape sequence that switches a terminal to red.
pub open spec fn red_on() -> Seq<char> {
    seq!['\x1b', '[', '3', '1', 'm']
}

/// The escape sequence that switches a terminal back.
pub open spec fn colour_off() -> Seq<char> {
    seq!['\x1b', '[', '0', 'm']
}

/// `text` with red switched on again after every sequence in it that
/// switches the colour off.
pub open spec fn red_kept(text: Seq<char>) -> Seq<char>
    decreases text.len(),
{
    if text.len() < 4 {
        text
    } else if text.subrange(0, 4) == colour_off() {
        colour_off() + red_on() + red_kept(text.skip(4))
    } else {
        seq![text[0]] + red_kept(text.skip(1))
    }
}

/// `text` as a terminal shows it in red.
pub open spec fn red_text(text: Seq<char>) -> Seq<char> {
    red_on() + red_kept(text) + colour_off()
}

/// Text without an escape character needs nothing switched on again.
pub proof fn lemma_red_kept_plain(text: Seq<char>)
    requires
        !text.contains('\x1b'),
    ensures
        red_kept(text) == text,
    decreases text.len(),
{
    if text.len() >= 4 {
        assert(text.subrange(0, 4)[0] == text[0]);
        assert(text.contains(text[0]));
        assert forall|c: char| text.skip(1).contains(c) implies text.contains(c) by {
            let i = choose|i: int| 0 <= i < text.skip(1).len() && text.skip(1)[i] == c;
            assert(text[i + 1] == c);
        }
        lemma_red_kept_plain(text.skip(1));
        assert(seq![text[0]] + text.skip(1) =~= text);
    }
}

/// Renders `text` in red with `colored`'s `Colorize::red` and `to_string`.
/// Whether colours are in use depends on the environment, so the result is
/// one of two: the text itself, or the text between the two escape
/// sequences, with red switched on again after every switch-off inside it.
/// This takes it that colours are not switched on or off while one text is
/// rendered.
#[verifier::external_body]
fn paint_red(text: &str) -> (painted: String)
    ensures
        painted@ == text@ || painted@ == red_text(text@),
{
    text.red().to_string()
}

/// Marks a value that differs from its empty form: a value equal to `empty`
/// is returned as it is, any other is rendered in red.
pub fn mark_red_if_not_empty(address: String, empty: String) -> (marked: String)
    ensures
        address@ == empty@ ==> marked@ == address@,
        address@ != empty@ ==> marked@ == address@ || marked@ == red_text(address@),
{
    if address == empty {
        return address;
    }
    paint_red(address.as_str())
}

} // verus!
