//! Paging backward through a contract's event log in windows of blocks.
//!
//! A scan starts at the head block and works down to block 0. Each window is
//! one query; the windows are disjoint and together hold every block from 0
//! to the head.

use vstd::prelude::*;
use crate::error::InspectError;
use crate::primitives::{Address, Bytes32};
use crate::query::{LogEntry, Query, Reply};

verus! {

/// The window size that discovery uses, in blocks.
pub const DEFAULT_WINDOW: u64 = 10_000;

/// A range of blocks, both ends included.
#[derive(Clone, Copy, Debug, PartialEq, Eq, Structural)]
pub struct BlockWindow {
    pub from_block: u64,
    pub to_block: u64,
}

impl BlockWindow {
    /// The window holds `block`.
    pub open spec fn holds(self, block: int) -> bool {
        self.from_block <= block <= self.to_block
    }
}

/// Where a scan stands: at the upper block of its next window, or at its end.
#[derive(Clone, Copy, Debug, PartialEq, Eq, Structural)]
pub enum ScanCursor {
    Scanning(u64),
    Done,
}

impl ScanCursor {
    /// The window to query at this cursor. Above block 0 it reaches `size`
    /// blocks down from the cursor but stops short of block 0, which gets a
    /// last window of its own.
    pub open spec fn window(self, size: u64) -> Option<BlockWindow> {
        match self {
            ScanCursor::Done => None,
            ScanCursor::Scanning(cursor) => Some(
                if cursor == 0 {
                    BlockWindow { from_block: 0, to_block: 0 }
                } else if cursor >= size {
                    BlockWindow { from_block: (cursor - size + 1) as u64, to_block: cursor }
                } else {
                    BlockWindow { from_block: 1, to_block: cursor }
                },
            ),
        }
    }

    /// The cursor after its window has been queried.
    pub open spec fn after_window(self, size: u64) -> ScanCursor {
        match self {
            ScanCursor::Done => ScanCursor::Done,
            ScanCursor::Scanning(cursor) => if cursor == 0 {
                ScanCursor::Done
            } else if cursor >= size {
                ScanCursor::Scanning((cursor - size) as u64)
            } else {
                ScanCursor::Scanning(0)
            },
        }
    }

    /// A bound on the number of windows still to query.
    pub open spec fn distance(self) -> nat {
        match self {
            ScanCursor::Done => 0,
            ScanCursor::Scanning(cursor) => cursor as nat + 1,
        }
    }

    /// The number of windows, from this cursor to the end of the scan, that
    /// hold `block`.
    pub open spec fn visits(self, size: u64, block: int) -> nat
        decreases self.distance(),
        when size > 0
    {
        match self.window(size) {
            None => 0,
            Some(window) => (if window.holds(block) {
                1nat
            } else {
                0nat
            }) + self.after_window(size).visits(size, block),
        }
    }

    /// The window to query at this cursor.
    pub fn current_window(&self, size: u64) -> (window: Option<BlockWindow>)
        requires
            size > 0,
        ensures
            window == self.window(size),
    {
        match *self {
            ScanCursor::Done => None,
            ScanCursor::Scanning(cursor) => {
                if cursor == 0 {
                    Some(BlockWindow { from_block: 0, to_block: 0 })
                } else {
                    let below: u64 = cursor.saturating_sub(size);
                    Some(BlockWindow { from_block: below + 1, to_block: cursor })
                }
            },
        }
    }

    /// The cursor after its window has been queried.
    pub fn advance(&self, size: u64) -> (next: ScanCursor)
        requires
            size > 0,
        ensures
            next == self.after_window(size),
            *self != ScanCursor::Done ==> next.distance() < self.distance(),
    {
        match *self {
            ScanCursor::Done => ScanCursor::Done,
            ScanCursor::Scanning(cursor) => {
                if cursor == 0 {
                    ScanCursor::Done
                } else {
                    ScanCursor::Scanning(cursor.saturating_sub(size))
                }
            },
        }
    }
}

/// A scan from `head` with windows of any positive size queries every block
/// from 0 to `head` in exactly one window, and no other block.
pub proof fn lemma_windows_partition(head: u64, size: u64, block: int)
    requires
        size > 0,
    ensures
        ScanCursor::Scanning(head).visits(size, block) == (if 0 <= block <= head {
            1nat
        } else {
            0nat
        }),
    decreases head,
{
    if head > 0 {
        let below: u64 = if head >= size {
            (head - size) as u64
        } else {
            0
        };
        lemma_windows_partition(below, size, block);
        assert(ScanCursor::Scanning(head).after_window(size) == ScanCursor::Scanning(below));
    } else {
        assert(ScanCursor::Scanning(0).after_window(size) == ScanCursor::Done);
        assert(ScanCursor::Done.visits(size, block) == 0);
    }
}

/// The entries of `log` that were emitted in the blocks of `window`: what a
/// node answers to a query for that window.
pub open spec fn page(log: Seq<LogEntry>, window: BlockWindow) -> Seq<LogEntry> {
    log.filter(|entry: LogEntry| window.holds(entry.block_number as int))
}

/// The entries among `logs` whose first topic is `signature`, in their order.
pub open spec fn matching(logs: Seq<LogEntry>, signature: Bytes32) -> Seq<LogEntry> {
    logs.filter(|entry: LogEntry| entry.has_signature(signature))
}

/// Collects the entries of one event from a contract's log, window by
/// window.
pub struct LogWindowScanner {
    /// The contract whose log is scanned.
    pub address: Address,
    /// The first topic of the entries to collect.
    pub signature: Bytes32,
    /// The number of blocks in a window; positive.
    pub window_size: u64,
    pub cursor: ScanCursor,
    /// The entries collected so far, in the order in which they came in.
    pub matches: Vec<LogEntry>,
}

/// A [`LogWindowScanner`] with its entries as a sequence.
pub struct ScannerModel {
    pub address: Address,
    pub signature: Bytes32,
    pub window_size: u64,
    pub cursor: ScanCursor,
    pub matches: Seq<LogEntry>,
}

impl View for LogWindowScanner {
    type V = ScannerModel;

    open spec fn view(&self) -> ScannerModel {
        ScannerModel {
            address: self.address,
            signature: self.signature,
            window_size: self.window_size,
            cursor: self.cursor,
            matches: self.matches@,
        }
    }
}

impl ScannerModel {
    /// The scanner before its first query.
    pub open spec fn start(
        address: Address,
        signature: Bytes32,
        head: u64,
        window_size: u64,
    ) -> ScannerModel {
        ScannerModel {
            address,
            signature,
            window_size,
            cursor: ScanCursor::Scanning(head),
            matches: Seq::empty(),
        }
    }

    /// The scanner's windows hold at least one block.
    pub open spec fn wf(self) -> bool {
        self.window_size > 0
    }

    /// The query that the scanner waits for, if any.
    pub open spec fn pending(self) -> Option<Query> {
        match self.cursor.window(self.window_size) {
            Some(window) => Some(
                Query::Logs {
                    address: self.address,
                    from_block: window.from_block,
                    to_block: window.to_block,
                },
            ),
            None => None,
        }
    }

    /// The scanner after `reply` has come in for the pending query, or the
    /// error that ends the scan. A page adds its entries that bear the
    /// signature and moves the scan one window down.
    pub open spec fn step(self, reply: Reply) -> Result<ScannerModel, InspectError> {
        match (self.cursor, reply) {
            (ScanCursor::Done, _) => Err(InspectError::Precondition),
            (ScanCursor::Scanning(_), Reply::Logs(logs)) => Ok(
                ScannerModel {
                    cursor: self.cursor.after_window(self.window_size),
                    matches: self.matches + matching(logs@, self.signature),
                    ..self
                },
            ),
            _ => Err(InspectError::Transport),
        }
    }

    /// The outcome of putting every pending query to `chain` until none is
    /// left or one fails.
    pub open spec fn run(self, chain: spec_fn(Query) -> Reply) -> Result<
        Seq<LogEntry>,
        InspectError,
    >
        decreases self.cursor.distance(),
        when self.window_size > 0
    {
        match self.pending() {
            None => Ok(self.matches),
            Some(query) => match self.step(chain(query)) {
                Ok(next) => next.run(chain),
                Err(e) => Err(e),
            },
        }
    }
}

/// `chain` answers every query for a window of the log of `address` with the
/// page of `log` for that window.
pub open spec fn serves_log(
    chain: spec_fn(Query) -> Reply,
    address: Address,
    log: Seq<LogEntry>,
) -> bool {
    forall|from_block: u64, to_block: u64|
        (#[trigger] chain(Query::Logs { address, from_block, to_block })) matches Reply::Logs(
            entries,
        ) && entries@ == page(log, BlockWindow { from_block, to_block })
}

impl LogWindowScanner {
    /// The scanner's windows hold at least one block.
    pub open spec fn wf(&self) -> bool {
        self@.wf()
    }

    /// A scanner of the log of `address` for entries with the first topic
    /// `signature`, from block `head` down, in windows of `window_size`
    /// blocks.
    pub fn new(address: Address, signature: Bytes32, head: u64, window_size: u64) -> (scanner:
        LogWindowScanner)
        requires
            window_size > 0,
        ensures
            scanner@ == ScannerModel::start(address, signature, head, window_size),
    {
        LogWindowScanner {
            address,
            signature,
            window_size,
            cursor: ScanCursor::Scanning(head),
            matches: Vec::new(),
        }
    }

    /// The query to perform next; `None` once block 0 has been scanned.
    pub fn next_query(&self) -> (query: Option<Query>)
        requires
            self.wf(),
        ensures
            query == self@.pending(),
    {
        match self.cursor.current_window(self.window_size) {
            Some(window) => Some(
                Query::Logs {
                    address: self.address,
                    from_block: window.from_block,
                    to_block: window.to_block,
                },
            ),
            None => None,
        }
    }

    /// Takes the reply to the pending query: keeps the entries of the page
    /// that bear the signature and moves to the next window. A reply without
    /// entries is a failed query, and a reply when nothing is pending a
    /// misuse; either leaves the scanner as it was.
    pub fn on_reply(&mut self, reply: Reply) -> (outcome: Result<(), InspectError>)
        requires
            old(self).wf(),
        ensures
            final(self).wf(),
            match old(self)@.step(reply) {
                Ok(next) => outcome is Ok && final(self)@ == next,
                Err(e) => outcome == Err::<(), InspectError>(e) && final(self)@ == old(self)@,
            },
    {
        if self.cursor == ScanCursor::Done {
            return Err(InspectError::Precondition);
        }
        let logs = match reply {
            Reply::Logs(logs) => logs,
            _ => {
                return Err(InspectError::Transport);
            },
        };
        let ghost before = self.matches@;
        let ghost all = logs@;
        let signature = self.signature;
        for entry in pages: logs
            invariant
                pages.seq() == all,
                self.address == old(self).address,
                self.signature == signature,
                signature == old(self).signature,
                self.window_size == old(self).window_size,
                self.cursor == old(self).cursor,
                self.matches@ == before + matching(all.take(pages.index() as int), signature),
        {
            proof {
                reveal(Seq::filter);
                let i = pages.index() as int;
                assert(all.take(i + 1).drop_last() =~= all.take(i));
                assert(all.take(i + 1).last() == entry);
            }
            if entry.matches_signature(&signature) {
                self.matches.push(entry);
            }
        }
        proof {
            assert(all.take(all.len() as int) =~= all);
        }
        self.cursor = self.cursor.advance(self.window_size);
        Ok(())
    }

    /// The collected entries, once the scan is over.
    pub fn finish(self) -> (matches: Option<Vec<LogEntry>>)
        ensures
            matches is Some <==> self.cursor == ScanCursor::Done,
            matches matches Some(found) ==> found@ == self.matches@,
    {
        match self.cursor {
            ScanCursor::Done => Some(self.matches),
            ScanCursor::Scanning(_) => None,
        }
    }
}

/// The entries that a scan of `log` for `signature` collects from `cursor`
/// on, where each window is answered with its page of `log`.
pub open spec fn collected(
    log: Seq<LogEntry>,
    signature: Bytes32,
    cursor: ScanCursor,
    size: u64,
) -> Seq<LogEntry>
    decreases cursor.distance(),
    when size > 0
{
    match cursor.window(size) {
        None => Seq::empty(),
        Some(window) => matching(page(log, window), signature) + collected(
            log,
            signature,
            cursor.after_window(size),
            size,
        ),
    }
}

/// A scan put to a chain that serves `log` collects, on top of what it has,
/// the entries with the signature from each of its windows in turn.
pub proof fn lemma_run_collects(
    scanner: ScannerModel,
    chain: spec_fn(Query) -> Reply,
    log: Seq<LogEntry>,
)
    requires
        scanner.wf(),
        serves_log(chain, scanner.address, log),
    ensures
        scanner.run(chain) == Ok::<Seq<LogEntry>, InspectError>(
            scanner.matches + collected(
                log,
                scanner.signature,
                scanner.cursor,
                scanner.window_size,
            ),
        ),
    decreases scanner.cursor.distance(),
{
    match scanner.cursor.window(scanner.window_size) {
        None => {
            assert(scanner.matches + Seq::<LogEntry>::empty() =~= scanner.matches);
        },
        Some(window) => {
            let query = scanner.pending()->0;
            let next = scanner.step(chain(query))->Ok_0;
            let here = matching(page(log, window), scanner.signature);
            let rest = collected(
                log,
                scanner.signature,
                scanner.cursor.after_window(scanner.window_size),
                scanner.window_size,
            );
            assert(next.matches == scanner.matches + here);
            lemma_run_collects(next, chain, log);
            assert((scanner.matches + here) + rest =~= scanner.matches + (here + rest));
        },
    }
}

/// A filtered sequence holds exactly the elements of the sequence that meet
/// the condition.
pub proof fn lemma_filter_membership<A>(s: Seq<A>, pred: spec_fn(A) -> bool, e: A)
    ensures
        s.filter(pred).contains(e) <==> s.contains(e) && pred(e),
{
    if s.filter(pred).contains(e) {
        s.lemma_filter_contains_rev(pred, e);
        let i = choose|i: int| 0 <= i < s.filter(pred).len() && s.filter(pred)[i] == e;
        s.lemma_filter_pred(pred, i);
    }
    if s.contains(e) && pred(e) {
        let i = choose|i: int| 0 <= i < s.len() && s[i] == e;
        s.lemma_filter_contains(pred, i);
    }
}

/// A page holds exactly the entries of the log that were emitted in its
/// window.
pub proof fn lemma_page_membership(log: Seq<LogEntry>, window: BlockWindow, entry: LogEntry)
    ensures
        page(log, window).contains(entry) <==> log.contains(entry) && window.holds(
            entry.block_number as int,
        ),
{
    lemma_filter_membership(
        log,
        |entry: LogEntry| window.holds(entry.block_number as int),
        entry,
    );
}

/// A scan from `head` collects exactly the entries of the log that bear the
/// signature and were emitted in the blocks 0 to `head`.
pub proof fn lemma_collected_membership(
    log: Seq<LogEntry>,
    signature: Bytes32,
    head: u64,
    size: u64,
    entry: LogEntry,
)
    requires
        size > 0,
    ensures
        collected(log, signature, ScanCursor::Scanning(head), size).contains(entry) <==> {
            &&& log.contains(entry)
            &&& entry.has_signature(signature)
            &&& entry.block_number <= head
        },
    decreases head,
{
    let cursor = ScanCursor::Scanning(head);
    let window = cursor.window(size)->0;
    let here = matching(page(log, window), signature);
    let rest = collected(log, signature, cursor.after_window(size), size);
    assert(collected(log, signature, cursor, size) == here + rest);
    lemma_filter_membership(
        page(log, window),
        |entry: LogEntry| entry.has_signature(signature),
        entry,
    );
    lemma_page_membership(log, window, entry);
    if head > 0 {
        let below: u64 = if head >= size {
            (head - size) as u64
        } else {
            0
        };
        assert(cursor.after_window(size) == ScanCursor::Scanning(below));
        lemma_collected_membership(log, signature, below, size, entry);
    } else {
        assert(cursor.after_window(size) == ScanCursor::Done);
        assert(rest == Seq::<LogEntry>::empty());
    }
    if (here + rest).contains(entry) {
        let i = choose|i: int| 0 <= i < (here + rest).len() && (here + rest)[i] == entry;
        if i < here.len() {
            assert(here[i] == entry);
        } else {
            assert(rest[i - here.len()] == entry);
        }
    }
    if here.contains(entry) {
        let i = choose|i: int| 0 <= i < here.len() && here[i] == entry;
        assert((here + rest)[i] == entry);
    }
    if rest.contains(entry) {
        let i = choose|i: int| 0 <= i < rest.len() && rest[i] == entry;
        assert((here + rest)[here.len() + i] == entry);
    }
}

/// What a scan collects does not depend on the size of its windows: with any
/// two positive sizes the same entries are collected.
pub proof fn lemma_scan_independent_of_window(
    log: Seq<LogEntry>,
    signature: Bytes32,
    head: u64,
    first: u64,
    second: u64,
)
    requires
        first > 0,
        second > 0,
    ensures
        collected(log, signature, ScanCursor::Scanning(head), first).to_set() == collected(
            log,
            signature,
            ScanCursor::Scanning(head),
            second,
        ).to_set(),
{
    let a = collected(log, signature, ScanCursor::Scanning(head), first);
    let b = collected(log, signature, ScanCursor::Scanning(head), second);
    assert forall|entry: LogEntry| a.to_set().contains(entry) <==> b.to_set().contains(entry) by {
        lemma_collected_membership(log, signature, head, first, entry);
        lemma_collected_membership(log, signature, head, second, entry);
    }
    assert(a.to_set() =~= b.to_set());
}

} // verus!
