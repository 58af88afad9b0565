//! The proposal generator: for a requested round it selects the parent,
//! applies the two safety gates and assembles the unsigned block body.

use vstd::prelude::*;
use crate::block::{BlockData, BlockDataView, BlockInfo, QuorumCert};
use crate::block_tree::{BlockTree, is_preferred, preferred};

verus! {

/// Why no proposal was made for a round.
#[derive(Clone, Copy, Debug, PartialEq, Eq, Structural)]
pub enum ProposalError {
    /// The round does not exceed the highest certified round.
    OldRound,
    /// This replica has already proposed for this round or a later one.
    DuplicateRound,
    /// The parent carries the largest timestamp there is, and the clock
    /// does not show a later one.
    ClockExhausted,
}

/// The two safety gates, the stale round first.
pub open spec fn round_rejection(certified_round: u64, last_round: u64, round: u64) -> Option<
    ProposalError,
> {
    if round <= certified_round {
        Some(ProposalError::OldRound)
    } else if round <= last_round {
        Some(ProposalError::DuplicateRound)
    } else {
        None
    }
}

/// The clock's time where it is past the parent's timestamp, else the
/// parent's timestamp nudged forward by one.
pub open spec fn next_timestamp(parent_timestamp: u64, now: u64) -> int {
    if now > parent_timestamp {
        now as int
    } else {
        parent_timestamp + 1
    }
}

/// What to ask the payload provider for: the proposal in the making, the
/// most transactions to hand over, and the time by which to answer with
/// whatever is at hand.
#[derive(Clone, Copy, Debug, PartialEq, Eq, Structural)]
pub struct PayloadRequest {
    pub round: u64,
    pub parent: BlockInfo,
    pub max_size: u64,
    pub deadline: u64,
}

impl PayloadRequest {
    /// A request is abandoned once a proposal for a later round is asked
    /// for.
    pub fn superseded_by(&self, round: u64) -> (r: bool)
        ensures
            r == (round > self.round),
    {
        round > self.round
    }
}

/// The time `wait` after `now`, or the last time there is.
pub open spec fn deadline_after(now: u64, wait: u64) -> u64 {
    if now + wait > u64::MAX {
        u64::MAX
    } else {
        (now + wait) as u64
    }
}

pub struct ProposalGenerator {
    author: u64,
    max_block_size: u64,
    last_round_generated: u64,
}

impl ProposalGenerator {
    /// The last round for which this generator made a proposal; 0 before
    /// the first.
    pub closed spec fn last_round(&self) -> u64 {
        self.last_round_generated
    }

    pub closed spec fn author_id(&self) -> u64 {
        self.author
    }

    pub closed spec fn size_limit(&self) -> u64 {
        self.max_block_size
    }

    /// Why `generate_proposal` fails on these inputs, if it does.
    pub open spec fn rejection(&self, tree: &BlockTree, round: u64, now: u64) -> Option<
        ProposalError,
    > {
        let parent = preferred(tree.certified());
        let gate = round_rejection(parent.round, self.last_round(), round);
        if gate is Some {
            gate
        } else if next_timestamp(tree.block_of(parent).timestamp, now) > u64::MAX {
            Some(ProposalError::ClockExhausted)
        } else {
            None
        }
    }

    pub fn new(author: u64, max_block_size: u64) -> (g: ProposalGenerator)
        ensures
            g.author_id() == author,
            g.size_limit() == max_block_size,
            g.last_round() == 0,
    {
        ProposalGenerator { author, max_block_size, last_round_generated: 0 }
    }

    pub fn author(&self) -> (r: u64)
        ensures
            r == self.author_id(),
    {
        self.author
    }

    /// The largest payload to ask the payload provider for.
    pub fn max_block_size(&self) -> (r: u64)
        ensures
            r == self.size_limit(),
    {
        self.max_block_size
    }

    pub fn last_round_generated(&self) -> (r: u64)
        ensures
            r == self.last_round(),
    {
        self.last_round_generated
    }

    /// Applies the two gates and names the parent for `round`, without
    /// changing anything: what to know before a payload is asked for.
    pub fn select_parent(&self, tree: &BlockTree, round: u64) -> (r: Result<
        BlockInfo,
        ProposalError,
    >)
        requires
            tree.wf(),
        ensures
            match r {
                Ok(parent) => parent == preferred(tree.certified()) && round_rejection(
                    parent.round,
                    self.last_round(),
                    round,
                ) is None,
                Err(e) => round_rejection(
                    preferred(tree.certified()).round,
                    self.last_round(),
                    round,
                ) == Some(e),
            },
    {
        let parent = tree.highest_certified_block().info();
        if round <= parent.round {
            Err(ProposalError::OldRound)
        } else if round <= self.last_round_generated {
            Err(ProposalError::DuplicateRound)
        } else {
            Ok(parent)
        }
    }

    /// The request to put to the payload provider for a proposal at
    /// `round`, where the two gates let the round pass: at most
    /// `max_block_size` transactions, to be handed over at the latest
    /// `wait` after `now`. Nothing changes.
    pub fn payload_request(&self, tree: &BlockTree, round: u64, now: u64, wait: u64) -> (r:
        Result<PayloadRequest, ProposalError>)
        requires
            tree.wf(),
        ensures
            match r {
                Ok(request) => round_rejection(
                    preferred(tree.certified()).round,
                    self.last_round(),
                    round,
                ) is None && request == (PayloadRequest {
                    round,
                    parent: preferred(tree.certified()),
                    max_size: self.size_limit(),
                    deadline: deadline_after(now, wait),
                }),
                Err(e) => round_rejection(
                    preferred(tree.certified()).round,
                    self.last_round(),
                    round,
                ) == Some(e),
            },
    {
        match self.select_parent(tree, round) {
            Ok(parent) => {
                let deadline = if wait > u64::MAX - now {
                    u64::MAX
                } else {
                    now + wait
                };
                Ok(PayloadRequest { round, parent, max_size: self.max_block_size, deadline })
            },
            Err(e) => Err(e),
        }
    }

    /// The unsigned body of the proposal for `round`, with the payload that
    /// the payload provider gave (empty where it had nothing in time) and
    /// the clock's reading `now`. The parent is the tree's highest
    /// certified block, and the body carries the certificate for it. On
    /// success the generator remembers `round`; on failure nothing changes.
    pub fn generate_proposal(
        &mut self,
        tree: &BlockTree,
        round: u64,
        payload: Vec<u64>,
        now: u64,
    ) -> (r: Result<BlockData, ProposalError>)
        requires
            tree.wf(),
        ensures
            final(self).author_id() == old(self).author_id(),
            final(self).size_limit() == old(self).size_limit(),
            final(self).last_round() >= old(self).last_round(),
            match r {
                Ok(body) => {
                    let parent = preferred(tree.certified());
                    &&& old(self).rejection(tree, round, now) is None
                    &&& body@ == (BlockDataView {
                        round,
                        quorum_cert: QuorumCert { certified: parent },
                        payload: payload@,
                        author: old(self).author_id(),
                        timestamp: next_timestamp(tree.block_of(parent).timestamp, now) as u64,
                    })
                    &&& is_preferred(tree.certified(), body@.quorum_cert.certified)
                    &&& body@.timestamp > tree.block_of(parent).timestamp
                    &&& body@.quorum_cert.certified.round < round
                    &&& final(self).last_round() == round
                    &&& final(self).last_round() > old(self).last_round()
                },
                Err(e) => {
                    &&& old(self).rejection(tree, round, now) == Some(e)
                    &&& final(self).last_round() == old(self).last_round()
                },
            },
    {
        let parent = tree.highest_certified_block();
        if round <= parent.round {
            return Err(ProposalError::OldRound);
        }
        if round <= self.last_round_generated {
            return Err(ProposalError::DuplicateRound);
        }
        let timestamp: u64 = if now > parent.timestamp {
            now
        } else if parent.timestamp < u64::MAX {
            parent.timestamp + 1
        } else {
            return Err(ProposalError::ClockExhausted);
        };
        self.last_round_generated = round;
        Ok(
            BlockData {
                round,
                quorum_cert: QuorumCert::new(parent.info()),
                payload,
                author: self.author,
                timestamp,
            },
        )
    }
}

/// No stale proposal: once a block of round `r1` is certified, a request
/// for `r1` is turned down as an old round, also where the generator has
/// meanwhile proposed for a later round `r2`.
pub proof fn law_certified_round_is_old(
    tree: &BlockTree,
    generator: &ProposalGenerator,
    certified: BlockInfo,
    r1: u64,
    r2: u64,
    now: u64,
)
    requires
        tree.wf(),
        tree.certified().contains(certified),
        certified.round == r1,
        r1 < r2,
        generator.last_round() == r2,
    ensures
        generator.rejection(tree, r1, now) == Some(ProposalError::OldRound),
{
    tree.lemma_preferred_exists();
}

/// No double proposal: where a request for `round` was answered with a
/// proposal or turned down as a duplicate, the same request made again at
/// once, on the same tree, is turned down as a duplicate. `after` is the
/// generator as the first request left it.
pub proof fn law_repeated_round_is_duplicate(
    tree: &BlockTree,
    before: &ProposalGenerator,
    after: &ProposalGenerator,
    round: u64,
    first_now: u64,
    second_now: u64,
)
    requires
        tree.wf(),
        before.rejection(tree, round, first_now) is None || before.rejection(
            tree,
            round,
            first_now,
        ) == Some(ProposalError::DuplicateRound),
        after.last_round() == if before.rejection(tree, round, first_now) is None {
            round
        } else {
            before.last_round()
        },
    ensures
        after.rejection(tree, round, second_now) == Some(ProposalError::DuplicateRound),
{
}

/// Liveness of the gates: a request for a round beyond both the highest
/// certified round and the last proposed round succeeds whenever the clock
/// is past the parent's timestamp.
pub proof fn law_fresh_round_accepted(
    tree: &BlockTree,
    generator: &ProposalGenerator,
    round: u64,
    now: u64,
)
    requires
        tree.wf(),
        round > preferred(tree.certified()).round,
        round > generator.last_round(),
        now > tree.block_of(preferred(tree.certified())).timestamp,
    ensures
        generator.rejection(tree, round, now) is None,
{
}

} // verus!
