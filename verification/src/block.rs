//! Blocks, quorum certificates and unsigned proposal bodies.

use vstd::prelude::*;

verus! {

/// Identity and round of a block: what a certificate refers to.
#[derive(Clone, Copy, Debug, PartialEq, Eq, Structural)]
pub struct BlockInfo {
    pub id: u64,
    pub round: u64,
}

/// Proof that a quorum voted for `certified`. The signatures themselves are
/// checked before a certificate reaches this crate.
#[derive(Clone, Copy, Debug, PartialEq, Eq, Structural)]
pub struct QuorumCert {
    pub certified: BlockInfo,
}

impl QuorumCert {
    pub fn new(certified: BlockInfo) -> (r: QuorumCert)
        ensures
            r.certified == certified,
    {
        QuorumCert { certified }
    }

    pub fn certified_block(&self) -> (r: BlockInfo)
        ensures
            r == self.certified,
    {
        self.certified
    }
}

/// A block as the tree stores it. `quorum_cert` certifies the parent.
#[derive(Debug)]
pub struct Block {
    pub id: u64,
    pub round: u64,
    pub quorum_cert: QuorumCert,
    pub payload: Vec<u64>,
    pub author: u64,
    pub timestamp: u64,
}

/// The mathematical value of a `Block` or of a `BlockData`.
pub struct BlockView {
    pub id: u64,
    pub round: u64,
    pub quorum_cert: QuorumCert,
    pub payload: Seq<u64>,
    pub author: u64,
    pub timestamp: u64,
}

impl BlockView {
    pub open spec fn info(self) -> BlockInfo {
        BlockInfo { id: self.id, round: self.round }
    }

    pub open spec fn parent(self) -> BlockInfo {
        self.quorum_cert.certified
    }
}

impl View for Block {
    type V = BlockView;

    open spec fn view(&self) -> BlockView {
        BlockView {
            id: self.id,
            round: self.round,
            quorum_cert: self.quorum_cert,
            payload: self.payload@,
            author: self.author,
            timestamp: self.timestamp,
        }
    }
}

/// Copies a payload element by element.
pub fn copy_payload(payload: &Vec<u64>) -> (r: Vec<u64>)
    ensures
        r@ == payload@,
{
    let mut out: Vec<u64> = Vec::new();
    let mut i: usize = 0;
    while i < payload.len()
        invariant
            i <= payload.len(),
            out@ == payload@.take(i as int),
        decreases payload.len() - i,
    {
        out.push(payload[i]);
        i += 1;
        assert(payload@.take(i as int) == payload@.take(i - 1).push(payload@[i - 1]));
    }
    assert(payload@.take(payload.len() as int) == payload@);
    out
}

impl Block {
    /// The first block of an epoch: round 0, no payload, and a certificate
    /// that names the block itself.
    pub fn genesis(id: u64, timestamp: u64) -> (r: Block)
        ensures
            r@ == (BlockView {
                id,
                round: 0,
                quorum_cert: QuorumCert { certified: BlockInfo { id, round: 0 } },
                payload: Seq::<u64>::empty(),
                author: 0,
                timestamp,
            }),
    {
        Block {
            id,
            round: 0,
            quorum_cert: QuorumCert { certified: BlockInfo { id, round: 0 } },
            payload: Vec::new(),
            author: 0,
            timestamp,
        }
    }

    /// The certificate that certifies this block.
    pub fn certificate(&self) -> (r: QuorumCert)
        ensures
            r.certified == self@.info(),
    {
        QuorumCert { certified: BlockInfo { id: self.id, round: self.round } }
    }

    pub fn id(&self) -> (r: u64)
        ensures
            r == self.id,
    {
        self.id
    }

    pub fn round(&self) -> (r: u64)
        ensures
            r == self.round,
    {
        self.round
    }

    pub fn info(&self) -> (r: BlockInfo)
        ensures
            r == self@.info(),
    {
        BlockInfo { id: self.id, round: self.round }
    }

    pub fn parent_id(&self) -> (r: u64)
        ensures
            r == self@.parent().id,
    {
        self.quorum_cert.certified.id
    }

    pub fn quorum_cert(&self) -> (r: QuorumCert)
        ensures
            r == self.quorum_cert,
    {
        self.quorum_cert
    }

    pub fn timestamp(&self) -> (r: u64)
        ensures
            r == self.timestamp,
    {
        self.timestamp
    }

    /// A second value with the same contents.
    pub fn duplicate(&self) -> (r: Block)
        ensures
            r@ == self@,
    {
        Block {
            id: self.id,
            round: self.round,
            quorum_cert: self.quorum_cert,
            payload: copy_payload(&self.payload),
            author: self.author,
            timestamp: self.timestamp,
        }
    }
}

/// The unsigned body of a proposal. Its identifier is assigned when the
/// caller hashes and signs it.
#[derive(Debug)]
pub struct BlockData {
    pub round: u64,
    pub quorum_cert: QuorumCert,
    pub payload: Vec<u64>,
    pub author: u64,
    pub timestamp: u64,
}

/// The mathematical value of a `BlockData`.
pub struct BlockDataView {
    pub round: u64,
    pub quorum_cert: QuorumCert,
    pub payload: Seq<u64>,
    pub author: u64,
    pub timestamp: u64,
}

impl View for BlockData {
    type V = BlockDataView;

    open spec fn view(&self) -> BlockDataView {
        BlockDataView {
            round: self.round,
            quorum_cert: self.quorum_cert,
            payload: self.payload@,
            author: self.author,
            timestamp: self.timestamp,
        }
    }
}

impl BlockData {
    pub fn round(&self) -> (r: u64)
        ensures
            r == self.round,
    {
        self.round
    }

    pub fn parent_id(&self) -> (r: u64)
        ensures
            r == self.quorum_cert.certified.id,
    {
        self.quorum_cert.certified.id
    }

    pub fn quorum_cert(&self) -> (r: QuorumCert)
        ensures
            r == self.quorum_cert,
    {
        self.quorum_cert
    }

    pub fn timestamp(&self) -> (r: u64)
        ensures
            r == self.timestamp,
    {
        self.timestamp
    }

    /// The block that this body becomes once it carries the identifier `id`.
    pub fn into_block(self, id: u64) -> (r: Block)
        ensures
            r@.id == id,
            r@.round == self.round,
            r@.quorum_cert == self.quorum_cert,
            r@.payload == self.payload@,
            r@.author == self.author,
            r@.timestamp == self.timestamp,
    {
        Block {
            id,
            round: self.round,
            quorum_cert: self.quorum_cert,
            payload: self.payload,
            author: self.author,
            timestamp: self.timestamp,
        }
    }
}

} // verus!
