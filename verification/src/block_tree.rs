//! The block tree: every known block from the committed root forward, which
//! of them are certified, and the certified block that new proposals extend.

use vstd::prelude::*;
use crate::block::{Block, BlockInfo, BlockView, QuorumCert};

verus! {

/// The canonical order on certified blocks: the higher round wins, and of two
/// blocks certified at one round the one with the lower identifier.
pub open spec fn preferred_over(a: BlockInfo, b: BlockInfo) -> bool {
    a.round > b.round || (a.round == b.round && a.id <= b.id)
}

/// `b` is the member of `s` that the canonical order puts first.
pub open spec fn is_preferred(s: Set<BlockInfo>, b: BlockInfo) -> bool {
    s.contains(b) && forall|c: BlockInfo| s.contains(c) ==> preferred_over(b, c)
}

/// The preferred parent as a function of the set of certified blocks alone.
pub open spec fn preferred(s: Set<BlockInfo>) -> BlockInfo {
    choose|b: BlockInfo| is_preferred(s, b)
}

/// At most one member of a set is preferred, so `preferred` names it.
pub proof fn lemma_preferred_unique(s: Set<BlockInfo>, b: BlockInfo)
    requires
        is_preferred(s, b),
    ensures
        preferred(s) == b,
{
    let c = preferred(s);
    assert(is_preferred(s, c));
    assert(preferred_over(b, c) && preferred_over(c, b));
}

/// The certified set after the certificates `qcs` arrived one by one.
pub open spec fn certify_all(s: Set<BlockInfo>, qcs: Seq<BlockInfo>) -> Set<BlockInfo>
    decreases qcs.len(),
{
    if qcs.len() == 0 {
        s
    } else {
        certify_all(s, qcs.drop_last()).insert(qcs.last())
    }
}

/// Certifying one by one collects exactly the certificates that arrived.
pub proof fn lemma_certify_all_members(s: Set<BlockInfo>, qcs: Seq<BlockInfo>, x: BlockInfo)
    ensures
        certify_all(s, qcs).contains(x) <==> (s.contains(x) || qcs.contains(x)),
    decreases qcs.len(),
{
    if qcs.len() > 0 {
        let front = qcs.drop_last();
        lemma_certify_all_members(s, front, x);
        if qcs.contains(x) {
            let i = choose|i: int| 0 <= i < qcs.len() && qcs[i] == x;
            if i < qcs.len() - 1 {
                assert(front[i] == x);
            }
        }
        if front.contains(x) {
            let i = choose|i: int| 0 <= i < front.len() && front[i] == x;
            assert(qcs[i] == x);
        }
        if x == qcs.last() {
            assert(qcs[qcs.len() - 1] == x);
        }
    }
}

/// Certificates commute: two arrival orders of the same certificates, with
/// or without repetitions, leave the same certified set and therefore the
/// same preferred parent.
pub proof fn law_certification_order_irrelevant(
    s: Set<BlockInfo>,
    first: Seq<BlockInfo>,
    second: Seq<BlockInfo>,
)
    requires
        forall|x: BlockInfo| first.contains(x) <==> second.contains(x),
    ensures
        certify_all(s, first) == certify_all(s, second),
        preferred(certify_all(s, first)) == preferred(certify_all(s, second)),
{
    assert forall|x: BlockInfo|
        certify_all(s, first).contains(x) <==> certify_all(s, second).contains(x) by {
        lemma_certify_all_members(s, first, x);
        lemma_certify_all_members(s, second, x);
    }
    assert(certify_all(s, first) =~= certify_all(s, second));
}

/// Certifying a block that is already certified changes nothing.
pub proof fn law_certification_idempotent(s: Set<BlockInfo>, b: BlockInfo)
    ensures
        s.insert(b).insert(b) == s.insert(b),
        preferred(s.insert(b).insert(b)) == preferred(s.insert(b)),
{
    assert(s.insert(b).insert(b) =~= s.insert(b));
}

/// Why the tree turned an insertion down.
#[derive(Clone, Copy, Debug, PartialEq, Eq, Structural)]
pub enum TreeError {
    /// The parent is not in the tree.
    UnknownParent,
    /// The round does not exceed the parent's round.
    RoundNotAfterParent,
    /// The certificate does not certify the parent.
    CertificateMismatch,
    /// The timestamp does not exceed the parent's timestamp.
    TimestampNotAfterParent,
    /// Another block already has this identifier.
    DuplicateId,
    /// The block to certify, or to make the root, is not in the tree.
    UnknownBlock,
    /// The block to make the root is not certified.
    RootNotCertified,
}

/// The exec form of `preferred_over`.
pub fn precedes(a: BlockInfo, b: BlockInfo) -> (r: bool)
    ensures
        r == preferred_over(a, b),
{
    a.round > b.round || (a.round == b.round && a.id <= b.id)
}

/// Block `i` of `blocks` extends an earlier block: its certificate names
/// that block, whose round and timestamp are lower.
pub open spec fn linked(blocks: Seq<BlockView>, i: int) -> bool {
    exists|j: int|
        0 <= j < i && (#[trigger] blocks[j]).info() == blocks[i].parent() && blocks[j].round
            < blocks[i].round && blocks[j].timestamp < blocks[i].timestamp
}

/// The position of the block that block `i` extends.
pub open spec fn parent_index(blocks: Seq<BlockView>, i: int) -> int {
    choose|j: int|
        0 <= j < i && (#[trigger] blocks[j]).info() == blocks[i].parent() && blocks[j].round
            < blocks[i].round && blocks[j].timestamp < blocks[i].timestamp
}

/// Following parents from block `i` ends at the root, which is block 0.
pub open spec fn reaches_root(blocks: Seq<BlockView>, i: int) -> bool
    decreases i,
{
    if i <= 0 {
        i == 0
    } else {
        let j = parent_index(blocks, i);
        0 <= j < i && blocks[j].info() == blocks[i].parent() && reaches_root(blocks, j)
    }
}

/// Block `i` is block `r` or comes after it on a chain of parent links.
pub open spec fn descends(blocks: Seq<BlockView>, i: int, r: int) -> bool
    decreases i,
{
    if i <= r || i <= 0 {
        i == r
    } else {
        let j = parent_index(blocks, i);
        0 <= j < i && descends(blocks, j, r)
    }
}

/// Of the first `n` blocks, those that descend from block `r`, in order.
pub open spec fn kept_blocks(blocks: Seq<BlockView>, r: int, n: int) -> Seq<BlockView>
    decreases n,
{
    if n <= 0 {
        Seq::empty()
    } else if descends(blocks, n - 1, r) {
        kept_blocks(blocks, r, n - 1).push(blocks[n - 1])
    } else {
        kept_blocks(blocks, r, n - 1)
    }
}

/// The certification flags of the blocks that `kept_blocks` keeps.
pub open spec fn kept_flags(blocks: Seq<BlockView>, flags: Seq<bool>, r: int, n: int) -> Seq<
    bool,
>
    decreases n,
{
    if n <= 0 {
        Seq::empty()
    } else if descends(blocks, n - 1, r) {
        kept_flags(blocks, flags, r, n - 1).push(flags[n - 1])
    } else {
        kept_flags(blocks, flags, r, n - 1)
    }
}

/// The position of the preferred block among the certified ones.
fn best_position(blocks: &Vec<Block>, flags: &Vec<bool>) -> (best: usize)
    requires
        blocks.len() == flags.len(),
        blocks.len() > 0,
        flags[0],
    ensures
        best < blocks.len(),
        flags[best as int],
        forall|i: int|
            0 <= i < blocks.len() && #[trigger] flags[i] ==> preferred_over(
                blocks[best as int]@.info(),
                blocks[i]@.info(),
            ),
{
    let mut best: usize = 0;
    let mut k: usize = 1;
    while k < blocks.len()
        invariant
            blocks.len() == flags.len(),
            1 <= k <= blocks.len(),
            best < k,
            flags[best as int],
            forall|i: int|
                0 <= i < k && #[trigger] flags[i] ==> preferred_over(
                    blocks[best as int]@.info(),
                    blocks[i]@.info(),
                ),
        decreases blocks.len() - k,
    {
        if flags[k] && !precedes(blocks[best].info(), blocks[k].info()) {
            best = k;
        }
        k += 1;
    }
    best
}

pub struct BlockTree {
    blocks: Vec<Block>,
    flags: Vec<bool>,
    best: usize,
}

impl BlockTree {
    /// The blocks in the order of their insertion; the root comes first.
    pub closed spec fn blocks(&self) -> Seq<BlockView> {
        self.blocks@.map_values(|b: Block| b@)
    }

    /// For each block, whether it is certified.
    pub closed spec fn flags(&self) -> Seq<bool> {
        self.flags@
    }

    /// The cached position of the preferred block is right.
    pub closed spec fn cache_ok(&self) -> bool {
        &&& self.best < self.blocks().len()
        &&& self.flags()[self.best as int]
        &&& forall|i: int|
            0 <= i < self.blocks().len() && #[trigger] self.flags()[i] ==> preferred_over(
                self.blocks()[self.best as int].info(),
                self.blocks()[i].info(),
            )
    }

    /// The set of certified blocks.
    pub open spec fn certified(&self) -> Set<BlockInfo> {
        Set::new(
            |b: BlockInfo|
                exists|i: int|
                    0 <= i < self.blocks().len() && #[trigger] self.flags()[i]
                        && self.blocks()[i].info() == b,
        )
    }

    /// A block with this identity and round is in the tree.
    pub open spec fn contains(&self, b: BlockInfo) -> bool {
        exists|i: int| 0 <= i < self.blocks().len() && (#[trigger] self.blocks()[i]).info() == b
    }

    /// Some block of the tree has this identifier.
    pub open spec fn has_id(&self, id: u64) -> bool {
        exists|i: int| 0 <= i < self.blocks().len() && (#[trigger] self.blocks()[i]).id == id
    }

    /// The block of the tree with this identity and round.
    pub open spec fn block_of(&self, b: BlockInfo) -> BlockView {
        self.blocks()[choose|i: int|
            0 <= i < self.blocks().len() && (#[trigger] self.blocks()[i]).info() == b]
    }

    /// The position of the block with this identifier.
    pub open spec fn index_of(&self, id: u64) -> int {
        choose|i: int| 0 <= i < self.blocks().len() && (#[trigger] self.blocks()[i]).id == id
    }

    /// The committed root.
    pub open spec fn root(&self) -> BlockView {
        self.blocks()[0]
    }

    /// The tree's invariant: the root is there and certified, no identifier
    /// occurs twice, and every other block extends an earlier one, so that
    /// following parents from any block ends at the root.
    pub open spec fn wf(&self) -> bool {
        &&& self.blocks().len() > 0
        &&& self.flags().len() == self.blocks().len()
        &&& self.flags()[0]
        &&& forall|i: int, j: int|
            0 <= i < j < self.blocks().len() ==> (#[trigger] self.blocks()[i]).id != (
            #[trigger] self.blocks()[j]).id
        &&& forall|i: int| 0 < i < self.blocks().len() ==> #[trigger] linked(self.blocks(), i)
        &&& self.cache_ok()
    }

    /// A tree that holds the committed root alone. The root counts as
    /// certified.
    pub fn new(root: Block) -> (t: BlockTree)
        ensures
            t.wf(),
            t.blocks() == seq![root@],
            t.certified() == set![root@.info()],
    {
        let ghost r = root@;
        let mut blocks: Vec<Block> = Vec::new();
        blocks.push(root);
        let mut flags: Vec<bool> = Vec::new();
        flags.push(true);
        let t = BlockTree { blocks, flags, best: 0 };
        proof {
            assert(t.blocks() =~= seq![r]);
            assert(t.flags()[0]);
            assert(t.blocks()[0].info() == r.info());
            assert(t.certified() =~= set![r.info()]);
        }
        t
    }

    pub fn ordered_root(&self) -> (r: &Block)
        requires
            self.wf(),
        ensures
            r@ == self.root(),
    {
        &self.blocks[0]
    }

    fn position(&self, id: u64) -> (r: Option<usize>)
        ensures
            match r {
                Some(i) => i < self.blocks().len() && self.blocks()[i as int].id == id,
                None => !self.has_id(id),
            },
    {
        let mut i: usize = 0;
        while i < self.blocks.len()
            invariant
                i <= self.blocks.len(),
                forall|k: int| 0 <= k < i ==> (#[trigger] self.blocks()[k]).id != id,
            decreases self.blocks.len() - i,
        {
            if self.blocks[i].id == id {
                return Some(i);
            }
            i += 1;
        }
        None
    }

    /// The block with the identifier `id`, if the tree holds one.
    pub fn get_block(&self, id: u64) -> (r: Option<&Block>)
        ensures
            r.is_some() == self.has_id(id),
            match r {
                Some(b) => b@.id == id && self.blocks().contains(b@),
                None => true,
            },
    {
        match self.position(id) {
            Some(i) => {
                assert(self.blocks()[i as int] == self.blocks[i as int]@);
                Some(&self.blocks[i])
            },
            None => None,
        }
    }

    /// The certified block that the canonical order puts first: the parent
    /// for the next proposal. It depends on the certified set alone.
    pub fn highest_certified_block(&self) -> (r: &Block)
        requires
            self.wf(),
        ensures
            is_preferred(self.certified(), r@.info()),
            r@.info() == preferred(self.certified()),
            r@ == self.block_of(r@.info()),
            self.contains(r@.info()),
    {
        proof {
            self.lemma_best_preferred();
            self.lemma_block_of(self.best as int);
        }
        &self.blocks[self.best]
    }

    /// A certified set always has its preferred member, and the tree holds
    /// the block.
    pub proof fn lemma_preferred_exists(&self)
        requires
            self.wf(),
        ensures
            is_preferred(self.certified(), preferred(self.certified())),
            self.contains(preferred(self.certified())),
    {
        self.lemma_best_preferred();
        self.lemma_block_of(self.best as int);
    }

    /// Every block of the tree has a path back to the root through its
    /// parent links.
    pub proof fn law_path_to_root(&self, i: int)
        requires
            self.wf(),
            0 <= i < self.blocks().len(),
        ensures
            reaches_root(self.blocks(), i),
        decreases i,
    {
        if i > 0 {
            assert(linked(self.blocks(), i));
            self.law_path_to_root(parent_index(self.blocks(), i));
        }
    }

    /// Identity and round find a block again, since no identifier occurs
    /// twice.
    pub proof fn lemma_block_of(&self, i: int)
        requires
            self.wf(),
            0 <= i < self.blocks().len(),
        ensures
            self.contains(self.blocks()[i].info()),
            self.block_of(self.blocks()[i].info()) == self.blocks()[i],
    {
        let b = self.blocks()[i].info();
        let k = choose|k: int|
            0 <= k < self.blocks().len() && (#[trigger] self.blocks()[k]).info() == b;
        assert(self.blocks()[i].info() == b);
        assert(self.blocks()[k].id == self.blocks()[i].id);
        assert(k == i);
    }

    proof fn lemma_best_preferred(&self)
        requires
            self.wf(),
        ensures
            is_preferred(self.certified(), self.blocks()[self.best as int].info()),
            preferred(self.certified()) == self.blocks()[self.best as int].info(),
            self.blocks()[self.best as int] == self.blocks@[self.best as int]@,
    {
        let b = self.blocks()[self.best as int].info();
        assert(self.flags()[self.best as int]);
        assert(self.certified().contains(b));
        lemma_preferred_unique(self.certified(), b);
    }

    /// The position of the block with this identity and round.
    fn locate(&self, b: BlockInfo) -> (r: Option<usize>)
        requires
            self.wf(),
        ensures
            r.is_some() == self.contains(b),
            match r {
                Some(i) => i < self.blocks().len() && self.blocks()[i as int].info() == b
                    && self.block_of(b) == self.blocks()[i as int],
                None => true,
            },
    {
        match self.position(b.id) {
            None => None,
            Some(i) => {
                if self.blocks[i].round == b.round {
                    proof {
                        let k = choose|k: int|
                            0 <= k < self.blocks().len() && (#[trigger] self.blocks()[k]).info()
                                == b;
                        assert(self.blocks()[i as int].info() == b);
                        assert(k == i);
                    }
                    Some(i)
                } else {
                    proof {
                        if self.contains(b) {
                            let k = choose|k: int|
                                0 <= k < self.blocks().len() && (
                                #[trigger] self.blocks()[k]).info() == b;
                            assert(self.blocks()[i as int].id == self.blocks()[k].id);
                            assert(k == i);
                        }
                    }
                    None
                }
            },
        }
    }

    /// Why the tree turns down a block with these values, if it does. The
    /// tests are made in this order.
    pub open spec fn insert_rejection(
        &self,
        id: u64,
        qc: QuorumCert,
        parent: BlockInfo,
        round: u64,
        timestamp: u64,
    ) -> Option<TreeError> {
        if !self.contains(parent) {
            Some(TreeError::UnknownParent)
        } else if round <= parent.round {
            Some(TreeError::RoundNotAfterParent)
        } else if qc.certified != parent {
            Some(TreeError::CertificateMismatch)
        } else if timestamp <= self.block_of(parent).timestamp {
            Some(TreeError::TimestampNotAfterParent)
        } else if self.has_id(id) {
            Some(TreeError::DuplicateId)
        } else {
            None
        }
    }

    /// Builds the block with the identifier `id` that extends `parent` at
    /// `round`, with `qc` as its certificate for the parent, and adds it to
    /// the tree. The new block is not certified, so the certified set stays
    /// as it was.
    pub fn insert_block_with_qc(
        &mut self,
        id: u64,
        qc: QuorumCert,
        parent: &Block,
        round: u64,
        author: u64,
        timestamp: u64,
        payload: Vec<u64>,
    ) -> (r: Result<Block, TreeError>)
        requires
            old(self).wf(),
        ensures
            final(self).wf(),
            final(self).certified() == old(self).certified(),
            match r {
                Ok(b) => {
                    &&& old(self).insert_rejection(id, qc, parent@.info(), round, timestamp)
                        is None
                    &&& b@ == (BlockView { id, round, quorum_cert: qc, payload: payload@, author, timestamp })
                    &&& final(self).blocks() == old(self).blocks().push(b@)
                },
                Err(e) => {
                    &&& old(self).insert_rejection(id, qc, parent@.info(), round, timestamp)
                        == Some(e)
                    &&& final(self).blocks() == old(self).blocks()
                },
            },
    {
        let p = match self.locate(parent.info()) {
            None => { return Err(TreeError::UnknownParent); },
            Some(p) => p,
        };
        if round <= parent.round {
            return Err(TreeError::RoundNotAfterParent);
        }
        if qc.certified.id != parent.id || qc.certified.round != parent.round {
            return Err(TreeError::CertificateMismatch);
        }
        assert(self.blocks()[p as int] == self.blocks@[p as int]@);
        if timestamp <= self.blocks[p].timestamp {
            return Err(TreeError::TimestampNotAfterParent);
        }
        if self.position(id).is_some() {
            return Err(TreeError::DuplicateId);
        }
        let block = Block { id, round, quorum_cert: qc, payload, author, timestamp };
        let copy = block.duplicate();
        let ghost before = self.blocks();
        let ghost before_cert = self.certified();
        self.blocks.push(block);
        self.flags.push(false);
        proof {
            let after = self.blocks();
            assert(after =~= before.push(copy@));
            assert forall|i: int| 0 < i < after.len() implies #[trigger] linked(after, i) by {
                if i < before.len() {
                    assert(linked(before, i));
                    let j = choose|j: int|
                        0 <= j < i && (#[trigger] before[j]).info() == before[i].parent()
                            && before[j].round < before[i].round && before[j].timestamp
                            < before[i].timestamp;
                    assert(after[j] == before[j]);
                } else {
                    assert(after[p as int] == before[p as int]);
                    assert(after[p as int].info() == after[i].parent());
                }
            }
            assert forall|i: int, j: int| 0 <= i < j < after.len() implies (#[trigger] after[i]).id
                != (#[trigger] after[j]).id by {
                if j < before.len() {
                    assert(after[i] == before[i] && after[j] == before[j]);
                } else {
                    assert(after[i] == before[i]);
                }
            }
            assert forall|b: BlockInfo| self.certified().contains(b) <==> before_cert.contains(
                b,
            ) by {
                if before_cert.contains(b) {
                    let i = choose|i: int|
                        0 <= i < before.len() && #[trigger] old(self).flags()[i]
                            && before[i].info() == b;
                    assert(self.flags()[i] && after[i] == before[i]);
                }
            }
            assert(self.certified() =~= before_cert);
            assert(self.flags()[self.best as int]);
        }
        Ok(copy)
    }

    /// Records that `block` is certified. The certified set gains the block
    /// and nothing else, so a certificate that arrives twice changes nothing
    /// the second time, and the order of arrival does not matter.
    pub fn insert_qc_for_block(&mut self, block: &Block) -> (r: Result<(), TreeError>)
        requires
            old(self).wf(),
        ensures
            final(self).wf(),
            final(self).blocks() == old(self).blocks(),
            match r {
                Ok(()) => old(self).contains(block@.info()) && final(self).certified() == old(
                    self,
                ).certified().insert(block@.info()),
                Err(e) => e == TreeError::UnknownBlock && !old(self).contains(block@.info())
                    && final(self).certified() == old(self).certified(),
            },
    {
        let i = match self.locate(block.info()) {
            None => { return Err(TreeError::UnknownBlock); },
            Some(i) => i,
        };
        let ghost before_cert = self.certified();
        let ghost before_flags = self.flags();
        assert(self.blocks()[i as int] == self.blocks@[i as int]@);
        assert(self.blocks()[self.best as int] == self.blocks@[self.best as int]@);
        self.flags.set(i, true);
        if !precedes(self.blocks[self.best].info(), self.blocks[i].info()) {
            self.best = i;
        }
        proof {
            let info = block@.info();
            assert(self.flags() == before_flags.update(i as int, true));
            assert forall|b: BlockInfo| self.certified().contains(b) <==> before_cert.insert(
                info,
            ).contains(b) by {
                if before_cert.contains(b) {
                    let k = choose|k: int|
                        0 <= k < self.blocks().len() && #[trigger] before_flags[k]
                            && self.blocks()[k].info() == b;
                    assert(self.flags()[k]);
                }
                if b == info {
                    assert(self.flags()[i as int]);
                }
                if self.certified().contains(b) {
                    let k = choose|k: int|
                        0 <= k < self.blocks().len() && #[trigger] self.flags()[k]
                            && self.blocks()[k].info() == b;
                    if k != i {
                        assert(before_flags[k]);
                    }
                }
            }
            assert(self.certified() =~= before_cert.insert(info));
            assert forall|k: int|
                0 <= k < self.blocks().len() && #[trigger] self.flags()[k] implies preferred_over(
                self.blocks()[self.best as int].info(),
                self.blocks()[k].info(),
            ) by {
                if k != i {
                    assert(before_flags[k]);
                }
            }
        }
        Ok(())
    }
    /// Makes the certified block with the identifier `id` the committed
    /// root and drops every block that does not descend from it. The blocks
    /// that stay keep their order and their certification.
    pub fn prune_to(&mut self, id: u64) -> (r: Result<(), TreeError>)
        requires
            old(self).wf(),
        ensures
            final(self).wf(),
            match r {
                Ok(()) => {
                    let root = old(self).index_of(id);
                    let n = old(self).blocks().len() as int;
                    &&& old(self).has_id(id)
                    &&& old(self).flags()[root]
                    &&& final(self).blocks() == kept_blocks(old(self).blocks(), root, n)
                    &&& final(self).flags() == kept_flags(
                        old(self).blocks(),
                        old(self).flags(),
                        root,
                        n,
                    )
                    &&& final(self).root() == old(self).blocks()[root]
                },
                Err(e) => {
                    &&& final(self).blocks() == old(self).blocks()
                    &&& final(self).flags() == old(self).flags()
                    &&& if old(self).has_id(id) {
                        e == TreeError::RootNotCertified && !old(self).flags()[old(
                            self,
                        ).index_of(id)]
                    } else {
                        e == TreeError::UnknownBlock
                    }
                },
            },
    {
        let root = match self.position(id) {
            None => { return Err(TreeError::UnknownBlock); },
            Some(i) => i,
        };
        assert(self.index_of(id) == root) by {
            let k = self.index_of(id);
            assert(self.blocks()[root as int].id == self.blocks()[k].id);
        }
        if !self.flags[root] {
            return Err(TreeError::RootNotCertified);
        }
        let ghost ob = self.blocks();
        let ghost of = self.flags();
        let n = self.blocks.len();
        let mut keep: Vec<bool> = Vec::new();
        let mut nb: Vec<Block> = Vec::new();
        let mut nf: Vec<bool> = Vec::new();
        let ghost mut origin: Seq<int> = Seq::empty();
        let mut i: usize = 0;
        while i < n
            invariant
                self.wf(),
                ob == self.blocks(),
                of == self.flags(),
                n == self.blocks.len(),
                root < n,
                i <= n,
                keep.len() == i,
                forall|k: int| 0 <= k < i ==> #[trigger] keep@[k] == descends(ob, k, root as int),
                nb@.map_values(|b: Block| b@) == kept_blocks(ob, root as int, i as int),
                nf@ == kept_flags(ob, of, root as int, i as int),
                origin.len() == nb.len(),
                origin.len() == nf.len(),
                forall|m: int|
                    0 <= m < origin.len() ==> root <= #[trigger] origin[m] < i && keep@[origin[m]]
                        && nb@[m]@ == ob[origin[m]] && nf@[m] == of[origin[m]],
                forall|a: int, b: int|
                    0 <= a < b < origin.len() ==> #[trigger] origin[a] < #[trigger] origin[b],
                forall|k: int|
                    0 <= k < i && #[trigger] keep@[k] ==> exists|m: int|
                        0 <= m < origin.len() && #[trigger] origin[m] == k,
                i > root ==> origin.len() > 0 && origin[0] == root,
            decreases n - i,
        {
            assert(ob[i as int] == self.blocks@[i as int]@);
            let descendant = if i == root {
                true
            } else if i > root {
                match self.position(self.blocks[i].quorum_cert.certified.id) {
                    Some(p) => {
                        proof {
                            assert(linked(ob, i as int));
                            let j = parent_index(ob, i as int);
                            assert(ob[j].id == ob[p as int].id);
                            assert(j == p);
                        }
                        keep[p]
                    },
                    None => {
                        proof {
                            assert(linked(ob, i as int));
                            let j = parent_index(ob, i as int);
                            assert(ob[j].id == ob[i as int].parent().id);
                        }
                        false
                    },
                }
            } else {
                false
            };
            assert(descendant == descends(ob, i as int, root as int));
            let ghost origin0 = origin;
            let ghost keep0 = keep@;
            keep.push(descendant);
            if descendant {
                let ghost before = nb@.map_values(|b: Block| b@);
                let copy = self.blocks[i].duplicate();
                nb.push(copy);
                nf.push(self.flags[i]);
                proof {
                    origin = origin.push(i as int);
                    assert(nb@.map_values(|b: Block| b@) =~= before.push(ob[i as int]));
                    assert(origin[origin.len() - 1] == i);
                    if i > root {
                        assert(origin[0] == root);
                    }
                }
            }
            proof {
                assert forall|k: int| 0 <= k < i + 1 && #[trigger] keep@[k] implies exists|m: int|
                    0 <= m < origin.len() && #[trigger] origin[m] == k by {
                    if k < i {
                        assert(keep0[k]);
                        let w = choose|m: int| 0 <= m < origin0.len() && #[trigger] origin0[m] == k;
                        assert(origin[w] == k);
                    } else {
                        assert(origin[origin.len() - 1] == k);
                    }
                }
            }
            i += 1;
        }
        let best = best_position(&nb, &nf);
        self.blocks = nb;
        self.flags = nf;
        self.best = best;
        proof {
            let nv = self.blocks();
            assert(nv.len() == origin.len());
            assert forall|m: int| 0 <= m < nv.len() implies nv[m] == ob[origin[m]] by {
                assert(root <= origin[m]);
            }
            assert forall|a: int, b: int| 0 <= a < b < nv.len() implies (#[trigger] nv[a]).id != (
            #[trigger] nv[b]).id by {
                assert(origin[a] < origin[b]);
                assert(nv[a] == ob[origin[a]] && nv[b] == ob[origin[b]]);
            }
            assert forall|m: int| 0 < m < nv.len() implies #[trigger] linked(nv, m) by {
                let i = origin[m];
                assert(origin[0] < origin[m]);
                assert(keep@[i]);
                assert(descends(ob, i, root as int));
                assert(linked(ob, i));
                let j = parent_index(ob, i);
                assert(descends(ob, j, root as int));
                assert(keep@[j]);
                let w = choose|w: int| 0 <= w < origin.len() && #[trigger] origin[w] == j;
                if w >= m {
                    if w > m {
                        assert(origin[m] < origin[w]);
                    }
                }
                assert(nv[w] == ob[j] && nv[m] == ob[i]);
            }
            assert(self.flags()[0]) by {
                assert(origin[0] == root);
            }
            assert forall|t: int|
                0 <= t < nv.len() && #[trigger] self.flags()[t] implies preferred_over(
                nv[self.best as int].info(),
                nv[t].info(),
            ) by {
                assert(nv[t] == self.blocks@[t]@);
            }
            assert(nv[0] == ob[origin[0]]);
        }
        Ok(())
    }
}

} // verus!
