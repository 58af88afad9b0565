use proposal_core::block::{Block, BlockInfo, QuorumCert};
use proposal_core::block_tree::{precedes, BlockTree, TreeError};
use proposal_core::proposal::{PayloadRequest, ProposalError, ProposalGenerator};

const GENESIS_ID: u64 = 7;

fn build_empty_tree() -> BlockTree {
    BlockTree::new(Block::genesis(GENESIS_ID, 100))
}

fn certificate_for_genesis() -> QuorumCert {
    QuorumCert::new(BlockInfo { id: GENESIS_ID, round: 0 })
}

fn insert(tree: &mut BlockTree, id: u64, qc: QuorumCert, parent: &Block, round: u64) -> Block {
    let timestamp = parent.timestamp() + 1;
    tree.insert_block_with_qc(id, qc, parent, round, 1, timestamp, Vec::new())
        .unwrap()
}

#[test]
fn test_proposal_generation_empty_tree() {
    let tree = build_empty_tree();
    let mut proposal_generator = ProposalGenerator::new(1, 1);
    let genesis = tree.ordered_root().duplicate();

    let proposal_data = proposal_generator
        .generate_proposal(&tree, 1, Vec::new(), 0)
        .unwrap();
    let proposal = proposal_data.into_block(42);
    assert_eq!(proposal.parent_id(), genesis.id());
    assert_eq!(proposal.round(), 1);
    assert_eq!(proposal.quorum_cert().certified_block().id, genesis.id());

    let proposal_err = proposal_generator
        .generate_proposal(&tree, 1, Vec::new(), 0)
        .err();
    assert!(proposal_err.is_some());
    assert_eq!(proposal_err, Some(ProposalError::DuplicateRound));
}

#[test]
fn test_proposal_generation_parent() {
    let mut tree = build_empty_tree();
    let mut proposal_generator = ProposalGenerator::new(1, 1);
    let genesis = tree.ordered_root().duplicate();
    let a1 = insert(&mut tree, 11, certificate_for_genesis(), &genesis, 1);
    let b1 = insert(&mut tree, 12, certificate_for_genesis(), &genesis, 2);

    assert_eq!(
        proposal_generator
            .generate_proposal(&tree, 10, Vec::new(), 0)
            .unwrap()
            .parent_id(),
        genesis.id()
    );

    tree.insert_qc_for_block(&a1).unwrap();
    let a1_child_res = proposal_generator
        .generate_proposal(&tree, 11, Vec::new(), 0)
        .unwrap();
    assert_eq!(a1_child_res.parent_id(), a1.id());
    assert_eq!(a1_child_res.round(), 11);
    assert_eq!(a1_child_res.quorum_cert().certified_block().id, a1.id());

    tree.insert_qc_for_block(&b1).unwrap();
    let b1_child_res = proposal_generator
        .generate_proposal(&tree, 12, Vec::new(), 0)
        .unwrap();
    assert_eq!(b1_child_res.parent_id(), b1.id());
    assert_eq!(b1_child_res.round(), 12);
    assert_eq!(b1_child_res.quorum_cert().certified_block().id, b1.id());
}

#[test]
fn test_old_proposal_generation() {
    let mut tree = build_empty_tree();
    let mut proposal_generator = ProposalGenerator::new(1, 1);
    let genesis = tree.ordered_root().duplicate();
    let a1 = insert(&mut tree, 11, certificate_for_genesis(), &genesis, 1);
    tree.insert_qc_for_block(&a1).unwrap();

    let proposal_err = proposal_generator
        .generate_proposal(&tree, 1, Vec::new(), 0)
        .err();
    assert!(proposal_err.is_some());
    assert_eq!(proposal_err, Some(ProposalError::OldRound));
}

#[test]
fn stale_retry_stays_old_round() {
    let mut tree = build_empty_tree();
    let mut generator = ProposalGenerator::new(1, 1);
    let genesis = tree.ordered_root().duplicate();
    let a1 = insert(&mut tree, 11, certificate_for_genesis(), &genesis, 1);
    generator.generate_proposal(&tree, 1, Vec::new(), 0).unwrap();
    assert_eq!(
        generator.generate_proposal(&tree, 1, Vec::new(), 0).err(),
        Some(ProposalError::DuplicateRound)
    );
    tree.insert_qc_for_block(&a1).unwrap();
    assert_eq!(
        generator.generate_proposal(&tree, 1, Vec::new(), 0).err(),
        Some(ProposalError::OldRound)
    );
    assert_eq!(
        generator.generate_proposal(&tree, 1, Vec::new(), 900).err(),
        Some(ProposalError::OldRound)
    );
    assert_eq!(generator.last_round_generated(), 1);
}

#[test]
fn certified_round_is_old_even_after_later_proposal() {
    let mut tree = build_empty_tree();
    let mut generator = ProposalGenerator::new(1, 1);
    let genesis = tree.ordered_root().duplicate();
    let a3 = insert(&mut tree, 11, certificate_for_genesis(), &genesis, 3);
    generator.generate_proposal(&tree, 5, Vec::new(), 0).unwrap();
    tree.insert_qc_for_block(&a3).unwrap();
    assert_eq!(
        generator.generate_proposal(&tree, 3, Vec::new(), 0).err(),
        Some(ProposalError::OldRound)
    );
    assert_eq!(
        generator.generate_proposal(&tree, 4, Vec::new(), 0).err(),
        Some(ProposalError::DuplicateRound)
    );
    assert_eq!(generator.last_round_generated(), 5);
}

#[test]
fn select_parent_applies_gates_without_change() {
    let tree = build_empty_tree();
    let mut generator = ProposalGenerator::new(9, 4);
    assert_eq!(generator.author(), 9);
    assert_eq!(generator.max_block_size(), 4);
    assert_eq!(
        generator.select_parent(&tree, 2),
        Ok(BlockInfo { id: GENESIS_ID, round: 0 })
    );
    assert_eq!(generator.select_parent(&tree, 0), Err(ProposalError::OldRound));
    generator.generate_proposal(&tree, 2, vec![5, 6], 0).unwrap();
    assert_eq!(generator.select_parent(&tree, 2), Err(ProposalError::DuplicateRound));
    assert_eq!(generator.last_round_generated(), 2);
}

#[test]
fn proposal_carries_payload_author_and_timestamp() {
    let tree = build_empty_tree();
    let mut generator = ProposalGenerator::new(9, 4);
    let body = generator.generate_proposal(&tree, 1, vec![5, 6], 250).unwrap();
    assert_eq!(body.payload, vec![5, 6]);
    assert_eq!(body.author, 9);
    assert_eq!(body.timestamp(), 250);
    let nudged = generator.generate_proposal(&tree, 2, Vec::new(), 100).unwrap();
    assert_eq!(nudged.timestamp(), 101);
    let earlier = generator.generate_proposal(&tree, 3, Vec::new(), 3).unwrap();
    assert_eq!(earlier.timestamp(), 101);
}

#[test]
fn clock_exhausted_when_parent_has_last_timestamp() {
    let tree = BlockTree::new(Block::genesis(GENESIS_ID, u64::MAX));
    let mut generator = ProposalGenerator::new(1, 1);
    assert_eq!(
        generator.generate_proposal(&tree, 1, Vec::new(), u64::MAX).err(),
        Some(ProposalError::ClockExhausted)
    );
    assert_eq!(generator.last_round_generated(), 0);
}

#[test]
fn insert_block_rejections() {
    let mut tree = build_empty_tree();
    let genesis = tree.ordered_root().duplicate();
    let stranger = Block::genesis(99, 0);
    let qc = certificate_for_genesis();
    assert_eq!(
        tree.insert_block_with_qc(1, qc, &stranger, 1, 0, 200, Vec::new()).err(),
        Some(TreeError::UnknownParent)
    );
    assert_eq!(
        tree.insert_block_with_qc(1, qc, &genesis, 0, 0, 200, Vec::new()).err(),
        Some(TreeError::RoundNotAfterParent)
    );
    let other = QuorumCert::new(BlockInfo { id: 99, round: 0 });
    assert_eq!(
        tree.insert_block_with_qc(1, other, &genesis, 1, 0, 200, Vec::new()).err(),
        Some(TreeError::CertificateMismatch)
    );
    assert_eq!(
        tree.insert_block_with_qc(1, qc, &genesis, 1, 0, 100, Vec::new()).err(),
        Some(TreeError::TimestampNotAfterParent)
    );
    assert_eq!(
        tree.insert_block_with_qc(GENESIS_ID, qc, &genesis, 1, 0, 200, Vec::new()).err(),
        Some(TreeError::DuplicateId)
    );
    let a1 = tree
        .insert_block_with_qc(1, qc, &genesis, 1, 3, 200, vec![8])
        .unwrap();
    assert_eq!(a1.id(), 1);
    assert_eq!(a1.round(), 1);
    assert_eq!(a1.parent_id(), GENESIS_ID);
    assert_eq!(a1.payload, vec![8]);
    assert_eq!(a1.timestamp(), 200);
    assert_eq!(tree.get_block(1).unwrap().info(), a1.info());
    assert!(tree.get_block(2).is_none());
    assert_eq!(tree.ordered_root().id(), GENESIS_ID);
}

#[test]
fn certifying_an_unknown_block_fails() {
    let mut tree = build_empty_tree();
    let stranger = Block::genesis(99, 0);
    assert_eq!(
        tree.insert_qc_for_block(&stranger).err(),
        Some(TreeError::UnknownBlock)
    );
    assert_eq!(tree.highest_certified_block().id(), GENESIS_ID);
}

#[test]
fn certification_order_does_not_matter() {
    let mut first = build_empty_tree();
    let mut second = build_empty_tree();
    let genesis = first.ordered_root().duplicate();
    let mut blocks = Vec::new();
    for (id, round) in [(31u64, 4u64), (30, 4), (20, 2), (10, 3)] {
        blocks.push(insert(&mut first, id, certificate_for_genesis(), &genesis, round));
        insert(&mut second, id, certificate_for_genesis(), &genesis, round);
    }
    for b in blocks.iter() {
        first.insert_qc_for_block(b).unwrap();
    }
    for b in blocks.iter().rev() {
        second.insert_qc_for_block(b).unwrap();
        second.insert_qc_for_block(b).unwrap();
    }
    assert_eq!(first.highest_certified_block().id(), 30);
    assert_eq!(second.highest_certified_block().id(), 30);
    assert_eq!(first.highest_certified_block().round(), 4);
}

#[test]
fn canonical_order_prefers_round_then_lower_id() {
    let a = BlockInfo { id: 5, round: 2 };
    let b = BlockInfo { id: 1, round: 1 };
    let c = BlockInfo { id: 4, round: 2 };
    assert!(precedes(a, b));
    assert!(!precedes(b, a));
    assert!(precedes(c, a));
    assert!(!precedes(a, c));
    assert!(precedes(a, a));
}

#[test]
fn prune_keeps_descendants_of_new_root() {
    let mut tree = build_empty_tree();
    let genesis = tree.ordered_root().duplicate();
    let a1 = insert(&mut tree, 11, certificate_for_genesis(), &genesis, 1);
    let b1 = insert(&mut tree, 12, certificate_for_genesis(), &genesis, 2);
    let a2 = insert(&mut tree, 21, a1.certificate(), &a1, 3);
    let b2 = insert(&mut tree, 22, b1.certificate(), &b1, 4);
    tree.insert_qc_for_block(&b2).unwrap();
    assert_eq!(tree.prune_to(99).err(), Some(TreeError::UnknownBlock));
    assert_eq!(tree.prune_to(a1.id()).err(), Some(TreeError::RootNotCertified));
    tree.insert_qc_for_block(&a1).unwrap();
    assert_eq!(tree.highest_certified_block().id(), b2.id());
    assert_eq!(tree.prune_to(a1.id()), Ok(()));
    assert_eq!(tree.ordered_root().id(), a1.id());
    assert!(tree.get_block(a2.id()).is_some());
    assert!(tree.get_block(GENESIS_ID).is_none());
    assert!(tree.get_block(b1.id()).is_none());
    assert!(tree.get_block(b2.id()).is_none());
    assert_eq!(tree.highest_certified_block().id(), a1.id());
    assert_eq!(
        tree.insert_block_with_qc(30, certificate_for_genesis(), &genesis, 5, 0, 500, Vec::new())
            .err(),
        Some(TreeError::UnknownParent)
    );
    let a3 = insert(&mut tree, 31, a2.certificate(), &a2, 5);
    assert_eq!(a3.parent_id(), a2.id());
}

#[test]
fn payload_request_names_parent_limit_and_deadline() {
    let tree = build_empty_tree();
    let mut generator = ProposalGenerator::new(9, 4);
    let request = generator.payload_request(&tree, 3, 1000, 50).unwrap();
    assert_eq!(
        request,
        PayloadRequest {
            round: 3,
            parent: BlockInfo { id: GENESIS_ID, round: 0 },
            max_size: 4,
            deadline: 1050,
        }
    );
    assert!(request.superseded_by(4));
    assert!(!request.superseded_by(3));
    assert!(!request.superseded_by(2));
    let late = generator.payload_request(&tree, 3, u64::MAX - 1, 50).unwrap();
    assert_eq!(late.deadline, u64::MAX);
    assert_eq!(
        generator.payload_request(&tree, 0, 0, 0),
        Err(ProposalError::OldRound)
    );
    generator.generate_proposal(&tree, 3, Vec::new(), 0).unwrap();
    assert_eq!(
        generator.payload_request(&tree, 3, 0, 0),
        Err(ProposalError::DuplicateRound)
    );
}
