use bazuka::api::{rollback, NodeError};
use bazuka::ledger::{ChainError, Ledger};
use bazuka::mempool::MempoolConfig;
use bazuka::node::{NodeContext, NodeOptions};
use bazuka::types::{Address, Block, Digest, Header, ProofOfStake};

fn digest_of(height: u64) -> Digest {
    Digest { hi: 3, lo: height as u128 + 100 }
}

fn block_at(height: u64) -> Block {
    let parent_hash = if height == 0 { Digest { hi: 0, lo: 0 } } else { digest_of(height - 1) };
    Block {
        header: Header {
            parent_hash,
            height,
            state_root: Digest { hi: 2, lo: height as u128 * 11 },
            proof_of_stake: ProofOfStake { timestamp: height as u32, validator: Address { hi: 5, lo: 5 } },
            hash: digest_of(height),
        },
        body: vec![],
    }
}

#[test]
fn new_rejects_non_genesis() {
    assert_eq!(Ledger::new(block_at(1)).err(), Some(ChainError::InvalidParent));
    let mut b = block_at(0);
    b.header.parent_hash = Digest { hi: 0, lo: 1 };
    assert_eq!(Ledger::new(b).err(), Some(ChainError::InvalidParent));
}

#[test]
fn append_checks_height_and_parent() {
    let mut l = Ledger::new(block_at(0)).unwrap();
    assert_eq!(l.append(block_at(1)), Ok(()));
    assert_eq!(l.height(), 1);
    assert_eq!(l.append(block_at(1)), Err(ChainError::HeightConflict));
    assert_eq!(l.append(block_at(0)), Err(ChainError::HeightConflict));
    assert_eq!(l.append(block_at(3)), Err(ChainError::InvalidParent));
    let mut wrong = block_at(2);
    wrong.header.parent_hash = Digest { hi: 9, lo: 9 };
    assert_eq!(l.append(wrong), Err(ChainError::InvalidParent));
    assert_eq!(l.height(), 1);
    assert_eq!(l.tip_hash(), digest_of(1));
}

#[test]
fn rollback_undoes_append() {
    let mut l = Ledger::new(block_at(0)).unwrap();
    l.append(block_at(1)).unwrap();
    let (h, t, s) = (l.height(), l.tip_hash(), l.state_root());
    l.append(block_at(2)).unwrap();
    assert_eq!(l.height(), 2);
    assert_eq!(l.state_root(), Digest { hi: 2, lo: 22 });
    assert_eq!(l.rollback(), Ok(()));
    assert_eq!((l.height(), l.tip_hash(), l.state_root()), (h, t, s));
}

#[test]
fn rollback_at_genesis_fails() {
    let mut l = Ledger::new(block_at(0)).unwrap();
    assert_eq!(l.rollback(), Err(ChainError::AtGenesis));
    assert_eq!(l.height(), 0);
    assert_eq!(l.tip_hash(), digest_of(0));
    assert_eq!(l.state_root(), Digest { hi: 2, lo: 0 });
}

#[test]
fn node_rollback_command() {
    let mut l = Ledger::new(block_at(0)).unwrap();
    l.append(block_at(1)).unwrap();
    let mut ctx = NodeContext::new(
        l,
        MempoolConfig { min_remote_fee: 0, max_remote_entries: 10 },
        NodeOptions { max_blocks_fetch: 16 },
    );
    assert_eq!(rollback(&mut ctx), Ok(()));
    assert_eq!(ctx.ledger().height(), 0);
    assert_eq!(rollback(&mut ctx), Err(ChainError::AtGenesis));
    assert_eq!(ctx.ledger().height(), 0);
    let e: NodeError = NodeError::Chain(ChainError::AtGenesis);
    assert_eq!(e, NodeError::Chain(ChainError::AtGenesis));
}

#[test]
fn node_append_then_rollback() {
    let mut ctx = NodeContext::new(
        Ledger::new(block_at(0)).unwrap(),
        MempoolConfig { min_remote_fee: 0, max_remote_entries: 10 },
        NodeOptions { max_blocks_fetch: 16 },
    );
    assert_eq!(ctx.append_block(block_at(2)), Err(ChainError::InvalidParent));
    assert_eq!(ctx.append_block(block_at(1)), Ok(()));
    assert_eq!(ctx.ledger().tip_hash(), digest_of(1));
    assert_eq!(ctx.rollback(), Ok(()));
    assert_eq!(ctx.ledger().tip_hash(), digest_of(0));
    assert_eq!(ctx.rollback(), Err(ChainError::AtGenesis));
}
