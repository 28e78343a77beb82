use bazuka::api::{get_explorer_blocks, GetExplorerBlocksRequest};
use bazuka::ledger::Ledger;
use bazuka::mempool::MempoolConfig;
use bazuka::node::{NodeContext, NodeOptions};
use bazuka::types::{Address, Block, Digest, Header, ProofOfStake};

fn digest_of(height: u64) -> Digest {
    Digest { hi: 7, lo: height as u128 + 1 }
}

fn block_at(height: u64) -> Block {
    let parent_hash = if height == 0 { Digest { hi: 0, lo: 0 } } else { digest_of(height - 1) };
    Block {
        header: Header {
            parent_hash,
            height,
            state_root: Digest { hi: 1, lo: height as u128 },
            proof_of_stake: ProofOfStake { timestamp: 30 * height as u32, validator: Address { hi: 0, lo: 9 } },
            hash: digest_of(height),
        },
        body: vec![],
    }
}

fn test_context() -> NodeContext {
    let mut ledger = Ledger::new(block_at(0)).unwrap();
    for h in 1..=100u64 {
        ledger.append(block_at(h)).unwrap();
    }
    NodeContext::new(
        ledger,
        MempoolConfig { min_remote_fee: 0, max_remote_entries: 1000 },
        NodeOptions { max_blocks_fetch: 16 },
    )
}

fn heights(ctx: &NodeContext, since: u64, count: u32) -> Vec<u64> {
    let resp = get_explorer_blocks(ctx, GetExplorerBlocksRequest { since, count }).unwrap();
    resp.blocks.iter().map(|b| b.header.height).collect::<Vec<_>>()
}

#[test]
fn test_get_explorer_blocks() {
    let ctx = test_context();
    assert_eq!(heights(&ctx, 10, 10), vec![10, 11, 12, 13, 14, 15, 16, 17, 18, 19]);
}

#[test]
fn test_get_explorer_blocks_max() {
    let ctx = test_context();
    assert_eq!(
        heights(&ctx, 10, 10000),
        vec![10, 11, 12, 13, 14, 15, 16, 17, 18, 19, 20, 21, 22, 23, 24, 25]
    );
}

#[test]
fn test_get_explorer_blocks_max_overflow() {
    let ctx = test_context();
    assert_eq!(heights(&ctx, 99, 10000), vec![99, 100]);
}

#[test]
fn test_get_explorer_blocks_non_existing() {
    let ctx = test_context();
    assert!(heights(&ctx, 200, 10).is_empty());
}

#[test]
fn explorer_first_two_blocks() {
    let ctx = test_context();
    let resp = get_explorer_blocks(&ctx, GetExplorerBlocksRequest { since: 0, count: 2 }).unwrap();
    assert_eq!(resp.blocks.len(), 2);
    assert_eq!(resp.blocks[0].header.height, 0);
    assert_eq!(resp.blocks[0].header.parent_hash, Digest { hi: 0, lo: 0 });
    assert_eq!(resp.blocks[1].header.height, 1);
    assert_eq!(resp.blocks[1].header.parent_hash, resp.blocks[0].header.hash);
    assert_eq!(resp.blocks[1].header.proof_of_stake.timestamp, 30);
}

#[test]
fn explorer_count_zero_is_empty() {
    let ctx = test_context();
    assert!(heights(&ctx, 5, 0).is_empty());
}

#[test]
fn explorer_tip_only() {
    let ctx = test_context();
    assert_eq!(heights(&ctx, 100, 3), vec![100]);
    assert!(heights(&ctx, 101, 3).is_empty());
    assert!(heights(&ctx, u64::MAX, u32::MAX).is_empty());
}

#[test]
fn explorer_never_exceeds_requested_or_configured() {
    let ctx = test_context();
    for since in [0u64, 50, 90, 95, 100, 150] {
        for count in [0u32, 1, 5, 16, 17, 1000] {
            let hs = heights(&ctx, since, count);
            assert!(hs.len() <= std::cmp::min(16, count) as usize);
            for (i, h) in hs.iter().enumerate() {
                assert_eq!(*h, since + i as u64);
            }
        }
    }
}

#[test]
fn ledger_get_blocks_is_not_capped() {
    let ctx = test_context();
    let blocks = ctx.ledger().get_blocks(0, 1000);
    assert_eq!(blocks.len(), 101);
    assert_eq!(blocks[100].header.height, 100);
}
