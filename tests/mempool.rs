use bazuka::api::{post_mpn_deposit, post_mpn_withdraw, NodeError, PostMpnDepositRequest, PostMpnWithdrawRequest};
use bazuka::ledger::Ledger;
use bazuka::mempool::{MempoolConfig, MempoolError, Origin};
use bazuka::node::{NodeContext, NodeOptions};
use bazuka::types::{
    Address, Block, ChainSourcedTx, Digest, Header, Money, MpnDepositTx, MpnSourcedTx, MpnWithdrawTx,
    ProofOfStake, TokenId, Transaction, TxData,
};

const ALICE: Address = Address { hi: 1, lo: 1 };
const BOB: Address = Address { hi: 2, lo: 2 };

fn digest_of(height: u64) -> Digest {
    Digest { hi: 4, lo: height as u128 + 1 }
}

fn send(src: Address, nonce: u32) -> Transaction {
    Transaction {
        memo: String::from("pay"),
        src: Some(src),
        nonce,
        data: TxData::RegularSend { entries: vec![] },
        fee: Money { amount: 1, token_id: TokenId::Ziesha },
        sig: vec![1, 2, 3],
    }
}

fn block_at(height: u64, body: Vec<Transaction>) -> Block {
    let parent_hash = if height == 0 { Digest { hi: 0, lo: 0 } } else { digest_of(height - 1) };
    Block {
        header: Header {
            parent_hash,
            height,
            state_root: Digest { hi: 0, lo: height as u128 },
            proof_of_stake: ProofOfStake { timestamp: 0, validator: BOB },
            hash: digest_of(height),
        },
        body,
    }
}

fn deposit(src: Address, nonce: u32, fee: u64) -> MpnDepositTx {
    MpnDepositTx {
        src,
        nonce,
        zk_address: Digest { hi: 8, lo: 8 },
        zk_token_index: 0,
        amount: Money { amount: 50, token_id: TokenId::Ziesha },
        fee: Money { amount: fee, token_id: TokenId::Ziesha },
        sig: vec![],
    }
}

fn withdraw(zk_nonce: u64, fee: u64) -> MpnWithdrawTx {
    MpnWithdrawTx {
        zk_address: Digest { hi: 8, lo: 8 },
        zk_nonce,
        dst: ALICE,
        amount: Money { amount: 5, token_id: TokenId::Ziesha },
        fee: Money { amount: fee, token_id: TokenId::Ziesha },
        sig: vec![],
    }
}

/// Alice has spent nonces 1 and 2 in block 1.
fn context(min_remote_fee: u64, max_remote_entries: usize) -> NodeContext {
    let mut ledger = Ledger::new(block_at(0, vec![])).unwrap();
    ledger.append(block_at(1, vec![send(ALICE, 1), send(ALICE, 2)])).unwrap();
    NodeContext::new(
        ledger,
        MempoolConfig { min_remote_fee, max_remote_entries },
        NodeOptions { max_blocks_fetch: 16 },
    )
}

#[test]
fn last_nonce_reads_stored_blocks() {
    let ctx = context(0, 10);
    assert_eq!(ctx.ledger().last_nonce(Some(ALICE)), 2);
    assert_eq!(ctx.ledger().last_nonce(Some(BOB)), 0);
    assert!(ctx.ledger().nonce_consumed(Some(ALICE), 1));
    assert!(!ctx.ledger().nonce_consumed(Some(ALICE), 3));
}

#[test]
fn stored_nonce_is_refused_local_or_remote() {
    let mut ctx = context(0, 10);
    let tx = ChainSourcedTx::TransactionAndDelta(send(ALICE, 2));
    assert_eq!(ctx.add_chain_sourced(tx.clone(), true, 5), Err(MempoolError::NonceAlreadyUsed));
    assert_eq!(ctx.add_chain_sourced(tx, false, 5), Err(MempoolError::NonceAlreadyUsed));
    let r = post_mpn_deposit(&mut ctx, true, 5, PostMpnDepositRequest { tx: deposit(ALICE, 1, 9) });
    assert_eq!(r, Err(NodeError::Mempool(MempoolError::NonceAlreadyUsed)));
    assert!(ctx.mempool().chain_entries().is_empty());
}

#[test]
fn local_resubmission_replaces_remote_entry() {
    let mut ctx = context(0, 10);
    let tx = ChainSourcedTx::TransactionAndDelta(send(ALICE, 3));
    assert_eq!(ctx.add_chain_sourced(tx.clone(), false, 10), Ok(()));
    assert_eq!(ctx.add_chain_sourced(tx.clone(), false, 11), Err(MempoolError::DuplicatePending));
    assert_eq!(ctx.add_chain_sourced(tx, true, 12), Ok(()));
    let entries = ctx.mempool().chain_entries();
    assert_eq!(entries.len(), 1);
    assert_eq!(entries[0].origin, Origin::Local);
    assert_eq!(entries[0].received_at, 12);
}

#[test]
fn remote_admission_policy() {
    let mut ctx = context(5, 1);
    let cheap = ChainSourcedTx::MpnDeposit(deposit(BOB, 1, 4));
    assert_eq!(ctx.add_chain_sourced(cheap.clone(), false, 1), Err(MempoolError::AdmissionThrottled));
    assert_eq!(ctx.add_chain_sourced(cheap, true, 1), Ok(()));
    let full = ChainSourcedTx::MpnDeposit(deposit(BOB, 2, 100));
    assert_eq!(ctx.add_chain_sourced(full.clone(), false, 1), Err(MempoolError::AdmissionThrottled));
    assert_eq!(ctx.add_chain_sourced(full, true, 1), Ok(()));
    assert_eq!(ctx.mempool().chain_entries().len(), 2);
}

#[test]
fn deposit_and_withdraw_requests() {
    let mut ctx = context(0, 10);
    let r = post_mpn_deposit(&mut ctx, false, 100, PostMpnDepositRequest { tx: deposit(BOB, 1, 1) });
    assert!(r.is_ok());
    let r = post_mpn_deposit(&mut ctx, false, 90, PostMpnDepositRequest { tx: deposit(BOB, 1, 1) });
    assert_eq!(r, Err(NodeError::Mempool(MempoolError::DuplicatePending)));
    let r = post_mpn_withdraw(&mut ctx, false, 90, PostMpnWithdrawRequest { tx: withdraw(7, 1) });
    assert!(r.is_ok());
    // the clock never runs backwards
    assert_eq!(ctx.mempool().mpn_entries()[0].received_at, 100);
    let r = post_mpn_withdraw(&mut ctx, false, 200, PostMpnWithdrawRequest { tx: withdraw(7, 1) });
    assert_eq!(r, Err(NodeError::Mempool(MempoolError::DuplicatePending)));
    let r = post_mpn_withdraw(&mut ctx, true, 200, PostMpnWithdrawRequest { tx: withdraw(7, 2) });
    assert!(r.is_ok());
    assert_eq!(ctx.mempool().mpn_entries().len(), 1);
    assert_eq!(ctx.mempool().mpn_entries()[0].received_at, 200);
    assert_eq!(ctx.mempool().chain_entries().len(), 1);
}

#[test]
fn local_timestamp_is_monotonic() {
    let mut ctx = context(0, 10);
    assert_eq!(ctx.local_timestamp(50), 50);
    assert_eq!(ctx.local_timestamp(40), 50);
    assert_eq!(ctx.local_timestamp(60), 60);
}

#[test]
fn evict_expired_drops_old_entries() {
    let mut ctx = context(0, 10);
    ctx.add_chain_sourced(ChainSourcedTx::TransactionAndDelta(send(BOB, 1)), true, 10).unwrap();
    ctx.add_chain_sourced(ChainSourcedTx::TransactionAndDelta(send(BOB, 2)), true, 20).unwrap();
    ctx.add_mpn_sourced(MpnSourcedTx::MpnWithdraw(withdraw(1, 0)), true, 10).unwrap();
    ctx.evict_expired(30, 15);
    let entries = ctx.mempool().chain_entries();
    assert_eq!(entries.len(), 1);
    assert_eq!(entries[0].tx.nonce(), 2);
    assert!(ctx.mempool().mpn_entries().is_empty());
    ctx.evict_expired(35, 15);
    assert_eq!(ctx.mempool().chain_entries().len(), 1);
}

#[test]
fn included_transactions_leave_the_pool() {
    let mut ctx = context(0, 10);
    ctx.add_chain_sourced(ChainSourcedTx::TransactionAndDelta(send(BOB, 1)), true, 1).unwrap();
    ctx.add_chain_sourced(ChainSourcedTx::TransactionAndDelta(send(BOB, 2)), true, 1).unwrap();
    ctx.append_block(block_at(2, vec![send(BOB, 1)])).unwrap();
    let entries = ctx.mempool().chain_entries();
    assert_eq!(entries.len(), 1);
    assert_eq!(entries[0].tx.nonce(), 2);
}

#[test]
fn rollback_invalidates_gapped_nonces() {
    let mut ctx = context(0, 10);
    ctx.append_block(block_at(2, vec![send(ALICE, 3)])).unwrap();
    ctx.add_chain_sourced(ChainSourcedTx::TransactionAndDelta(send(ALICE, 4)), true, 1).unwrap();
    ctx.add_chain_sourced(ChainSourcedTx::TransactionAndDelta(send(BOB, 5)), true, 1).unwrap();
    ctx.rollback().unwrap();
    // Alice's next nonce is 3 again, so 4 is dropped; Bob was not affected.
    let entries = ctx.mempool().chain_entries();
    assert_eq!(entries.len(), 1);
    assert_eq!(entries[0].tx.sender(), Some(BOB));
}
