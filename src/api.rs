//! Requests served over the node context: bounded block queries, rollup
//! deposits and withdrawals, and the administrative rollback.
use vstd::prelude::*;
use crate::ledger::{page, tip_height, ChainError};
use crate::mempool::{admitted, MempoolError};
use crate::node::NodeContext;
use crate::types::{Block, ChainSourcedTx, MpnDepositTx, MpnSourcedTx, MpnWithdrawTx};

verus! {

#[derive(Clone, Copy, PartialEq, Eq, Structural, Debug)]
pub struct GetExplorerBlocksRequest {
    pub since: u64,
    pub count: u32,
}

#[derive(Debug)]
pub struct GetExplorerBlocksResponse<'a> {
    pub blocks: Vec<&'a Block>,
}

#[derive(Clone, Debug)]
pub struct PostMpnDepositRequest {
    pub tx: MpnDepositTx,
}

#[derive(Clone, Copy, PartialEq, Eq, Structural, Debug)]
pub struct PostMpnDepositResponse {}

#[derive(Clone, Debug)]
pub struct PostMpnWithdrawRequest {
    pub tx: MpnWithdrawTx,
}

#[derive(Clone, Copy, PartialEq, Eq, Structural, Debug)]
pub struct PostMpnWithdrawResponse {}

#[derive(Clone, Copy, PartialEq, Eq, Structural, Debug)]
pub enum NodeError {
    Chain(ChainError),
    Mempool(MempoolError),
}

/// The number of blocks a query may return: the request's count, capped by
/// the configured maximum.
pub open spec fn effective_count(max_blocks_fetch: u32, count: u32) -> int {
    if count < max_blocks_fetch {
        count as int
    } else {
        max_blocks_fetch as int
    }
}

/// The stored blocks from height `req.since` on, at most as many as the
/// effective count, in ascending order. A `since` above the tip gives none.
pub fn get_explorer_blocks<'a>(context: &'a NodeContext, req: GetExplorerBlocksRequest) -> (r:
    Result<GetExplorerBlocksResponse<'a>, NodeError>)
    requires
        context.wf(),
    ensures
        r is Ok,
        r matches Ok(resp) ==> {
            let eff = effective_count(context.options().max_blocks_fetch, req.count);
            let pg = page(context.chain(), req.since as int, eff);
            &&& resp.blocks@.len() == pg.len()
            &&& forall|i: int| 0 <= i < resp.blocks@.len() ==> *#[trigger] resp.blocks@[i] == pg[i]
            &&& resp.blocks@.len() <= eff
            &&& req.since > tip_height(context.chain()) ==> resp.blocks@.len() == 0
            &&& forall|i: int|
                0 <= i < resp.blocks@.len() ==> (#[trigger] resp.blocks@[i]).header.height
                    == req.since + i
        },
{
    let opts = context.options_value();
    let count = if opts.max_blocks_fetch < req.count {
        opts.max_blocks_fetch
    } else {
        req.count
    };
    let ledger = context.ledger();
    let blocks = ledger.get_blocks(req.since, count);
    proof {
        context.lemma_wf();
        let c = context.chain();
        let pg = page(c, req.since as int, count as int);
        assert forall|i: int| 0 <= i < blocks@.len() implies (#[trigger] blocks@[i]).header.height
            == req.since + i by {
            assert(pg[i] == c[req.since + i]);
        }
    }
    Ok(GetExplorerBlocksResponse { blocks })
}

/// Submits a deposit into the rollup as a chain-sourced transaction,
/// stamped by the context's clock read against `wall_clock`. `is_local`
/// tells whether the submitter is the node's own local interface.
pub fn post_mpn_deposit(
    context: &mut NodeContext,
    is_local: bool,
    wall_clock: u64,
    req: PostMpnDepositRequest,
) -> (r: Result<PostMpnDepositResponse, NodeError>)
    requires
        old(context).wf(),
    ensures
        final(context).wf(),
        ({
            let now = if wall_clock >= old(context).last_stamp() {
                wall_clock
            } else {
                old(context).last_stamp()
            };
            let tx = ChainSourcedTx::MpnDeposit(req.tx);
            &&& final(context).last_stamp() == now
            &&& final(context).options() == old(context).options()
            &&& final(context).pool_config() == old(context).pool_config()
            &&& final(context).chain() == old(context).chain()
            &&& final(context).mpn_pool() == old(context).mpn_pool()
            &&& match old(context).chain_admission(tx, is_local) {
                Ok(()) => r == Ok::<PostMpnDepositResponse, NodeError>(PostMpnDepositResponse {})
                    && admitted(old(context).chain_pool(), final(context).chain_pool(), tx, is_local, now),
                Err(e) => r == Err::<PostMpnDepositResponse, NodeError>(NodeError::Mempool(e))
                    && final(context).chain_pool() == old(context).chain_pool(),
            }
        }),
{
    let now = context.local_timestamp(wall_clock);
    match context.add_chain_sourced(ChainSourcedTx::MpnDeposit(req.tx), is_local, now) {
        Ok(()) => Ok(PostMpnDepositResponse {}),
        Err(e) => Err(NodeError::Mempool(e)),
    }
}

/// Submits a withdrawal out of the rollup as a rollup-sourced transaction,
/// stamped by the context's clock read against `wall_clock`. `is_local`
/// tells whether the submitter is the node's own local interface.
pub fn post_mpn_withdraw(
    context: &mut NodeContext,
    is_local: bool,
    wall_clock: u64,
    req: PostMpnWithdrawRequest,
) -> (r: Result<PostMpnWithdrawResponse, NodeError>)
    requires
        old(context).wf(),
    ensures
        final(context).wf(),
        ({
            let now = if wall_clock >= old(context).last_stamp() {
                wall_clock
            } else {
                old(context).last_stamp()
            };
            let tx = MpnSourcedTx::MpnWithdraw(req.tx);
            &&& final(context).last_stamp() == now
            &&& final(context).options() == old(context).options()
            &&& final(context).pool_config() == old(context).pool_config()
            &&& final(context).chain() == old(context).chain()
            &&& final(context).chain_pool() == old(context).chain_pool()
            &&& match old(context).mpn_admission(tx, is_local) {
                Ok(()) => r == Ok::<PostMpnWithdrawResponse, NodeError>(PostMpnWithdrawResponse {})
                    && admitted(old(context).mpn_pool(), final(context).mpn_pool(), tx, is_local, now),
                Err(e) => r == Err::<PostMpnWithdrawResponse, NodeError>(NodeError::Mempool(e))
                    && final(context).mpn_pool() == old(context).mpn_pool(),
            }
        }),
{
    let now = context.local_timestamp(wall_clock);
    match context.add_mpn_sourced(MpnSourcedTx::MpnWithdraw(req.tx), is_local, now) {
        Ok(()) => Ok(PostMpnWithdrawResponse {}),
        Err(e) => Err(NodeError::Mempool(e)),
    }
}

/// Removes the tip block of the node's chain; fails with `AtGenesis`, and
/// changes nothing, where only the genesis block is left.
pub fn rollback(context: &mut NodeContext) -> (r: Result<(), ChainError>)
    requires
        old(context).wf(),
    ensures
        final(context).wf(),
        final(context).same_settings(old(context)),
        r is Ok <==> old(context).chain().len() > 1,
        r is Ok ==> final(context).chain() == old(context).chain().drop_last(),
        r is Err ==> r == Err::<(), ChainError>(ChainError::AtGenesis) && final(context).chain()
            == old(context).chain() && final(context).chain_pool() == old(context).chain_pool()
            && final(context).mpn_pool() == old(context).mpn_pool(),
{
    context.rollback()
}

} // verus!
