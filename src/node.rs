//! The node context: the one owner of the ledger and the mempool, through
//! which every query and mutation goes. Callers serialize access to it.
use vstd::prelude::*;
use crate::ledger::{lemma_stored_nonce_consumed, append_outcome, last_nonce, linked, nonce_consumed, ChainError, Ledger};
use crate::mempool::{
    chain_admission, mpn_admission, Origin, PoolKeyed, admitted, fresh_pred, has_key, keys_unique, lemma_filter_keeps_unique, unconsumed_pred,
    valid_pred, Mempool, MempoolConfig, MempoolEntry, MempoolError,
};
use crate::types::{Address, Block, ChainSourcedTx, MpnSourcedTx, Transaction};

verus! {

#[derive(Clone, Copy, PartialEq, Eq, Structural, Debug)]
pub struct NodeOptions {
    /// Most blocks that one explorer query returns.
    pub max_blocks_fetch: u32,
}

/// No pending chain-sourced entry spends a nonce that the chain has consumed.
pub open spec fn pool_unconsumed(pool: Seq<MempoolEntry<ChainSourcedTx>>, chain: Seq<Block>) -> bool {
    forall|i: int|
        0 <= i < pool.len() ==> !nonce_consumed(
            chain,
            (#[trigger] pool[i]).tx.sender_spec(),
            pool[i].tx.nonce_spec(),
        )
}

/// The source accounts of a list of transactions.
pub open spec fn tx_sources(txs: Seq<Transaction>) -> Seq<Option<Address>> {
    txs.map_values(|t: Transaction| t.src)
}

/// Removing the tip never raises the last nonce of an account.
pub proof fn lemma_last_nonce_drop_last(chain: Seq<Block>, src: Option<Address>)
    requires
        chain.len() > 0,
    ensures
        last_nonce(chain.drop_last(), src) <= last_nonce(chain, src),
{
}

/// Filtering a well-formed partition keeps its keys unique and, where no
/// account's last nonce grew, keeps every entry unconsumed.
proof fn lemma_filter_unconsumed(
    pool: Seq<MempoolEntry<ChainSourcedTx>>,
    p: spec_fn(MempoolEntry<ChainSourcedTx>) -> bool,
    before: Seq<Block>,
    after: Seq<Block>,
)
    requires
        keys_unique(pool),
        pool_unconsumed(pool, before),
        forall|s: Option<Address>| last_nonce(after, s) <= last_nonce(before, s),
    ensures
        keys_unique(pool.filter(p)),
        pool_unconsumed(pool.filter(p), after),
{
    lemma_filter_keeps_unique(pool, p);
    let f = pool.filter(p);
    assert forall|m: int| 0 <= m < f.len() implies !nonce_consumed(
        after,
        (#[trigger] f[m]).tx.sender_spec(),
        f[m].tx.nonce_spec(),
    ) by {
        let j = choose|j: int| 0 <= j < pool.len() && f[m] == pool[j];
        assert(!nonce_consumed(before, pool[j].tx.sender_spec(), pool[j].tx.nonce_spec()));
    }
}

pub struct NodeContext {
    ledger: Ledger,
    mempool: Mempool,
    opts: NodeOptions,
    last_stamp: u64,
}

impl NodeContext {
    pub closed spec fn chain(&self) -> Seq<Block> {
        self.ledger@
    }

    pub closed spec fn chain_pool(&self) -> Seq<MempoolEntry<ChainSourcedTx>> {
        self.mempool.chain_pool()
    }

    pub closed spec fn mpn_pool(&self) -> Seq<MempoolEntry<MpnSourcedTx>> {
        self.mempool.mpn_pool()
    }

    pub closed spec fn pool_config(&self) -> MempoolConfig {
        self.mempool.config_spec()
    }

    /// What `add_chain_sourced` answers for `tx`.
    pub open spec fn chain_admission(&self, tx: ChainSourcedTx, is_local: bool) -> Result<
        (),
        MempoolError,
    > {
        chain_admission(self.chain_pool(), self.pool_config(), self.chain(), tx, is_local)
    }

    /// What `add_mpn_sourced` answers for `tx`.
    pub open spec fn mpn_admission(&self, tx: MpnSourcedTx, is_local: bool) -> Result<
        (),
        MempoolError,
    > {
        mpn_admission(self.mpn_pool(), self.pool_config(), tx, is_local)
    }

    /// Everything but the ledger and the pending entries is as in `other`.
    pub open spec fn same_settings(&self, other: &NodeContext) -> bool {
        &&& self.options() == other.options()
        &&& self.last_stamp() == other.last_stamp()
        &&& self.pool_config() == other.pool_config()
    }

    pub closed spec fn options(&self) -> NodeOptions {
        self.opts
    }

    /// The last timestamp handed out by `local_timestamp`.
    pub closed spec fn last_stamp(&self) -> u64 {
        self.last_stamp
    }

    pub closed spec fn wf(&self) -> bool {
        &&& self.ledger.wf()
        &&& self.mempool.wf()
        &&& pool_unconsumed(self.mempool.chain_pool(), self.ledger@)
    }

    /// Properties that hold of every well-formed context.
    pub proof fn lemma_wf(&self)
        requires
            self.wf(),
        ensures
            linked(self.chain()),
            keys_unique(self.chain_pool()),
            keys_unique(self.mpn_pool()),
            pool_unconsumed(self.chain_pool(), self.chain()),
    {
    }

    /// A context over `ledger` with an empty mempool.
    pub fn new(ledger: Ledger, config: MempoolConfig, opts: NodeOptions) -> (r: NodeContext)
        requires
            ledger.wf(),
        ensures
            r.wf(),
            r.chain() == ledger@,
            r.chain_pool().len() == 0,
            r.mpn_pool().len() == 0,
            r.pool_config() == config,
            r.options() == opts,
            r.last_stamp() == 0,
    {
        NodeContext { ledger, mempool: Mempool::new(config), opts, last_stamp: 0 }
    }

    pub fn ledger(&self) -> (r: &Ledger)
        requires
            self.wf(),
        ensures
            r.wf(),
            r@ == self.chain(),
    {
        &self.ledger
    }

    pub fn mempool(&self) -> (r: &Mempool)
        requires
            self.wf(),
        ensures
            r.wf(),
            r.chain_pool() == self.chain_pool(),
            r.mpn_pool() == self.mpn_pool(),
            r.config_spec() == self.pool_config(),
    {
        &self.mempool
    }

    pub fn options_value(&self) -> (r: NodeOptions)
        ensures
            r == self.options(),
    {
        self.opts
    }

    /// A timestamp for stamping mempool entries: the wall clock, but never
    /// earlier than a timestamp handed out before.
    pub fn local_timestamp(&mut self, wall_clock: u64) -> (r: u64)
        ensures
            r == if wall_clock >= old(self).last_stamp() { wall_clock } else { old(self).last_stamp() },
            final(self).last_stamp() == r,
            final(self).chain() == old(self).chain(),
            final(self).chain_pool() == old(self).chain_pool(),
            final(self).mpn_pool() == old(self).mpn_pool(),
            final(self).pool_config() == old(self).pool_config(),
            final(self).options() == old(self).options(),
            old(self).wf() ==> final(self).wf(),
    {
        if wall_clock > self.last_stamp {
            self.last_stamp = wall_clock;
        }
        self.last_stamp
    }

    /// Appends `block` to the chain; the pending chain-sourced entries whose
    /// nonces it consumes leave the mempool.
    pub fn append_block(&mut self, block: Block) -> (r: Result<(), ChainError>)
        requires
            old(self).wf(),
        ensures
            final(self).wf(),
            final(self).same_settings(old(self)),
            r == append_outcome(old(self).chain(), block),
            final(self).mpn_pool() == old(self).mpn_pool(),
            r is Ok ==> final(self).chain() == old(self).chain().push(block)
                && final(self).chain_pool() == old(self).chain_pool().filter(
                unconsumed_pred(final(self).chain()),
            ),
            r is Err ==> final(self).chain() == old(self).chain() && final(self).chain_pool()
                == old(self).chain_pool(),
    {
        let r = self.ledger.append(block);
        if r.is_err() {
            return r;
        }
        self.mempool.drop_consumed(&self.ledger);
        proof {
            let c = self.ledger@;
            let f = old(self).mempool.chain_pool().filter(unconsumed_pred(c));
            assert forall|m: int| 0 <= m < f.len() implies !nonce_consumed(
                c,
                (#[trigger] f[m]).tx.sender_spec(),
                f[m].tx.nonce_spec(),
            ) by {
                old(self).mempool.chain_pool().lemma_filter_pred(unconsumed_pred(c), m);
            }
        }
        r
    }

    /// Removes the tip block. The pending chain-sourced entries of the
    /// accounts that sent its transactions stay only where their nonce is
    /// the next one the shortened chain expects.
    pub fn rollback(&mut self) -> (r: Result<(), ChainError>)
        requires
            old(self).wf(),
        ensures
            final(self).wf(),
            final(self).same_settings(old(self)),
            final(self).mpn_pool() == old(self).mpn_pool(),
            r is Ok <==> old(self).chain().len() > 1,
            r is Ok ==> final(self).chain() == old(self).chain().drop_last()
                && final(self).chain_pool() == old(self).chain_pool().filter(
                valid_pred(final(self).chain(), tx_sources(old(self).chain().last().body@)),
            ),
            r is Err ==> r == Err::<(), ChainError>(ChainError::AtGenesis) && final(self).chain()
                == old(self).chain() && final(self).chain_pool() == old(self).chain_pool(),
    {
        let affected = sources_of(self.ledger.tip());
        let r = self.ledger.rollback();
        if r.is_err() {
            return r;
        }
        self.mempool.invalidate_after_rollback(&self.ledger, &affected);
        proof {
            let before = old(self).ledger@;
            assert forall|s: Option<Address>| last_nonce(self.ledger@, s) <= last_nonce(before, s) by {
                lemma_last_nonce_drop_last(before, s);
            }
            lemma_filter_unconsumed(
                old(self).mempool.chain_pool(),
                valid_pred(self.ledger@, affected@),
                before,
                self.ledger@,
            );
        }
        r
    }

    /// Admits a chain-sourced transaction received at `now`; see
    /// `Mempool::add_chain_sourced`.
    pub fn add_chain_sourced(&mut self, tx: ChainSourcedTx, is_local: bool, now: u64) -> (r: Result<
        (),
        MempoolError,
    >)
        requires
            old(self).wf(),
        ensures
            final(self).wf(),
            final(self).same_settings(old(self)),
            r == old(self).chain_admission(tx, is_local),
            final(self).chain() == old(self).chain(),
            final(self).mpn_pool() == old(self).mpn_pool(),
            r is Err ==> final(self).chain_pool() == old(self).chain_pool(),
            r is Ok ==> admitted(old(self).chain_pool(), final(self).chain_pool(), tx, is_local, now),
    {
        let r = self.mempool.add_chain_sourced(&self.ledger, tx, is_local, now);
        proof {
            if r is Ok {
                let p = self.mempool.chain_pool();
                let q = old(self).mempool.chain_pool();
                let c = self.ledger@;
                assert forall|m: int| 0 <= m < p.len() implies !nonce_consumed(
                    c,
                    (#[trigger] p[m]).tx.sender_spec(),
                    p[m].tx.nonce_spec(),
                ) by {
                    if has_key(q, tx) {
                        let i = choose|i: int|
                            0 <= i < q.len() && (#[trigger] q[i]).tx.same_key(&tx) && p == q.update(
                                i,
                                MempoolEntry {
                                    tx,
                                    origin: if is_local { Origin::Local } else { Origin::Remote },
                                    received_at: now,
                                },
                            );
                        if m != i {
                            assert(p[m] == q[m]);
                        }
                    } else if m < q.len() {
                        assert(p[m] == q[m]);
                    }
                }
            }
        }
        r
    }

    /// Admits a rollup-sourced transaction received at `now`; see
    /// `Mempool::add_mpn_sourced`.
    pub fn add_mpn_sourced(&mut self, tx: MpnSourcedTx, is_local: bool, now: u64) -> (r: Result<
        (),
        MempoolError,
    >)
        requires
            old(self).wf(),
        ensures
            final(self).wf(),
            final(self).same_settings(old(self)),
            r == old(self).mpn_admission(tx, is_local),
            final(self).chain() == old(self).chain(),
            final(self).chain_pool() == old(self).chain_pool(),
            r is Err ==> final(self).mpn_pool() == old(self).mpn_pool(),
            r is Ok ==> admitted(old(self).mpn_pool(), final(self).mpn_pool(), tx, is_local, now),
    {
        self.mempool.add_mpn_sourced(tx, is_local, now)
    }

    /// Removes the pending entries received more than `ttl` before `now`.
    pub fn evict_expired(&mut self, now: u64, ttl: u64)
        requires
            old(self).wf(),
        ensures
            final(self).wf(),
            final(self).same_settings(old(self)),
            final(self).chain() == old(self).chain(),
            final(self).chain_pool() == old(self).chain_pool().filter(fresh_pred(now, ttl)),
            final(self).mpn_pool() == old(self).mpn_pool().filter(fresh_pred(now, ttl)),
    {
        self.mempool.evict_expired(now, ttl);
        proof {
            let c = self.ledger@;
            lemma_filter_unconsumed(old(self).mempool.chain_pool(), fresh_pred(now, ttl), c, c);
        }
    }
}

/// A chain-sourced submission that spends the account and nonce of a
/// transaction in a stored block is refused with `NonceAlreadyUsed`, whether
/// it is local or remote.
pub proof fn lemma_stored_nonce_refused(
    ctx: NodeContext,
    tx: ChainSourcedTx,
    is_local: bool,
    i: int,
    j: int,
)
    requires
        ctx.wf(),
        0 <= i < ctx.chain().len(),
        0 <= j < ctx.chain()[i].body@.len(),
        ctx.chain()[i].body@[j].src == tx.sender_spec(),
        ctx.chain()[i].body@[j].nonce == tx.nonce_spec(),
    ensures
        ctx.chain_admission(tx, is_local) == Err::<(), MempoolError>(MempoolError::NonceAlreadyUsed),
{
    lemma_stored_nonce_consumed(ctx.chain(), i, j);
}

/// Resubmitting the key of a pending remote entry: a local submission is
/// admitted and takes exactly that entry's place, a remote one is refused
/// with `DuplicatePending`.
pub proof fn lemma_resubmission(ctx: NodeContext, tx: ChainSourcedTx, k: int, now: u64)
    requires
        ctx.wf(),
        0 <= k < ctx.chain_pool().len(),
        ctx.chain_pool()[k].tx.same_key(&tx),
        ctx.chain_pool()[k].origin == Origin::Remote,
    ensures
        ctx.chain_admission(tx, true) is Ok,
        ctx.chain_admission(tx, false) == Err::<(), MempoolError>(MempoolError::DuplicatePending),
        forall|after: Seq<MempoolEntry<ChainSourcedTx>>|
            #[trigger] admitted(ctx.chain_pool(), after, tx, true, now) ==> after == ctx.chain_pool().update(
                k,
                MempoolEntry { tx, origin: Origin::Local, received_at: now },
            ),
{
    let p = ctx.chain_pool();
    ctx.lemma_wf();
    assert(has_key(p, tx));
    assert(!nonce_consumed(ctx.chain(), p[k].tx.sender_spec(), p[k].tx.nonce_spec()));
    assert forall|after: Seq<MempoolEntry<ChainSourcedTx>>|
        #[trigger] admitted(p, after, tx, true, now) implies after == p.update(
            k,
            MempoolEntry { tx, origin: Origin::Local, received_at: now },
        ) by {
        let i = choose|i: int|
            0 <= i < p.len() && (#[trigger] p[i]).tx.same_key(&tx) && after == p.update(
                i,
                MempoolEntry { tx, origin: Origin::Local, received_at: now },
            );
        if i < k {
            assert(!p[i].tx.same_key(&p[k].tx));
        } else if k < i {
            assert(!p[k].tx.same_key(&p[i].tx));
        }
    }
}

/// The source accounts of a block's transactions.
pub fn sources_of(b: &Block) -> (r: Vec<Option<Address>>)
    ensures
        r@ == tx_sources(b.body@),
{
    let mut out: Vec<Option<Address>> = Vec::new();
    let mut i: usize = 0;
    while i < b.body.len()
        invariant
            i <= b.body@.len(),
            out@ == tx_sources(b.body@.subrange(0, i as int)),
        decreases b.body@.len() - i,
    {
        out.push(b.body[i].src);
        i = i + 1;
        assert(out@ =~= tx_sources(b.body@.subrange(0, i as int)));
    }
    assert(b.body@.subrange(0, i as int) =~= b.body@);
    out
}

} // verus!
