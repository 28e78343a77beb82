//! The pool of pending transactions, in two partitions: chain-sourced and
//! rollup-sourced. Each partition holds at most one entry per key.
use vstd::prelude::*;
use crate::ledger::{last_nonce, nonce_consumed, same_source, Ledger};
use crate::types::{Address, Block, ChainSourcedTx, MpnSourcedTx};

verus! {

#[derive(Clone, Copy, PartialEq, Eq, Structural, Debug)]
pub enum Origin {
    Local,
    Remote,
}

#[derive(Clone, Copy, PartialEq, Eq, Structural, Debug)]
pub enum MempoolError {
    /// The ledger has already consumed the transaction's nonce.
    NonceAlreadyUsed,
    /// A remote submission repeats the key of a pending entry.
    DuplicatePending,
    /// A remote submission fails the admission policy.
    AdmissionThrottled,
}

#[derive(Clone, Debug)]
pub struct MempoolEntry<T> {
    pub tx: T,
    pub origin: Origin,
    pub received_at: u64,
}

/// Admission policy for remote submissions; local ones are exempt.
#[derive(Clone, Copy, PartialEq, Eq, Structural, Debug)]
pub struct MempoolConfig {
    /// Smallest fee amount a remote submission may carry.
    pub min_remote_fee: u64,
    /// A remote submission that would add an entry to a partition already
    /// holding this many is refused.
    pub max_remote_entries: usize,
}

/// Transactions that a pool keys: two entries with the same key never coexist.
pub trait PoolKeyed {
    spec fn same_key(&self, other: &Self) -> bool;
}

impl PoolKeyed for ChainSourcedTx {
    open spec fn same_key(&self, other: &Self) -> bool {
        self.sender_spec() == other.sender_spec() && self.nonce_spec() == other.nonce_spec()
    }
}

impl PoolKeyed for MpnSourcedTx {
    open spec fn same_key(&self, other: &Self) -> bool {
        self.zk_address_spec() == other.zk_address_spec() && self.zk_nonce_spec()
            == other.zk_nonce_spec()
    }
}

pub open spec fn keys_unique<T: PoolKeyed>(s: Seq<MempoolEntry<T>>) -> bool {
    forall|i: int, j: int|
        #![trigger s[i], s[j]]
        0 <= i < j < s.len() ==> !s[i].tx.same_key(&s[j].tx)
}

pub open spec fn has_key<T: PoolKeyed>(s: Seq<MempoolEntry<T>>, tx: T) -> bool {
    exists|i: int| 0 <= i < s.len() && (#[trigger] s[i].tx).same_key(&tx)
}

/// The partition `after` is `before` with `tx` admitted at `now`: the entry
/// replaces the one with the same key, or else comes last.
pub open spec fn admitted<T: PoolKeyed>(
    before: Seq<MempoolEntry<T>>,
    after: Seq<MempoolEntry<T>>,
    tx: T,
    is_local: bool,
    now: u64,
) -> bool {
    let e = MempoolEntry {
        tx,
        origin: if is_local { Origin::Local } else { Origin::Remote },
        received_at: now,
    };
    if has_key(before, tx) {
        exists|i: int|
            0 <= i < before.len() && (#[trigger] before[i]).tx.same_key(&tx) && after
                == before.update(i, e)
    } else {
        after == before.push(e)
    }
}

/// A chain-sourced entry whose nonce `chain` has not consumed.
pub open spec fn unconsumed_pred(chain: Seq<Block>) -> spec_fn(MempoolEntry<ChainSourcedTx>) -> bool {
    |e: MempoolEntry<ChainSourcedTx>| !nonce_consumed(chain, e.tx.sender_spec(), e.tx.nonce_spec())
}

/// An entry is fresh at `now` unless it was received more than `ttl` before.
pub open spec fn is_fresh<T>(e: MempoolEntry<T>, now: u64, ttl: u64) -> bool {
    now - e.received_at <= ttl
}

pub open spec fn fresh_pred<T>(now: u64, ttl: u64) -> spec_fn(MempoolEntry<T>) -> bool {
    |e: MempoolEntry<T>| is_fresh(e, now, ttl)
}

/// After a rollback, a pending chain-sourced entry of an affected account
/// stays only if its nonce is the next one the chain expects of that account.
pub open spec fn still_valid(
    e: MempoolEntry<ChainSourcedTx>,
    chain: Seq<Block>,
    affected: Seq<Option<Address>>,
) -> bool {
    affected.contains(e.tx.sender_spec()) ==> e.tx.nonce_spec() == last_nonce(
        chain,
        e.tx.sender_spec(),
    ) + 1
}

pub open spec fn valid_pred(chain: Seq<Block>, affected: Seq<Option<Address>>) -> spec_fn(
    MempoolEntry<ChainSourcedTx>,
) -> bool {
    |e: MempoolEntry<ChainSourcedTx>| still_valid(e, chain, affected)
}

/// Filtering a partition keeps its keys unique.
pub proof fn lemma_filter_keeps_unique<T: PoolKeyed>(
    s: Seq<MempoolEntry<T>>,
    p: spec_fn(MempoolEntry<T>) -> bool,
)
    requires
        keys_unique(s),
    ensures
        keys_unique(s.filter(p)),
        forall|m: int|
            0 <= m < s.filter(p).len() ==> exists|j: int|
                0 <= j < s.len() && #[trigger] s.filter(p)[m] == s[j],
    decreases s.len(),
{
    reveal(Seq::filter);
    if s.len() > 0 {
        let d = s.drop_last();
        assert(keys_unique(d)) by {
            assert forall|i: int, j: int| 0 <= i < j < d.len() implies !d[i].tx.same_key(&d[j].tx) by {
                assert(d[i] == s[i] && d[j] == s[j]);
            }
        }
        lemma_filter_keeps_unique(d, p);
        let f = s.filter(p);
        let fd = d.filter(p);
        assert forall|m: int| 0 <= m < f.len() implies exists|j: int|
            0 <= j < s.len() && #[trigger] f[m] == s[j] by {
            if m < fd.len() {
                let j = choose|j: int| 0 <= j < d.len() && fd[m] == d[j];
                assert(f[m] == s[j]);
            } else {
                assert(f[m] == s[s.len() - 1]);
            }
        }
        if p(s.last()) {
            assert forall|i: int, j: int| 0 <= i < j < f.len() implies !f[i].tx.same_key(&f[j].tx) by {
                if j < fd.len() {
                    assert(f[i] == fd[i] && f[j] == fd[j]);
                } else {
                    let k = choose|k: int| 0 <= k < d.len() && fd[i] == d[k];
                    assert(f[i] == s[k]);
                    assert(f[j] == s[s.len() - 1]);
                }
            }
        }
    }
}

/// The answer to a chain-sourced submission: a consumed nonce is refused
/// first; a pending key is replaced by a local submission and refused to a
/// remote one; a new remote entry must meet the fee floor and find room.
pub open spec fn chain_admission(
    pool: Seq<MempoolEntry<ChainSourcedTx>>,
    config: MempoolConfig,
    chain: Seq<Block>,
    tx: ChainSourcedTx,
    is_local: bool,
) -> Result<(), MempoolError> {
    if nonce_consumed(chain, tx.sender_spec(), tx.nonce_spec()) {
        Err(MempoolError::NonceAlreadyUsed)
    } else if has_key(pool, tx) {
        if is_local {
            Ok(())
        } else {
            Err(MempoolError::DuplicatePending)
        }
    } else if !is_local && (tx.fee_spec().amount < config.min_remote_fee || pool.len()
        >= config.max_remote_entries) {
        Err(MempoolError::AdmissionThrottled)
    } else {
        Ok(())
    }
}

/// The answer to a rollup-sourced submission, by the same policy without the
/// ledger's nonce check.
pub open spec fn mpn_admission(
    pool: Seq<MempoolEntry<MpnSourcedTx>>,
    config: MempoolConfig,
    tx: MpnSourcedTx,
    is_local: bool,
) -> Result<(), MempoolError> {
    if has_key(pool, tx) {
        if is_local {
            Ok(())
        } else {
            Err(MempoolError::DuplicatePending)
        }
    } else if !is_local && (tx.fee_spec().amount < config.min_remote_fee || pool.len()
        >= config.max_remote_entries) {
        Err(MempoolError::AdmissionThrottled)
    } else {
        Ok(())
    }
}

/// Keeps the entries that are fresh at `now`, in their order.
fn keep_fresh<T>(entries: Vec<MempoolEntry<T>>, now: u64, ttl: u64) -> (r: Vec<MempoolEntry<T>>)
    ensures
        r@ == entries@.filter(fresh_pred(now, ttl)),
{
    let ghost orig = entries@;
    let mut rest = entries;
    let mut out: Vec<MempoolEntry<T>> = Vec::new();
    while rest.len() > 0
        invariant
            rest@.len() <= orig.len(),
            rest@ == orig.subrange(orig.len() - rest@.len(), orig.len() as int),
            out@ == orig.subrange(0, orig.len() - rest@.len()).filter(fresh_pred(now, ttl)),
        decreases rest@.len(),
    {
        let ghost k = orig.len() - rest@.len();
        let e = rest.remove(0);
        proof {
            reveal(Seq::filter);
            assert(e == orig[k]);
            assert(orig.subrange(0, k + 1).drop_last() =~= orig.subrange(0, k));
            assert(rest@ =~= orig.subrange(k + 1, orig.len() as int));
        }
        if now < e.received_at || now - e.received_at <= ttl {
            out.push(e);
        }
    }
    assert(orig.subrange(0, orig.len() as int) =~= orig);
    out
}

/// Keeps the entries that stay valid after a rollback left `chain` behind,
/// in their order.
fn keep_valid(
    entries: Vec<MempoolEntry<ChainSourcedTx>>,
    chain: &Ledger,
    affected: &Vec<Option<Address>>,
) -> (r: Vec<MempoolEntry<ChainSourcedTx>>)
    ensures
        r@ == entries@.filter(valid_pred(chain@, affected@)),
{
    let ghost orig = entries@;
    let mut rest = entries;
    let mut out: Vec<MempoolEntry<ChainSourcedTx>> = Vec::new();
    while rest.len() > 0
        invariant
            rest@.len() <= orig.len(),
            rest@ == orig.subrange(orig.len() - rest@.len(), orig.len() as int),
            out@ == orig.subrange(0, orig.len() - rest@.len()).filter(valid_pred(chain@, affected@)),
        decreases rest@.len(),
    {
        let ghost k = orig.len() - rest@.len();
        let e = rest.remove(0);
        proof {
            reveal(Seq::filter);
            assert(e == orig[k]);
            assert(orig.subrange(0, k + 1).drop_last() =~= orig.subrange(0, k));
            assert(rest@ =~= orig.subrange(k + 1, orig.len() as int));
        }
        let src = e.tx.sender();
        let keep = if contains_source(affected, src) {
            let last = chain.last_nonce(src);
            let n = e.tx.nonce();
            n > last && n - last == 1
        } else {
            true
        };
        if keep {
            out.push(e);
        }
    }
    assert(orig.subrange(0, orig.len() as int) =~= orig);
    out
}

/// Keeps the entries whose nonce `chain` has not consumed, in their order.
fn keep_unconsumed(
    entries: Vec<MempoolEntry<ChainSourcedTx>>,
    chain: &Ledger,
) -> (r: Vec<MempoolEntry<ChainSourcedTx>>)
    ensures
        r@ == entries@.filter(unconsumed_pred(chain@)),
{
    let ghost orig = entries@;
    let mut rest = entries;
    let mut out: Vec<MempoolEntry<ChainSourcedTx>> = Vec::new();
    while rest.len() > 0
        invariant
            rest@.len() <= orig.len(),
            rest@ == orig.subrange(orig.len() - rest@.len(), orig.len() as int),
            out@ == orig.subrange(0, orig.len() - rest@.len()).filter(unconsumed_pred(chain@)),
        decreases rest@.len(),
    {
        let ghost k = orig.len() - rest@.len();
        let e = rest.remove(0);
        proof {
            reveal(Seq::filter);
            assert(e == orig[k]);
            assert(orig.subrange(0, k + 1).drop_last() =~= orig.subrange(0, k));
            assert(rest@ =~= orig.subrange(k + 1, orig.len() as int));
        }
        let keep = !chain.nonce_consumed(e.tx.sender(), e.tx.nonce());
        if keep {
            out.push(e);
        }
    }
    assert(orig.subrange(0, orig.len() as int) =~= orig);
    out
}

/// Whether `x` is one of `s`.
fn contains_source(s: &Vec<Option<Address>>, x: Option<Address>) -> (r: bool)
    ensures
        r == s@.contains(x),
{
    let mut i: usize = 0;
    while i < s.len()
        invariant
            i <= s@.len(),
            forall|k: int| 0 <= k < i ==> s@[k] != x,
        decreases s@.len() - i,
    {
        if same_source(s[i], x) {
            return true;
        }
        i = i + 1;
    }
    false
}

pub struct Mempool {
    chain_sourced: Vec<MempoolEntry<ChainSourcedTx>>,
    mpn_sourced: Vec<MempoolEntry<MpnSourcedTx>>,
    config: MempoolConfig,
}

impl Mempool {
    pub closed spec fn chain_pool(&self) -> Seq<MempoolEntry<ChainSourcedTx>> {
        self.chain_sourced@
    }

    pub closed spec fn mpn_pool(&self) -> Seq<MempoolEntry<MpnSourcedTx>> {
        self.mpn_sourced@
    }

    pub closed spec fn config_spec(&self) -> MempoolConfig {
        self.config
    }

    pub open spec fn wf(&self) -> bool {
        keys_unique(self.chain_pool()) && keys_unique(self.mpn_pool())
    }

    /// What `add_chain_sourced` answers for `tx`, given the stored chain.
    pub open spec fn chain_admission(
        &self,
        chain: Seq<Block>,
        tx: ChainSourcedTx,
        is_local: bool,
    ) -> Result<(), MempoolError> {
        chain_admission(self.chain_pool(), self.config_spec(), chain, tx, is_local)
    }

    /// What `add_mpn_sourced` answers for `tx`.
    pub open spec fn mpn_admission(&self, tx: MpnSourcedTx, is_local: bool) -> Result<
        (),
        MempoolError,
    > {
        mpn_admission(self.mpn_pool(), self.config_spec(), tx, is_local)
    }

    /// An empty pool under the given admission policy.
    pub fn new(config: MempoolConfig) -> (r: Mempool)
        ensures
            r.wf(),
            r.chain_pool().len() == 0,
            r.mpn_pool().len() == 0,
            r.config_spec() == config,
    {
        Mempool { chain_sourced: Vec::new(), mpn_sourced: Vec::new(), config }
    }

    pub fn config(&self) -> (r: MempoolConfig)
        ensures
            r == self.config_spec(),
    {
        self.config
    }

    /// The pending chain-sourced entries.
    pub fn chain_entries(&self) -> (r: &Vec<MempoolEntry<ChainSourcedTx>>)
        ensures
            r@ == self.chain_pool(),
    {
        &self.chain_sourced
    }

    /// The pending rollup-sourced entries.
    pub fn mpn_entries(&self) -> (r: &Vec<MempoolEntry<MpnSourcedTx>>)
        ensures
            r@ == self.mpn_pool(),
    {
        &self.mpn_sourced
    }

    fn find_chain(&self, tx: &ChainSourcedTx) -> (r: Option<usize>)
        ensures
            r matches Some(i) ==> i < self.chain_pool().len() && self.chain_pool()[i as int].tx.same_key(tx),
            r is None ==> !has_key(self.chain_pool(), *tx),
    {
        let s = tx.sender();
        let n = tx.nonce();
        let mut i: usize = 0;
        while i < self.chain_sourced.len()
            invariant
                i <= self.chain_sourced@.len(),
                s == tx.sender_spec(),
                n == tx.nonce_spec(),
                forall|k: int| 0 <= k < i ==> !(#[trigger] self.chain_sourced@[k].tx).same_key(tx),
            decreases self.chain_sourced@.len() - i,
        {
            let e = &self.chain_sourced[i];
            if same_source(e.tx.sender(), s) && e.tx.nonce() == n {
                return Some(i);
            }
            i = i + 1;
        }
        None
    }

    fn find_mpn(&self, tx: &MpnSourcedTx) -> (r: Option<usize>)
        ensures
            r matches Some(i) ==> i < self.mpn_pool().len() && self.mpn_pool()[i as int].tx.same_key(tx),
            r is None ==> !has_key(self.mpn_pool(), *tx),
    {
        let a = tx.zk_address();
        let n = tx.zk_nonce();
        let mut i: usize = 0;
        while i < self.mpn_sourced.len()
            invariant
                i <= self.mpn_sourced@.len(),
                a == tx.zk_address_spec(),
                n == tx.zk_nonce_spec(),
                forall|k: int| 0 <= k < i ==> !(#[trigger] self.mpn_sourced@[k].tx).same_key(tx),
            decreases self.mpn_sourced@.len() - i,
        {
            let e = &self.mpn_sourced[i];
            if e.tx.zk_address() == a && e.tx.zk_nonce() == n {
                return Some(i);
            }
            i = i + 1;
        }
        None
    }

    /// Admits a chain-sourced transaction received at `now`. A local
    /// submission whose key is pending replaces that entry.
    pub fn add_chain_sourced(
        &mut self,
        chain: &Ledger,
        tx: ChainSourcedTx,
        is_local: bool,
        now: u64,
    ) -> (r: Result<(), MempoolError>)
        requires
            old(self).wf(),
        ensures
            final(self).wf(),
            r == old(self).chain_admission(chain@, tx, is_local),
            final(self).mpn_pool() == old(self).mpn_pool(),
            final(self).config_spec() == old(self).config_spec(),
            r is Err ==> final(self).chain_pool() == old(self).chain_pool(),
            r is Ok ==> admitted(old(self).chain_pool(), final(self).chain_pool(), tx, is_local, now),
    {
        if chain.nonce_consumed(tx.sender(), tx.nonce()) {
            return Err(MempoolError::NonceAlreadyUsed);
        }
        let origin = if is_local { Origin::Local } else { Origin::Remote };
        match self.find_chain(&tx) {
            Some(i) => {
                if !is_local {
                    return Err(MempoolError::DuplicatePending);
                }
                let ghost e = MempoolEntry { tx, origin, received_at: now };
                let ghost before = self.chain_sourced@;
                self.chain_sourced.set(i, MempoolEntry { tx, origin, received_at: now });
                proof {
                    assert(self.chain_sourced@ == before.update(i as int, e));
                    let s = self.chain_sourced@;
                    assert forall|a: int, b: int| 0 <= a < b < s.len() implies !s[a].tx.same_key(&s[b].tx) by {
                        if a != i && b != i {
                            assert(s[a] == before[a] && s[b] == before[b]);
                        } else if a == i {
                            assert(s[b] == before[b]);
                            assert(!before[i as int].tx.same_key(&before[b].tx));
                        } else {
                            assert(s[a] == before[a]);
                            assert(!before[a].tx.same_key(&before[i as int].tx));
                        }
                    }
                }
                Ok(())
            },
            None => {
                if !is_local && (tx.fee().amount < self.config.min_remote_fee
                    || self.chain_sourced.len() >= self.config.max_remote_entries) {
                    return Err(MempoolError::AdmissionThrottled);
                }
                let ghost before = self.chain_sourced@;
                self.chain_sourced.push(MempoolEntry { tx, origin, received_at: now });
                proof {
                    let s = self.chain_sourced@;
                    assert forall|a: int, b: int| 0 <= a < b < s.len() implies !s[a].tx.same_key(&s[b].tx) by {
                        assert(s[a] == before[a]);
                        if b < before.len() {
                            assert(s[b] == before[b]);
                        }
                    }
                }
                Ok(())
            },
        }
    }

    /// Removes the entries of both partitions that were received more than
    /// `ttl` before `now`.
    pub fn evict_expired(&mut self, now: u64, ttl: u64)
        requires
            old(self).wf(),
        ensures
            final(self).wf(),
            final(self).chain_pool() == old(self).chain_pool().filter(fresh_pred(now, ttl)),
            final(self).mpn_pool() == old(self).mpn_pool().filter(fresh_pred(now, ttl)),
            final(self).config_spec() == old(self).config_spec(),
    {
        let mut chain_part: Vec<MempoolEntry<ChainSourcedTx>> = Vec::new();
        std::mem::swap(&mut chain_part, &mut self.chain_sourced);
        self.chain_sourced = keep_fresh(chain_part, now, ttl);
        let mut mpn_part: Vec<MempoolEntry<MpnSourcedTx>> = Vec::new();
        std::mem::swap(&mut mpn_part, &mut self.mpn_sourced);
        self.mpn_sourced = keep_fresh(mpn_part, now, ttl);
        proof {
            lemma_filter_keeps_unique(old(self).chain_pool(), fresh_pred(now, ttl));
            lemma_filter_keeps_unique(old(self).mpn_pool(), fresh_pred(now, ttl));
        }
    }

    /// Drops the pending chain-sourced entries of the `affected` accounts
    /// whose nonce is not the next one that `chain` expects of the account.
    /// Rollup-sourced entries are left alone.
    pub fn invalidate_after_rollback(&mut self, chain: &Ledger, affected: &Vec<Option<Address>>)
        requires
            old(self).wf(),
        ensures
            final(self).wf(),
            final(self).chain_pool() == old(self).chain_pool().filter(valid_pred(chain@, affected@)),
            final(self).mpn_pool() == old(self).mpn_pool(),
            final(self).config_spec() == old(self).config_spec(),
    {
        let mut chain_part: Vec<MempoolEntry<ChainSourcedTx>> = Vec::new();
        std::mem::swap(&mut chain_part, &mut self.chain_sourced);
        self.chain_sourced = keep_valid(chain_part, chain, affected);
        proof {
            lemma_filter_keeps_unique(old(self).chain_pool(), valid_pred(chain@, affected@));
        }
    }

    /// Drops the pending chain-sourced entries whose nonce `chain` has consumed.
    pub fn drop_consumed(&mut self, chain: &Ledger)
        requires
            old(self).wf(),
        ensures
            final(self).wf(),
            final(self).chain_pool() == old(self).chain_pool().filter(unconsumed_pred(chain@)),
            final(self).mpn_pool() == old(self).mpn_pool(),
            final(self).config_spec() == old(self).config_spec(),
    {
        let mut chain_part: Vec<MempoolEntry<ChainSourcedTx>> = Vec::new();
        std::mem::swap(&mut chain_part, &mut self.chain_sourced);
        self.chain_sourced = keep_unconsumed(chain_part, chain);
        proof {
            lemma_filter_keeps_unique(old(self).chain_pool(), unconsumed_pred(chain@));
        }
    }

    /// Admits a rollup-sourced transaction received at `now`, under the same
    /// policy as chain-sourced ones; its validity against rollup state is
    /// checked elsewhere.
    pub fn add_mpn_sourced(&mut self, tx: MpnSourcedTx, is_local: bool, now: u64) -> (r: Result<
        (),
        MempoolError,
    >)
        requires
            old(self).wf(),
        ensures
            final(self).wf(),
            r == old(self).mpn_admission(tx, is_local),
            final(self).chain_pool() == old(self).chain_pool(),
            final(self).config_spec() == old(self).config_spec(),
            r is Err ==> final(self).mpn_pool() == old(self).mpn_pool(),
            r is Ok ==> admitted(old(self).mpn_pool(), final(self).mpn_pool(), tx, is_local, now),
    {
        let origin = if is_local { Origin::Local } else { Origin::Remote };
        match self.find_mpn(&tx) {
            Some(i) => {
                if !is_local {
                    return Err(MempoolError::DuplicatePending);
                }
                let ghost e = MempoolEntry { tx, origin, received_at: now };
                let ghost before = self.mpn_sourced@;
                self.mpn_sourced.set(i, MempoolEntry { tx, origin, received_at: now });
                proof {
                    assert(self.mpn_sourced@ == before.update(i as int, e));
                    let s = self.mpn_sourced@;
                    assert forall|a: int, b: int| 0 <= a < b < s.len() implies !s[a].tx.same_key(&s[b].tx) by {
                        if a != i && b != i {
                            assert(s[a] == before[a] && s[b] == before[b]);
                        } else if a == i {
                            assert(s[b] == before[b]);
                            assert(!before[i as int].tx.same_key(&before[b].tx));
                        } else {
                            assert(s[a] == before[a]);
                            assert(!before[a].tx.same_key(&before[i as int].tx));
                        }
                    }
                }
                Ok(())
            },
            None => {
                if !is_local && (tx.fee().amount < self.config.min_remote_fee
                    || self.mpn_sourced.len() >= self.config.max_remote_entries) {
                    return Err(MempoolError::AdmissionThrottled);
                }
                let ghost before = self.mpn_sourced@;
                self.mpn_sourced.push(MempoolEntry { tx, origin, received_at: now });
                proof {
                    let s = self.mpn_sourced@;
                    assert forall|a: int, b: int| 0 <= a < b < s.len() implies !s[a].tx.same_key(&s[b].tx) by {
                        assert(s[a] == before[a]);
                        if b < before.len() {
                            assert(s[b] == before[b]);
                        }
                    }
                }
                Ok(())
            },
        }
    }
}

} // verus!
