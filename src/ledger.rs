//! The ledger store: the canonical chain, indexed by height.
use vstd::prelude::*;
use crate::types::{Address, Block, Digest, Transaction};

verus! {

/// Errors of the ledger's structural operations.
#[derive(Clone, Copy, PartialEq, Eq, Structural, Debug)]
pub enum ChainError {
    /// The block does not name the current tip as its parent.
    InvalidParent,
    /// A block is already stored at the block's height.
    HeightConflict,
    /// Only the genesis block is left, and it is never removed.
    AtGenesis,
    /// The durable engine under a persisted ledger failed.
    StorageFailure,
}

/// A chain is well linked: it holds a genesis block whose parent is the zero
/// digest, each block sits at the height of its position, and each later
/// block names its predecessor's digest as its parent.
pub open spec fn linked(chain: Seq<Block>) -> bool {
    &&& chain.len() > 0
    &&& chain[0].header.parent_hash.is_zero()
    &&& forall|i: int| 0 <= i < chain.len() ==> #[trigger] chain[i].header.height == i
    &&& forall|i: int|
        0 < i < chain.len() ==> #[trigger] chain[i].header.parent_hash == chain[i - 1].header.hash
}

/// What `append` answers for a block offered to a chain.
pub open spec fn append_outcome(chain: Seq<Block>, b: Block) -> Result<(), ChainError> {
    if b.header.height < chain.len() {
        Err(ChainError::HeightConflict)
    } else if b.header.height > chain.len() || b.header.parent_hash != chain.last().header.hash {
        Err(ChainError::InvalidParent)
    } else {
        Ok(())
    }
}

/// Height of the tip of a chain.
pub open spec fn tip_height(chain: Seq<Block>) -> int {
    chain.len() - 1
}

/// The blocks at heights `since .. since + count` that a chain holds.
pub open spec fn page(chain: Seq<Block>, since: int, count: int) -> Seq<Block> {
    if since >= chain.len() {
        Seq::empty()
    } else if since + count >= chain.len() {
        chain.subrange(since, chain.len() as int)
    } else {
        chain.subrange(since, since + count)
    }
}

/// The highest nonce that a list of transactions spends from `src` (0 if none).
pub open spec fn txs_last_nonce(txs: Seq<Transaction>, src: Option<Address>) -> u32
    decreases txs.len(),
{
    if txs.len() == 0 {
        0
    } else {
        let p = txs_last_nonce(txs.drop_last(), src);
        let t = txs.last();
        if t.src == src && t.nonce > p {
            t.nonce
        } else {
            p
        }
    }
}

/// The highest nonce that the stored blocks spend from `src` (0 if none).
/// Every nonce up to it counts as consumed.
pub open spec fn last_nonce(chain: Seq<Block>, src: Option<Address>) -> u32
    decreases chain.len(),
{
    if chain.len() == 0 {
        0
    } else {
        let p = last_nonce(chain.drop_last(), src);
        let q = txs_last_nonce(chain.last().body@, src);
        if q > p {
            q
        } else {
            p
        }
    }
}

pub open spec fn nonce_consumed(chain: Seq<Block>, src: Option<Address>, nonce: u32) -> bool {
    nonce <= last_nonce(chain, src)
}

/// Every transaction in a list spends a nonce no higher than the list's last nonce.
pub proof fn lemma_txs_nonce_bounded(txs: Seq<Transaction>, j: int)
    requires
        0 <= j < txs.len(),
    ensures
        txs[j].nonce <= txs_last_nonce(txs, txs[j].src),
    decreases txs.len(),
{
    if j < txs.len() - 1 {
        lemma_txs_nonce_bounded(txs.drop_last(), j);
    }
}

/// A nonce that a stored block spends is consumed for its source account.
pub proof fn lemma_stored_nonce_consumed(chain: Seq<Block>, i: int, j: int)
    requires
        0 <= i < chain.len(),
        0 <= j < chain[i].body@.len(),
    ensures
        nonce_consumed(chain, chain[i].body@[j].src, chain[i].body@[j].nonce),
    decreases chain.len(),
{
    if i < chain.len() - 1 {
        lemma_stored_nonce_consumed(chain.drop_last(), i, j);
    } else {
        lemma_txs_nonce_bounded(chain[i].body@, j);
    }
}

/// Appending a valid block and then rolling back restores the chain, and with
/// it the tip height, tip digest and state root, exactly.
pub proof fn lemma_rollback_undoes_append(chain: Seq<Block>, b: Block)
    requires
        linked(chain),
        append_outcome(chain, b) is Ok,
    ensures
        linked(chain.push(b)),
        chain.push(b).len() > 1,
        chain.push(b).drop_last() == chain,
        tip_height(chain.push(b).drop_last()) == tip_height(chain),
        chain.push(b).drop_last().last().header.hash == chain.last().header.hash,
        chain.push(b).drop_last().last().header.state_root == chain.last().header.state_root,
{
    let c = chain.push(b);
    assert(c.drop_last() =~= chain);
    assert forall|i: int| 0 <= i < c.len() implies #[trigger] c[i].header.height == i by {
        if i < chain.len() {
            assert(c[i] == chain[i]);
        }
    }
    assert forall|i: int| 0 < i < c.len() implies #[trigger] c[i].header.parent_hash
        == c[i - 1].header.hash by {
        if i < chain.len() {
            assert(c[i] == chain[i]);
        }
    }
}

/// The canonical chain, indexed by height; the tip is the last block.
pub struct Ledger {
    blocks: Vec<Block>,
}

impl View for Ledger {
    type V = Seq<Block>;

    closed spec fn view(&self) -> Seq<Block> {
        self.blocks@
    }
}

impl Ledger {
    pub open spec fn wf(&self) -> bool {
        linked(self@)
    }

    /// Starts a chain from its genesis block, which must sit at height 0 and
    /// name the zero digest as its parent.
    pub fn new(genesis: Block) -> (r: Result<Ledger, ChainError>)
        ensures
            r is Ok <==> genesis.header.height == 0 && genesis.header.parent_hash.is_zero(),
            r matches Ok(l) ==> l.wf() && l@ == seq![genesis],
            r matches Err(e) ==> e == ChainError::InvalidParent,
    {
        if genesis.header.height != 0 || genesis.header.parent_hash != Digest::zero() {
            return Err(ChainError::InvalidParent);
        }
        let mut blocks: Vec<Block> = Vec::new();
        blocks.push(genesis);
        let l = Ledger { blocks };
        assert(l@ =~= seq![genesis]);
        Ok(l)
    }

    /// Height of the tip.
    pub fn height(&self) -> (r: u64)
        requires
            self.wf(),
        ensures
            r == tip_height(self@),
    {
        let n = self.blocks.len() - 1;
        assert(self@[n as int].header.height == n);
        self.blocks[n].header.height
    }

    /// The tip block.
    pub fn tip(&self) -> (r: &Block)
        requires
            self.wf(),
        ensures
            *r == self@.last(),
    {
        &self.blocks[self.blocks.len() - 1]
    }

    /// Digest of the tip block.
    pub fn tip_hash(&self) -> (r: Digest)
        requires
            self.wf(),
        ensures
            r == self@.last().header.hash,
    {
        self.tip().header.hash
    }

    /// State root after the tip block.
    pub fn state_root(&self) -> (r: Digest)
        requires
            self.wf(),
        ensures
            r == self@.last().header.state_root,
    {
        self.tip().header.state_root
    }

    /// Adds `block` as the new tip, if it sits right above the tip and names
    /// it as its parent; otherwise leaves the chain as it was.
    pub fn append(&mut self, block: Block) -> (r: Result<(), ChainError>)
        requires
            old(self).wf(),
        ensures
            final(self).wf(),
            r == append_outcome(old(self)@, block),
            r is Ok ==> final(self)@ == old(self)@.push(block),
            r is Err ==> final(self)@ == old(self)@,
    {
        let n = self.blocks.len();
        if block.header.height < n as u64 {
            return Err(ChainError::HeightConflict);
        }
        if block.header.height > n as u64 || block.header.parent_hash != self.tip_hash() {
            return Err(ChainError::InvalidParent);
        }
        proof {
            lemma_rollback_undoes_append(self@, block);
        }
        self.blocks.push(block);
        Ok(())
    }

    /// Removes the tip block, which restores the predecessor's digest and
    /// state root as the chain's own. The genesis block is never removed.
    pub fn rollback(&mut self) -> (r: Result<(), ChainError>)
        requires
            old(self).wf(),
        ensures
            final(self).wf(),
            r is Ok <==> old(self)@.len() > 1,
            r is Ok ==> final(self)@ == old(self)@.drop_last(),
            r is Err ==> r == Err::<(), ChainError>(ChainError::AtGenesis) && final(self)@ == old(self)@,
    {
        if self.blocks.len() <= 1 {
            return Err(ChainError::AtGenesis);
        }
        let _ = self.blocks.pop();
        assert(self@ =~= old(self)@.drop_last());
        Ok(())
    }

    /// The stored blocks with heights in `since .. since + count`, in
    /// ascending order; empty where `since` is above the tip.
    pub fn get_blocks(&self, since: u64, count: u32) -> (r: Vec<&Block>)
        requires
            self.wf(),
        ensures
            r@.len() == page(self@, since as int, count as int).len(),
            forall|i: int| 0 <= i < r@.len() ==> *#[trigger] r@[i] == page(self@, since as int, count as int)[i],
    {
        let n = self.blocks.len();
        let mut out: Vec<&Block> = Vec::new();
        if since >= n as u64 {
            return out;
        }
        let start = since as usize;
        let avail = n - start;
        let take: usize = if (count as usize) < avail { count as usize } else { avail };
        let ghost pg = page(self@, since as int, count as int);
        assert(pg.len() == take);
        let mut i: usize = 0;
        while i < take
            invariant
                start + take <= n,
                n == self.blocks.len(),
                pg == page(self@, since as int, count as int),
                pg.len() == take,
                start == since,
                i <= take,
                out@.len() == i,
                forall|k: int| 0 <= k < i ==> *#[trigger] out@[k] == pg[k],
            decreases take - i,
        {
            out.push(&self.blocks[start + i]);
            i = i + 1;
        }
        out
    }

    /// The highest nonce that the stored blocks spend from `src` (0 if none).
    pub fn last_nonce(&self, src: Option<Address>) -> (r: u32)
        ensures
            r == last_nonce(self@, src),
    {
        let mut m: u32 = 0;
        let mut i: usize = 0;
        while i < self.blocks.len()
            invariant
                i <= self@.len(),
                m == last_nonce(self@.subrange(0, i as int), src),
            decreases self@.len() - i,
        {
            let body = &self.blocks[i].body;
            let mut q: u32 = 0;
            let mut j: usize = 0;
            while j < body.len()
                invariant
                    j <= body@.len(),
                    q == txs_last_nonce(body@.subrange(0, j as int), src),
                decreases body@.len() - j,
            {
                let t = &body[j];
                proof {
                    assert(body@.subrange(0, j + 1).drop_last() =~= body@.subrange(0, j as int));
                }
                if same_source(t.src, src) && t.nonce > q {
                    q = t.nonce;
                }
                j = j + 1;
            }
            proof {
                assert(body@.subrange(0, j as int) =~= body@);
                assert(self@.subrange(0, i + 1).drop_last() =~= self@.subrange(0, i as int));
            }
            if q > m {
                m = q;
            }
            i = i + 1;
        }
        assert(self@.subrange(0, i as int) =~= self@);
        m
    }

    /// Whether the stored blocks have consumed `nonce` for `src`.
    pub fn nonce_consumed(&self, src: Option<Address>, nonce: u32) -> (r: bool)
        ensures
            r == nonce_consumed(self@, src, nonce),
    {
        nonce <= self.last_nonce(src)
    }
}

/// Whether two optional source accounts are the same.
pub fn same_source(a: Option<Address>, b: Option<Address>) -> (r: bool)
    ensures
        r == (a == b),
{
    match (a, b) {
        (None, None) => true,
        (Some(x), Some(y)) => x == y,
        _ => false,
    }
}

} // verus!
