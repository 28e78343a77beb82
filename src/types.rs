//! Canonical records of the ledger: hashes, addresses, transactions and blocks.
use vstd::prelude::*;

verus! {

/// A 256-bit digest, held as two 128-bit halves.
#[derive(Clone, Copy, PartialEq, Eq, Structural, Debug)]
pub struct Digest {
    pub hi: u128,
    pub lo: u128,
}

impl Digest {
    /// The all-zero digest, which a genesis block names as its parent.
    pub open spec fn is_zero(self) -> bool {
        self.hi == 0 && self.lo == 0
    }

    pub fn zero() -> (r: Digest)
        ensures
            r.is_zero(),
    {
        Digest { hi: 0, lo: 0 }
    }
}

/// The public key of a base-chain account.
#[derive(Clone, Copy, PartialEq, Eq, Structural, Debug)]
pub struct Address {
    pub hi: u128,
    pub lo: u128,
}

#[derive(Clone, Copy, PartialEq, Eq, Structural, Debug)]
pub enum TokenId {
    Ziesha,
    Custom(Digest),
}

#[derive(Clone, Copy, PartialEq, Eq, Structural, Debug)]
pub struct Money {
    pub amount: u64,
    pub token_id: TokenId,
}

/// One output of a regular send.
#[derive(Clone, Copy, PartialEq, Eq, Structural, Debug)]
pub struct Payment {
    pub dst: Address,
    pub amount: Money,
}

#[derive(Clone, Debug)]
pub struct Token {
    pub name: String,
    pub symbol: String,
    pub supply: u64,
    pub minter: Option<Address>,
}


/// What a transaction does.
#[derive(Clone, Debug)]
pub enum TxData {
    RegularSend { entries: Vec<Payment> },
    CreateToken { token: Token },
    /// The contract travels in its canonical serialized form.
    CreateContract { contract: Vec<u8> },
    UpdateStaker { vrf_pub_key: Digest, commision: u8 },
    Delegate { to: Address, amount: u64, reverse: bool },
    /// Moves funds from the base chain into a rollup account.
    MpnDeposit { zk_address: Digest, zk_token_index: u64, amount: Money },
    /// Pays out funds that a rollup account withdrew.
    MpnWithdraw { zk_address: Digest, dst: Address, amount: Money },
}




/// A base-chain transaction. `src` is `None` only for the genesis allocations.
#[derive(Clone, Debug)]
pub struct Transaction {
    pub memo: String,
    pub src: Option<Address>,
    pub nonce: u32,
    pub data: TxData,
    pub fee: Money,
    pub sig: Vec<u8>,
}


#[derive(Clone, Copy, PartialEq, Eq, Structural, Debug)]
pub struct ProofOfStake {
    pub timestamp: u32,
    pub validator: Address,
}

/// A block header. `hash` is the digest of the other header fields, computed
/// by the block producer; the ledger links blocks by it and does not recompute it.
#[derive(Clone, Copy, PartialEq, Eq, Structural, Debug)]
pub struct Header {
    pub parent_hash: Digest,
    pub height: u64,
    pub state_root: Digest,
    pub proof_of_stake: ProofOfStake,
    pub hash: Digest,
}

#[derive(Clone, Debug)]
pub struct Block {
    pub header: Header,
    pub body: Vec<Transaction>,
}



/// A deposit into a rollup account, signed by the base-chain account `src`.
#[derive(Clone, Debug)]
pub struct MpnDepositTx {
    pub src: Address,
    pub nonce: u32,
    pub zk_address: Digest,
    pub zk_token_index: u64,
    pub amount: Money,
    pub fee: Money,
    pub sig: Vec<u8>,
}

/// A withdrawal out of a rollup account, authorized by the rollup account itself.
#[derive(Clone, Debug)]
pub struct MpnWithdrawTx {
    pub zk_address: Digest,
    pub zk_nonce: u64,
    pub dst: Address,
    pub amount: Money,
    pub fee: Money,
    pub sig: Vec<u8>,
}

/// A transaction signed by a base-chain account.
#[derive(Clone, Debug)]
pub enum ChainSourcedTx {
    TransactionAndDelta(Transaction),
    MpnDeposit(MpnDepositTx),
}

/// A transaction that originates in the rollup's state.
#[derive(Clone, Debug)]
pub enum MpnSourcedTx {
    MpnWithdraw(MpnWithdrawTx),
}

impl ChainSourcedTx {
    /// The account whose nonce the transaction spends.
    pub open spec fn sender_spec(&self) -> Option<Address> {
        match self {
            ChainSourcedTx::TransactionAndDelta(t) => t.src,
            ChainSourcedTx::MpnDeposit(d) => Some(d.src),
        }
    }

    pub open spec fn nonce_spec(&self) -> u32 {
        match self {
            ChainSourcedTx::TransactionAndDelta(t) => t.nonce,
            ChainSourcedTx::MpnDeposit(d) => d.nonce,
        }
    }

    pub open spec fn fee_spec(&self) -> Money {
        match self {
            ChainSourcedTx::TransactionAndDelta(t) => t.fee,
            ChainSourcedTx::MpnDeposit(d) => d.fee,
        }
    }

    pub fn sender(&self) -> (r: Option<Address>)
        ensures
            r == self.sender_spec(),
    {
        match self {
            ChainSourcedTx::TransactionAndDelta(t) => t.src,
            ChainSourcedTx::MpnDeposit(d) => Some(d.src),
        }
    }

    pub fn nonce(&self) -> (r: u32)
        ensures
            r == self.nonce_spec(),
    {
        match self {
            ChainSourcedTx::TransactionAndDelta(t) => t.nonce,
            ChainSourcedTx::MpnDeposit(d) => d.nonce,
        }
    }

    pub fn fee(&self) -> (r: Money)
        ensures
            r == self.fee_spec(),
    {
        match self {
            ChainSourcedTx::TransactionAndDelta(t) => t.fee,
            ChainSourcedTx::MpnDeposit(d) => d.fee,
        }
    }
}

impl MpnSourcedTx {
    /// The rollup account that the transaction spends from.
    pub open spec fn zk_address_spec(&self) -> Digest {
        match self {
            MpnSourcedTx::MpnWithdraw(w) => w.zk_address,
        }
    }

    pub open spec fn zk_nonce_spec(&self) -> u64 {
        match self {
            MpnSourcedTx::MpnWithdraw(w) => w.zk_nonce,
        }
    }

    pub open spec fn fee_spec(&self) -> Money {
        match self {
            MpnSourcedTx::MpnWithdraw(w) => w.fee,
        }
    }

    pub fn zk_address(&self) -> (r: Digest)
        ensures
            r == self.zk_address_spec(),
    {
        match self {
            MpnSourcedTx::MpnWithdraw(w) => w.zk_address,
        }
    }

    pub fn zk_nonce(&self) -> (r: u64)
        ensures
            r == self.zk_nonce_spec(),
    {
        match self {
            MpnSourcedTx::MpnWithdraw(w) => w.zk_nonce,
        }
    }

    pub fn fee(&self) -> (r: Money)
        ensures
            r == self.fee_spec(),
    {
        match self {
            MpnSourcedTx::MpnWithdraw(w) => w.fee,
        }
    }
}

} // verus!
