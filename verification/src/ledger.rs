//! The ledger data model: transactions, blocks, and the append-only chain
//! with its derived balance index.
//!
//! Monetary amounts, fees and balances are integer token units. The chain
//! keeps three invariants: every block's `hash` is the digest of its
//! contents and links to its predecessor, no transaction appears twice
//! anywhere in the chain or the mempool, and the total value moved stays
//! small enough that every balance fits a 128-bit integer.

use vstd::prelude::*;

use crate::digest::{
    encode_i64, encode_i64_exec, fold_byte_seq, fold_bytes, fold_chars, fold_str, hex_chars, mix,
    mix_exec, to_hex,
};
use crate::errors::{IcnError, IcnResult};
use crate::text::{bytes_eq, str_eq};

verus! {

/// Seed of the block digest fold.
pub const DIGEST_SEED: u64 = 0xcbf2_9ce4_8422_2325;

/// The closed set of currency tags a transaction may carry.
#[derive(Clone, Copy, Debug, PartialEq, Eq, Structural)]
pub enum CurrencyType {
    BasicNeeds,
    Education,
    Environmental,
}

/// An immutable value transfer record. Equality is structural over all
/// fields.
#[derive(Debug)]
pub struct Transaction {
    pub from: String,
    pub to: String,
    pub amount: u64,
    pub currency_type: CurrencyType,
    pub fee: u64,
    pub timestamp: i64,
    pub signature: Option<Vec<u8>>,
}

/// The signature bytes as an abstract value.
pub open spec fn sig_view(s: Option<Vec<u8>>) -> Option<Seq<u8>> {
    match s {
        Option::None => Option::None,
        Option::Some(v) => Option::Some(v@),
    }
}

/// Structural equality of two transactions, over all fields.
pub open spec fn tx_eq(a: Transaction, b: Transaction) -> bool {
    &&& a.from@ == b.from@
    &&& a.to@ == b.to@
    &&& a.amount == b.amount
    &&& a.currency_type == b.currency_type
    &&& a.fee == b.fee
    &&& a.timestamp == b.timestamp
    &&& sig_view(a.signature) == sig_view(b.signature)
}

impl Transaction {
    /// Builds an unsigned transaction with no fee.
    pub fn new(
        from: String,
        to: String,
        amount: u64,
        currency_type: CurrencyType,
        timestamp: i64,
    ) -> (r: Transaction)
        ensures
            r.from@ == from@,
            r.to@ == to@,
            r.amount == amount,
            r.currency_type == currency_type,
            r.fee == 0,
            r.timestamp == timestamp,
            r.signature is None,
    {
        Transaction { from, to, amount, currency_type, fee: 0, timestamp, signature: None }
    }

    /// The fee charged to the sender on top of the amount.
    pub fn get_fee(&self) -> (r: u64)
        ensures
            r == self.fee,
    {
        self.fee
    }

    /// Decides structural equality with another transaction.
    pub fn eq_tx(&self, other: &Transaction) -> (r: bool)
        ensures
            r == tx_eq(*self, *other),
    {
        if !str_eq(self.from.as_str(), other.from.as_str()) {
            return false;
        }
        if !str_eq(self.to.as_str(), other.to.as_str()) {
            return false;
        }
        if self.amount != other.amount {
            return false;
        }
        if self.currency_type != other.currency_type {
            return false;
        }
        if self.fee != other.fee {
            return false;
        }
        if self.timestamp != other.timestamp {
            return false;
        }
        match (&self.signature, &other.signature) {
            (None, None) => true,
            (Some(a), Some(b)) => bytes_eq(a, b),
            _ => false,
        }
    }
}

/// Copies a byte vector element by element.
fn clone_bytes(v: &Vec<u8>) -> (r: Vec<u8>)
    ensures
        r@ == v@,
{
    let mut r: Vec<u8> = Vec::new();
    let mut i: usize = 0;
    while i < v.len()
        invariant
            i <= v@.len(),
            r@ == v@.subrange(0, i as int),
        decreases v@.len() - i,
    {
        r.push(v[i]);
        proof {
            assert(r@ =~= v@.subrange(0, i + 1));
        }
        i += 1;
    }
    proof {
        assert(v@.subrange(0, v@.len() as int) =~= v@);
    }
    r
}

impl Clone for Transaction {
    /// The copy is structurally equal to the original.
    fn clone(&self) -> (r: Self)
        ensures
            tx_eq(r, *self),
    {
        Transaction {
            from: self.from.clone(),
            to: self.to.clone(),
            amount: self.amount,
            currency_type: self.currency_type,
            fee: self.fee,
            timestamp: self.timestamp,
            signature: match &self.signature {
                None => None,
                Some(v) => Some(clone_bytes(v)),
            },
        }
    }
}

/// Folds the signature field into a digest accumulator.
pub open spec fn fold_sig(h: u64, s: Option<Vec<u8>>) -> u64 {
    match s {
        Option::None => mix(h, 0),
        Option::Some(v) => fold_byte_seq(mix(h, 1), v@),
    }
}

/// The fold tag of a currency.
pub open spec fn currency_tag(c: CurrencyType) -> u64 {
    match c {
        CurrencyType::BasicNeeds => 0,
        CurrencyType::Education => 1,
        CurrencyType::Environmental => 2,
    }
}

/// Folds every field of a transaction into a digest accumulator.
pub open spec fn fold_tx(h: u64, t: Transaction) -> u64 {
    let h1 = fold_chars(h, t.from@);
    let h2 = fold_chars(h1, t.to@);
    let h3 = mix(h2, t.amount);
    let h4 = mix(h3, currency_tag(t.currency_type));
    let h5 = mix(h4, t.fee);
    let h6 = mix(h5, encode_i64(t.timestamp));
    fold_sig(h6, t.signature)
}

/// Folds a transaction sequence, front to back.
pub open spec fn fold_txs(h: u64, ts: Seq<Transaction>) -> u64
    decreases ts.len(),
{
    if ts.len() == 0 {
        h
    } else {
        fold_tx(fold_txs(h, ts.drop_last()), ts.last())
    }
}

/// Executable fold of one transaction.
fn fold_tx_exec(h: u64, t: &Transaction) -> (r: u64)
    ensures
        r == fold_tx(h, *t),
{
    let h1 = fold_str(h, t.from.as_str());
    let h2 = fold_str(h1, t.to.as_str());
    let h3 = mix_exec(h2, t.amount);
    let tag: u64 = match t.currency_type {
        CurrencyType::BasicNeeds => 0,
        CurrencyType::Education => 1,
        CurrencyType::Environmental => 2,
    };
    let h4 = mix_exec(h3, tag);
    let h5 = mix_exec(h4, t.fee);
    let h6 = mix_exec(h5, encode_i64_exec(t.timestamp));
    match &t.signature {
        None => mix_exec(h6, 0),
        Some(v) => {
            let h7 = mix_exec(h6, 1);
            fold_bytes(h7, v)
        },
    }
}

/// Executable fold of a transaction vector.
fn fold_txs_exec(h: u64, ts: &Vec<Transaction>) -> (r: u64)
    ensures
        r == fold_txs(h, ts@),
{
    let mut acc = h;
    let mut i: usize = 0;
    while i < ts.len()
        invariant
            i <= ts@.len(),
            acc == fold_txs(h, ts@.subrange(0, i as int)),
        decreases ts@.len() - i,
    {
        acc = fold_tx_exec(acc, &ts[i]);
        proof {
            let pre = ts@.subrange(0, i as int);
            let post = ts@.subrange(0, i + 1);
            assert(post.drop_last() =~= pre);
            assert(post.last() == ts@[i as int]);
        }
        i += 1;
    }
    proof {
        assert(ts@.subrange(0, ts@.len() as int) =~= ts@);
    }
    acc
}

/// An immutable, hash-linked batch of committed transactions.
#[derive(Debug)]
pub struct Block {
    pub index: u64,
    pub timestamp: i64,
    pub transactions: Vec<Transaction>,
    pub previous_hash: String,
    pub hash: String,
}

/// The digest of a block's contents, as the character sequence that the
/// block's `hash` field must carry.
pub open spec fn block_hash_chars(b: Block) -> Seq<char> {
    hex_chars(
        fold_chars(
            fold_txs(mix(mix(DIGEST_SEED, b.index), encode_i64(b.timestamp)), b.transactions@),
            b.previous_hash@,
        ),
    )
}

/// Structural equality of two blocks: same scalar fields, same hashes, and
/// pairwise structurally equal transactions.
pub open spec fn block_eq(a: Block, b: Block) -> bool {
    &&& a.index == b.index
    &&& a.timestamp == b.timestamp
    &&& a.previous_hash@ == b.previous_hash@
    &&& a.hash@ == b.hash@
    &&& a.transactions@.len() == b.transactions@.len()
    &&& forall|i: int|
        0 <= i < a.transactions@.len() ==> tx_eq(
            #[trigger] a.transactions@[i],
            b.transactions@[i],
        )
}

impl Block {
    /// Recomputes the digest of this block's contents. The `hash` field
    /// itself does not enter the digest.
    pub fn calculate_hash(&self) -> (r: String)
        ensures
            r@ == block_hash_chars(*self),
    {
        let mut h = mix_exec(DIGEST_SEED, self.index);
        h = mix_exec(h, encode_i64_exec(self.timestamp));
        h = fold_txs_exec(h, &self.transactions);
        h = fold_str(h, self.previous_hash.as_str());
        to_hex(h)
    }
}

/// Copies a transaction vector element by element.
fn clone_txs(ts: &Vec<Transaction>) -> (r: Vec<Transaction>)
    ensures
        r@.len() == ts@.len(),
        forall|i: int| 0 <= i < ts@.len() ==> tx_eq(#[trigger] r@[i], ts@[i]),
{
    let mut r: Vec<Transaction> = Vec::new();
    let mut i: usize = 0;
    while i < ts.len()
        invariant
            i <= ts@.len(),
            r@.len() == i,
            forall|j: int| 0 <= j < i ==> tx_eq(#[trigger] r@[j], ts@[j]),
        decreases ts@.len() - i,
    {
        r.push(ts[i].clone());
        i += 1;
    }
    r
}

impl Clone for Block {
    /// The copy is structurally equal to the original.
    fn clone(&self) -> (r: Self)
        ensures
            block_eq(r, *self),
    {
        Block {
            index: self.index,
            timestamp: self.timestamp,
            transactions: clone_txs(&self.transactions),
            previous_hash: self.previous_hash.clone(),
            hash: self.hash.clone(),
        }
    }
}

/// Whether a structurally equal transaction occurs in a sequence.
pub open spec fn txs_have(ts: Seq<Transaction>, tx: Transaction) -> bool {
    exists|i: int| 0 <= i < ts.len() && tx_eq(#[trigger] ts[i], tx)
}

/// Whether a structurally equal transaction occurs anywhere in a chain.
pub open spec fn chain_has_tx(c: Seq<Block>, tx: Transaction) -> bool {
    exists|i: int| 0 <= i < c.len() && txs_have(#[trigger] c[i].transactions@, tx)
}

/// No transaction occurs twice in a sequence.
pub open spec fn txs_distinct(ts: Seq<Transaction>) -> bool {
    forall|i: int, j: int|
        0 <= i < j < ts.len() ==> !tx_eq(#[trigger] ts[i], #[trigger] ts[j])
}

/// No transaction occurs twice anywhere in a chain, whether in one block or
/// across two blocks.
pub open spec fn chain_txs_distinct(c: Seq<Block>) -> bool {
    &&& forall|i: int| 0 <= i < c.len() ==> txs_distinct(#[trigger] c[i].transactions@)
    &&& forall|i: int, j: int, k: int, l: int|
        0 <= i < c.len() && 0 <= j < c[i].transactions@.len() && 0 <= k < c.len() && 0 <= l
            < c[k].transactions@.len() && i != k ==> !tx_eq(
            #[trigger] c[i].transactions@[j],
            #[trigger] c[k].transactions@[l],
        )
}

/// Every block's hash is the digest of its contents, its index is its
/// position, and every non-initial block links to its predecessor's hash.
pub open spec fn chain_wf(c: Seq<Block>) -> bool {
    &&& forall|i: int|
        0 <= i < c.len() ==> (#[trigger] c[i]).index == i && c[i].hash@ == block_hash_chars(c[i])
    &&& forall|i: int| 0 < i < c.len() ==> (#[trigger] c[i]).previous_hash@ == c[i - 1].hash@
}

/// The value moved by one transaction: its amount plus its fee.
pub open spec fn tx_flow(t: Transaction) -> int {
    t.amount + t.fee
}

/// The value moved by a transaction sequence.
pub open spec fn txs_flow(ts: Seq<Transaction>) -> int
    decreases ts.len(),
{
    if ts.len() == 0 {
        0
    } else {
        txs_flow(ts.drop_last()) + tx_flow(ts.last())
    }
}

/// The value moved by every transaction committed in a chain.
pub open spec fn chain_flow(c: Seq<Block>) -> int
    decreases c.len(),
{
    if c.len() == 0 {
        0
    } else {
        chain_flow(c.drop_last()) + txs_flow(c.last().transactions@)
    }
}

/// The balance contribution of one transaction to one account and currency:
/// credit of the amount to the receiver, debit of amount plus fee from the
/// sender.
pub open spec fn tx_delta(t: Transaction, account: Seq<char>, cur: CurrencyType) -> int {
    (if t.to@ == account && t.currency_type == cur {
        t.amount as int
    } else {
        0
    }) - (if t.from@ == account && t.currency_type == cur {
        t.amount + t.fee
    } else {
        0
    })
}

/// The folded balance of a transaction sequence.
pub open spec fn txs_balance(ts: Seq<Transaction>, account: Seq<char>, cur: CurrencyType) -> int
    decreases ts.len(),
{
    if ts.len() == 0 {
        0
    } else {
        txs_balance(ts.drop_last(), account, cur) + tx_delta(ts.last(), account, cur)
    }
}

/// The folded balance of every committed transaction in a chain.
pub open spec fn chain_balance(c: Seq<Block>, account: Seq<char>, cur: CurrencyType) -> int
    decreases c.len(),
{
    if c.len() == 0 {
        0
    } else {
        chain_balance(c.drop_last(), account, cur) + txs_balance(
            c.last().transactions@,
            account,
            cur,
        )
    }
}

/// A sequence's flow is non-negative and bounds the magnitude of every
/// balance derived from it.
pub proof fn lemma_txs_balance_bounded(ts: Seq<Transaction>, account: Seq<char>, cur: CurrencyType)
    ensures
        txs_flow(ts) >= 0,
        -txs_flow(ts) <= txs_balance(ts, account, cur) <= txs_flow(ts),
    decreases ts.len(),
{
    if ts.len() > 0 {
        lemma_txs_balance_bounded(ts.drop_last(), account, cur);
    }
}

/// A chain's flow is non-negative and bounds the magnitude of every balance
/// derived from it.
pub proof fn lemma_chain_balance_bounded(c: Seq<Block>, account: Seq<char>, cur: CurrencyType)
    ensures
        chain_flow(c) >= 0,
        -chain_flow(c) <= chain_balance(c, account, cur) <= chain_flow(c),
    decreases c.len(),
{
    if c.len() > 0 {
        lemma_chain_balance_bounded(c.drop_last(), account, cur);
        lemma_txs_balance_bounded(c.last().transactions@, account, cur);
    }
}

/// The flow of a prefix never exceeds the flow of the whole sequence.
pub proof fn lemma_txs_flow_prefix(ts: Seq<Transaction>, i: int)
    requires
        0 <= i <= ts.len(),
    ensures
        txs_flow(ts.subrange(0, i)) <= txs_flow(ts),
    decreases ts.len(),
{
    if i == ts.len() {
        assert(ts.subrange(0, i) =~= ts);
    } else {
        assert(ts.subrange(0, i) =~= ts.drop_last().subrange(0, i));
        lemma_txs_flow_prefix(ts.drop_last(), i);
    }
}

/// The flow of a chain prefix never exceeds the flow of the whole chain.
pub proof fn lemma_chain_flow_prefix(c: Seq<Block>, i: int)
    requires
        0 <= i <= c.len(),
    ensures
        chain_flow(c.subrange(0, i)) <= chain_flow(c),
    decreases c.len(),
{
    if i == c.len() {
        assert(c.subrange(0, i) =~= c);
    } else {
        assert(c.subrange(0, i) =~= c.drop_last().subrange(0, i));
        lemma_chain_flow_prefix(c.drop_last(), i);
        lemma_txs_balance_bounded(c.last().transactions@, Seq::empty(), CurrencyType::BasicNeeds);
    }
}

/// Scans a transaction vector for a structurally equal transaction.
pub fn txs_contain(ts: &Vec<Transaction>, tx: &Transaction) -> (r: bool)
    ensures
        r == txs_have(ts@, *tx),
{
    let mut i: usize = 0;
    while i < ts.len()
        invariant
            i <= ts@.len(),
            forall|j: int| 0 <= j < i ==> !tx_eq(#[trigger] ts@[j], *tx),
        decreases ts@.len() - i,
    {
        if ts[i].eq_tx(tx) {
            return true;
        }
        i += 1;
    }
    false
}

/// Scans a whole chain for a structurally equal transaction.
pub fn chain_contains(c: &Vec<Block>, tx: &Transaction) -> (r: bool)
    ensures
        r == chain_has_tx(c@, *tx),
{
    let mut i: usize = 0;
    while i < c.len()
        invariant
            i <= c@.len(),
            forall|j: int| 0 <= j < i ==> !txs_have(#[trigger] c@[j].transactions@, *tx),
        decreases c@.len() - i,
    {
        if txs_contain(&c[i].transactions, tx) {
            return true;
        }
        i += 1;
    }
    false
}

/// The canonical append-only block sequence together with the mempool of
/// admitted, not yet committed transactions.
#[derive(Debug)]
pub struct Blockchain {
    chain: Vec<Block>,
    pending_transactions: Vec<Transaction>,
    flow: u128,
}

impl Blockchain {
    /// The committed chain as an abstract sequence.
    pub closed spec fn spec_chain(self) -> Seq<Block> {
        self.chain@
    }

    /// The mempool as an abstract sequence.
    pub closed spec fn spec_pending(self) -> Seq<Transaction> {
        self.pending_transactions@
    }

    /// Well-formedness: the chain is hash-linked and digest-correct, no
    /// transaction repeats anywhere, and the total flow is small enough that
    /// every balance fits a 128-bit integer.
    pub open spec fn wf(self) -> bool {
        &&& chain_wf(self.spec_chain())
        &&& chain_txs_distinct(self.spec_chain())
        &&& txs_distinct(self.spec_pending())
        &&& forall|i: int|
            0 <= i < self.spec_pending().len() ==> !chain_has_tx(
                self.spec_chain(),
                #[trigger] self.spec_pending()[i],
            )
        &&& self.spec_flow() == chain_flow(self.spec_chain()) + txs_flow(self.spec_pending())
        &&& self.spec_flow() <= i128::MAX as int
    }

    /// The recorded total flow of chain and mempool together.
    pub closed spec fn spec_flow(self) -> int {
        self.flow as int
    }

    /// An empty ledger.
    pub fn new() -> (r: Blockchain)
        ensures
            r.wf(),
            r.spec_chain() =~= Seq::<Block>::empty(),
            r.spec_pending() =~= Seq::<Transaction>::empty(),
    {
        Blockchain { chain: Vec::new(), pending_transactions: Vec::new(), flow: 0 }
    }

    /// A read-only view of the committed chain.
    pub fn chain(&self) -> (r: &Vec<Block>)
        ensures
            r@ == self.spec_chain(),
    {
        &self.chain
    }

    /// The number of committed blocks.
    pub fn chain_len(&self) -> (r: usize)
        ensures
            r == self.spec_chain().len(),
    {
        self.chain.len()
    }

    /// Admits a transaction to the mempool. Rejects a non-positive amount,
    /// a transaction already present in the chain or the mempool, and a
    /// transfer that would push the ledger's total flow beyond what the
    /// balance index can carry.
    pub fn add_transaction(&mut self, tx: Transaction) -> (r: IcnResult<()>)
        requires
            old(self).wf(),
        ensures
            final(self).wf(),
            final(self).spec_chain() == old(self).spec_chain(),
            tx.amount == 0 ==> (r matches Err(IcnError::Currency(_))
                && final(self).spec_pending() == old(self).spec_pending()),
            tx.amount > 0 && (chain_has_tx(old(self).spec_chain(), tx) || txs_have(
                old(self).spec_pending(),
                tx,
            )) ==> (r matches Err(IcnError::Blockchain(_)) && final(self).spec_pending() == old(self).spec_pending()),
            r is Ok ==> final(self).spec_pending() =~= old(self).spec_pending().push(tx),
            r is Ok <==> (tx.amount > 0 && !chain_has_tx(old(self).spec_chain(), tx) && !txs_have(
                old(self).spec_pending(),
                tx,
            ) && old(self).spec_flow() + tx_flow(tx) <= i128::MAX as int),
    {
        if tx.amount == 0 {
            return Err(IcnError::Currency("Invalid currency or amount".to_owned()));
        }
        if chain_contains(&self.chain, &tx) || txs_contain(&self.pending_transactions, &tx) {
            return Err(IcnError::Blockchain("Double spend detected".to_owned()));
        }
        let extra: u128 = tx.amount as u128 + tx.fee as u128;
        if self.flow > i128::MAX as u128 - extra {
            return Err(IcnError::Blockchain("Ledger capacity exceeded".to_owned()));
        }
        self.flow = self.flow + extra;
        let ghost old_pending = self.pending_transactions@;
        self.pending_transactions.push(tx);
        proof {
            assert(self.pending_transactions@.drop_last() =~= old_pending);
            assert forall|i: int, j: int|
                0 <= i < j < self.spec_pending().len() implies !tx_eq(
                self.spec_pending()[i],
                self.spec_pending()[j],
            ) by {
                if j < self.spec_pending().len() - 1 {
                } else {
                    assert(!txs_have(old_pending, tx));
                }
            }
        }
        Ok(())
    }

    /// Commits the mempool as one new block, stamped with the given time,
    /// linked to the tip of the chain and carrying the digest of its own
    /// contents. The initial block links to the sentinel hash.
    pub fn create_block_at(&mut self, timestamp: i64) -> (r: IcnResult<()>)
        requires
            old(self).wf(),
        ensures
            final(self).wf(),
            r is Ok,
            final(self).spec_pending() =~= Seq::<Transaction>::empty(),
            final(self).spec_chain().len() == old(self).spec_chain().len() + 1,
            final(self).spec_chain().subrange(0, old(self).spec_chain().len() as int) =~= old(self).spec_chain(),
            final(self).spec_chain().last().transactions@ == old(self).spec_pending(),
            final(self).spec_chain().last().timestamp == timestamp,
            final(self).spec_chain().last().index == old(self).spec_chain().len(),
            old(self).spec_chain().len() == 0 ==> final(self).spec_chain().last().previous_hash@
                == "0"@,
            old(self).spec_chain().len() > 0 ==> final(self).spec_chain().last().previous_hash@
                == old(self).spec_chain().last().hash@,
    {
        let index = self.chain.len() as u64;
        let previous_hash: String = if self.chain.len() == 0 {
            "0".to_owned()
        } else {
            self.chain[self.chain.len() - 1].hash.clone()
        };
        let mut transactions: Vec<Transaction> = Vec::new();
        core::mem::swap(&mut transactions, &mut self.pending_transactions);
        let mut block = Block {
            index,
            timestamp,
            transactions,
            previous_hash,
            hash: String::new(),
        };
        let h = block.calculate_hash();
        block.hash = h;
        let ghost old_chain = self.chain@;
        let ghost b = block;
        self.chain.push(block);
        proof {
            assert(self.chain@.drop_last() =~= old_chain);
            assert(self.chain@.last() == b);
            let c = self.chain@;
            assert forall|i: int|
                0 <= i < c.len() implies c[i].index == i && c[i].hash@ == block_hash_chars(
                c[i],
            ) by {
                if i < c.len() - 1 {
                    assert(c[i] == old_chain[i]);
                }
            }
            assert forall|i: int|
                0 < i < c.len() implies c[i].previous_hash@ == c[i - 1].hash@ by {
                if i < c.len() - 1 {
                    assert(c[i] == old_chain[i]);
                }
            }
            assert forall|i: int, j: int, k: int, l: int|
                0 <= i < c.len() && 0 <= j < c[i].transactions@.len() && 0 <= k < c.len() && 0 <= l
                    < c[k].transactions@.len() && i != k implies !tx_eq(
                c[i].transactions@[j],
                c[k].transactions@[l],
            ) by {
                if i == c.len() - 1 {
                    assert(!chain_has_tx(old_chain, old(self).spec_pending()[j]));
                    assert(txs_have(old_chain[k].transactions@, c[i].transactions@[j]) ==> false);
                } else if k == c.len() - 1 {
                    assert(!chain_has_tx(old_chain, old(self).spec_pending()[l]));
                    assert(txs_have(old_chain[i].transactions@, c[k].transactions@[l]) ==> false);
                }
            }
            assert(chain_flow(c) == chain_flow(old_chain) + txs_flow(old(self).spec_pending()));
            assert(self.spec_pending() =~= Seq::<Transaction>::empty());
        }
        Ok(())
    }

    /// Commits the mempool as one new block stamped with the current
    /// wall-clock second.
    pub fn create_block(&mut self) -> (r: IcnResult<()>)
        requires
            old(self).wf(),
        ensures
            final(self).wf(),
            r is Ok,
            final(self).spec_pending() =~= Seq::<Transaction>::empty(),
            final(self).spec_chain().len() == old(self).spec_chain().len() + 1,
            final(self).spec_chain().subrange(0, old(self).spec_chain().len() as int) =~= old(
                self,
            ).spec_chain(),
            final(self).spec_chain().last().transactions@ == old(self).spec_pending(),
            final(self).spec_chain().last().index == old(self).spec_chain().len(),
            old(self).spec_chain().len() == 0 ==> final(self).spec_chain().last().previous_hash@
                == "0"@,
            old(self).spec_chain().len() > 0 ==> final(self).spec_chain().last().previous_hash@
                == old(self).spec_chain().last().hash@,
    {
        let timestamp = crate::clock::now_seconds();
        self.create_block_at(timestamp)
    }

    /// The balance of one account in one currency: the folded sum of
    /// credits minus debits and fees across all committed transactions.
    #[verifier::rlimit(60)]
    pub fn get_balance(&self, account: &str, currency_type: &CurrencyType) -> (r: i128)
        requires
            self.wf(),
        ensures
            r == chain_balance(self.spec_chain(), account@, *currency_type),
    {
        let ghost c = self.chain@;
        proof {
            lemma_txs_balance_bounded(self.spec_pending(), account@, *currency_type);
            assert(chain_flow(c) <= i128::MAX as int);
        }
        let mut acc: i128 = 0;
        let mut bi: usize = 0;
        while bi < self.chain.len()
            invariant
                c == self.chain@,
                chain_flow(c) <= i128::MAX as int,
                bi <= c.len(),
                acc == chain_balance(c.subrange(0, bi as int), account@, *currency_type),
            decreases c.len() - bi,
        {
            let txs = &self.chain[bi].transactions;
            let ghost ts = txs@;
            let mut ti: usize = 0;
            while ti < txs.len()
                invariant
                    c == self.chain@,
                    chain_flow(c) <= i128::MAX as int,
                    bi < c.len(),
                    ts == c[bi as int].transactions@,
                    ts == txs@,
                    ti <= ts.len(),
                    acc == chain_balance(c.subrange(0, bi as int), account@, *currency_type)
                        + txs_balance(ts.subrange(0, ti as int), account@, *currency_type),
                decreases ts.len() - ti,
            {
                let tx = &txs[ti];
                let credit: i128 = if str_eq(tx.to.as_str(), account) && tx.currency_type
                    == *currency_type {
                    tx.amount as i128
                } else {
                    0
                };
                let debit: i128 = if str_eq(tx.from.as_str(), account) && tx.currency_type
                    == *currency_type {
                    tx.amount as i128 + tx.fee as i128
                } else {
                    0
                };
                proof {
                    let pre = ts.subrange(0, ti as int);
                    let post = ts.subrange(0, ti + 1);
                    assert(post.drop_last() =~= pre);
                    assert(post.last() == ts[ti as int]);
                    assert(credit - debit == tx_delta(ts[ti as int], account@, *currency_type));
                    lemma_chain_balance_bounded(c.subrange(0, bi as int), account@, *currency_type);
                    lemma_txs_balance_bounded(post, account@, *currency_type);
                    lemma_chain_flow_prefix(c, bi as int);
                    lemma_txs_flow_prefix(ts, ti + 1);
                    assert(c.subrange(0, bi + 1).drop_last() =~= c.subrange(0, bi as int));
                    assert(c.subrange(0, bi + 1).last() == c[bi as int]);
                    assert(chain_flow(c.subrange(0, bi + 1)) == chain_flow(
                        c.subrange(0, bi as int),
                    ) + txs_flow(ts));
                    lemma_chain_flow_prefix(c, bi + 1);
                }
                let d: i128 = credit - debit;
                proof {
                    let pre_bal = chain_balance(c.subrange(0, bi as int), account@, *currency_type);
                    let post_bal = txs_balance(
                        ts.subrange(0, ti + 1),
                        account@,
                        *currency_type,
                    );
                    assert(acc + d == pre_bal + post_bal);
                    assert(pre_bal + post_bal <= chain_flow(c.subrange(0, bi as int)) + txs_flow(
                        ts.subrange(0, ti + 1),
                    ));
                    assert(-(chain_flow(c.subrange(0, bi as int)) + txs_flow(
                        ts.subrange(0, ti + 1),
                    )) <= pre_bal + post_bal);
                    assert(chain_flow(c.subrange(0, bi as int)) + txs_flow(ts.subrange(0, ti + 1))
                        <= chain_flow(c.subrange(0, bi + 1)));
                }
                acc = acc + d;
                ti += 1;
            }
            proof {
                assert(ts.subrange(0, ts.len() as int) =~= ts);
                assert(c.subrange(0, bi + 1).drop_last() =~= c.subrange(0, bi as int));
                assert(c.subrange(0, bi + 1).last() == c[bi as int]);
            }
            bi += 1;
        }
        proof {
            assert(c.subrange(0, c.len() as int) =~= c);
        }
        acc
    }
}

/// Every committed chain that satisfies the chain invariant is hash-linked:
/// each non-initial block records its predecessor's hash and carries the
/// digest of its own contents.
pub proof fn lemma_chain_linked(c: Seq<Block>)
    requires
        chain_wf(c),
    ensures
        forall|i: int|
            0 < i < c.len() ==> (#[trigger] c[i]).previous_hash@ == c[i - 1].hash@ && c[i].hash@
                == block_hash_chars(c[i]),
{
}

/// No two distinct committed blocks of a distinct-transaction chain contain
/// structurally equal transactions.
pub proof fn lemma_no_duplicate_across_blocks(c: Seq<Block>, i: int, j: int, k: int, l: int)
    requires
        chain_txs_distinct(c),
        0 <= i < c.len(),
        0 <= j < c[i].transactions@.len(),
        0 <= k < c.len(),
        0 <= l < c[k].transactions@.len(),
        i != k,
    ensures
        !tx_eq(c[i].transactions@[j], c[k].transactions@[l]),
{
}

} // verus!
