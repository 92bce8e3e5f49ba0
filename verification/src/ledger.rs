//! The ledger: an append-only chain of records and a queue of pending
//! entries. A genesis record with sentinel digests stands at index 0; every
//! later record carries its position, its predecessor's digest and the digest
//! of its own fields.

use crate::digest::{spec_digest, u64_le_bytes, u64_to_hex, u64_to_le_bytes};
use std::collections::hash_map::DefaultHasher;
use std::hash::Hasher;
use std::time::{SystemTime, UNIX_EPOCH};
use vstd::prelude::*;
use vstd::std_specs::hash::DefaultHasherAdditionalSpecFns;
use vstd::utf8::encode_utf8;

verus! {

/// One record of the chain, immutable once appended.
#[derive(Debug)]
pub struct Block {
    /// The record's position in the chain.
    pub index: u32,
    /// Seconds since the Unix epoch when the record was built.
    pub timestamp: u64,
    /// The record's payload.
    pub data: String,
    /// The digest of the immediately preceding record.
    pub previous_hash: String,
    /// The digest over this record's previous digest, timestamp and payload.
    pub hash: String,
}

/// The ledger: the ordered chain of records and the pending-entry queue.
#[derive(Debug)]
pub struct Blockchain {
    chain: Vec<Block>,
    pending_transactions: Vec<String>,
}

/// Record `i` of `chain` carries its position, its predecessor's digest, and
/// the digest of its own linkage fields.
pub open spec fn linked(chain: Seq<Block>, i: int) -> bool
    recommends
        1 <= i < chain.len(),
{
    &&& chain[i].index == i
    &&& chain[i].previous_hash@ == chain[i - 1].hash@
    &&& chain[i].hash@ == spec_digest(chain[i].previous_hash@, chain[i].timestamp, chain[i].data@)
}

/// `post` extends `pre`: every record of `pre` stands unchanged at its index
/// in `post`.
pub open spec fn extends(post: Seq<Block>, pre: Seq<Block>) -> bool {
    &&& pre.len() <= post.len()
    &&& forall|i: int| 0 <= i < pre.len() ==> post[i] == pre[i]
}

/// The append-only law: extension is transitive, so over any sequence of
/// operations that each extend the chain, no record is ever changed or
/// removed once it stands at its index.
pub proof fn lemma_extends_trans(a: Seq<Block>, b: Seq<Block>, c: Seq<Block>)
    requires
        extends(b, a),
        extends(c, b),
    ensures
        extends(c, a),
{
}

/// The entries joined in order with the `;` delimiter.
pub open spec fn joined(entries: Seq<Seq<char>>) -> Seq<char>
    decreases entries.len(),
{
    if entries.len() == 0 {
        Seq::empty()
    } else if entries.len() == 1 {
        entries[0]
    } else {
        entries[0] + seq![';'] + joined(entries.drop_first())
    }
}

/// Joining one more entry appends a delimiter (unless nothing was joined
/// yet) and then the entry.
proof fn lemma_joined_push(entries: Seq<Seq<char>>, x: Seq<char>)
    ensures
        (joined(entries.push(x)) == if entries.len() == 0 {
            x
        } else {
            joined(entries) + seq![';'] + x
        }),
    decreases entries.len(),
{
    if entries.len() == 1 {
        assert(entries.push(x).drop_first() =~= seq![x]);
        assert(joined(seq![x]) == x);
    } else if entries.len() > 1 {
        lemma_joined_push(entries.drop_first(), x);
        assert(entries.push(x).drop_first() =~= entries.drop_first().push(x));
        assert((entries[0] + seq![';'] + joined(entries.drop_first())) + seq![';'] + x =~= entries[0]
            + seq![';'] + (joined(entries.drop_first()) + seq![';'] + x));
    }
}

/// Joins the entries in order into one payload, separated by `;`.
fn join_entries(entries: &Vec<String>) -> (r: String)
    ensures
        r@ == joined(entries.deep_view()),
{
    let ghost dv = entries.deep_view();
    let mut s = String::new();
    let mut i: usize = 0;
    while i < entries.len()
        invariant
            i <= entries@.len(),
            dv == entries.deep_view(),
            s@ == joined(dv.take(i as int)),
        decreases entries@.len() - i,
    {
        if i > 0 {
            s.append(";");
        }
        s.append(entries[i].as_str());
        proof {
            reveal_strlit(";");
            assert(";"@ =~= seq![';']);
            assert(dv.take(i as int).push(dv[i as int]) =~= dv.take(i + 1));
            lemma_joined_push(dv.take(i as int), dv[i as int]);
            if i == 0 {
                assert(Seq::<char>::empty() + dv[i as int] =~= dv[i as int]);
            }
            assert(s@ == joined(dv.take(i + 1)));
        }
        i = i + 1;
    }
    proof {
        assert(dv.take(entries@.len() as int) =~= dv);
    }
    s
}

impl Blockchain {
    /// The records of the chain, in order.
    pub closed spec fn spec_chain(self) -> Seq<Block> {
        self.chain@
    }

    /// The pending entries, in insertion order, as character sequences.
    pub closed spec fn spec_pending(self) -> Seq<Seq<char>> {
        self.pending_transactions.deep_view()
    }

    /// Well-formedness: the chain is never empty, the genesis record with its
    /// sentinel digests stands at index 0, and every later record is linked
    /// to its predecessor.
    pub open spec fn wf(self) -> bool {
        &&& 1 <= self.spec_chain().len() <= u32::MAX
        &&& self.spec_chain()[0].index == 0
        &&& self.spec_chain()[0].timestamp == 0
        &&& self.spec_chain()[0].data@ == "Genesis Block"@
        &&& self.spec_chain()[0].previous_hash@ == "0"@
        &&& self.spec_chain()[0].hash@ == "0"@
        &&& forall|i: int| 1 <= i < self.spec_chain().len() ==> linked(self.spec_chain(), i)
    }

    /// A fresh ledger: exactly the genesis record, whose digest is the
    /// constant sentinel and not computed by the digest function, and no
    /// pending entries.
    pub fn new() -> (r: Blockchain)
        ensures
            r.wf(),
            r.spec_chain().len() == 1,
            r.spec_chain()[0].index == 0,
            r.spec_chain()[0].timestamp == 0,
            r.spec_chain()[0].data@ == "Genesis Block"@,
            r.spec_chain()[0].previous_hash@ == "0"@,
            r.spec_chain()[0].hash@ == "0"@,
            r.spec_pending() == Seq::<Seq<char>>::empty(),
    {
        let genesis = Block {
            index: 0,
            timestamp: 0,
            data: String::from_str("Genesis Block"),
            previous_hash: String::from_str("0"),
            hash: String::from_str("0"),
        };
        let mut chain: Vec<Block> = Vec::new();
        chain.push(genesis);
        let r = Blockchain { chain, pending_transactions: Vec::new() };
        proof {
            assert(r.spec_pending() =~= Seq::<Seq<char>>::empty());
        }
        r
    }

    /// The digest of `(previous_hash, timestamp, data)`: a pure function of
    /// the three inputs, mixing all of them.
    pub fn calculate_hash(&self, previous_hash: &str, timestamp: u64, data: &str) -> (r: String)
        ensures
            r@ == spec_digest(previous_hash@, timestamp, data@),
    {
        let mut hasher = DefaultHasher::new();
        hasher.write(previous_hash.as_bytes());
        let ts_bytes = u64_to_le_bytes(timestamp);
        hasher.write(ts_bytes.as_slice());
        hasher.write(data.as_bytes());
        proof {
            assert(hasher@ =~= seq![
                encode_utf8(previous_hash@),
                u64_le_bytes(timestamp),
                encode_utf8(data@),
            ]);
        }
        let value = hasher.finish();
        u64_to_hex(value)
    }

    /// Appends a record carrying `data` at the given timestamp, linked to
    /// the last record. Every record of the old chain stands unchanged.
    pub fn add_block_with_timestamp(&mut self, data: String, timestamp: u64)
        requires
            old(self).wf(),
            old(self).spec_chain().len() < u32::MAX,
        ensures
            final(self).wf(),
            final(self).spec_pending() == old(self).spec_pending(),
            extends(final(self).spec_chain(), old(self).spec_chain()),
            final(self).spec_chain().len() == old(self).spec_chain().len() + 1,
            ({
                let n = old(self).spec_chain().len() as int;
                let b = final(self).spec_chain()[n];
                &&& b.index == n
                &&& b.timestamp == timestamp
                &&& b.data@ == data@
                &&& b.previous_hash@ == old(self).spec_chain()[n - 1].hash@
                &&& b.hash@ == spec_digest(b.previous_hash@, timestamp, data@)
            }),
    {
        let n = self.chain.len();
        let previous_hash = self.chain[n - 1].hash.clone();
        let hash = self.calculate_hash(previous_hash.as_str(), timestamp, data.as_str());
        let block = Block { index: n as u32, timestamp, data, previous_hash, hash };
        self.chain.push(block);
        proof {
            let pre = old(self).spec_chain();
            let post = self.spec_chain();
            assert forall|i: int| 1 <= i < post.len() implies linked(post, i) by {
                if i < n {
                    assert(linked(pre, i));
                }
            }
        }
    }

    /// Appends a record carrying `data`, timestamped with the current clock
    /// reading. The record is linked to the last record, and every record of
    /// the old chain stands unchanged; the timestamp is whatever the clock
    /// returned.
    pub fn add_block(&mut self, data: String)
        requires
            old(self).wf(),
            old(self).spec_chain().len() < u32::MAX,
        ensures
            final(self).wf(),
            final(self).spec_pending() == old(self).spec_pending(),
            extends(final(self).spec_chain(), old(self).spec_chain()),
            final(self).spec_chain().len() == old(self).spec_chain().len() + 1,
            ({
                let n = old(self).spec_chain().len() as int;
                let b = final(self).spec_chain()[n];
                &&& b.index == n
                &&& b.data@ == data@
                &&& b.previous_hash@ == old(self).spec_chain()[n - 1].hash@
                &&& b.hash@ == spec_digest(b.previous_hash@, b.timestamp, data@)
            }),
    {
        let timestamp = current_timestamp();
        self.add_block_with_timestamp(data, timestamp);
    }

    /// Queues `transaction` as a pending entry, preserving insertion order;
    /// the chain itself is untouched. Empty entries are permitted.
    pub fn add_transaction(&mut self, transaction: String)
        requires
            old(self).wf(),
        ensures
            final(self).wf(),
            final(self).spec_chain() == old(self).spec_chain(),
            final(self).spec_pending() == old(self).spec_pending().push(transaction@),
    {
        self.pending_transactions.push(transaction);
        proof {
            assert(self.spec_pending() =~= old(self).spec_pending().push(transaction@));
        }
    }

    /// Commits all pending entries, joined with `;`, as one new record and
    /// clears the queue; with nothing pending it changes nothing and reports
    /// the no-op.
    pub fn mine_block(&mut self) -> (mined: bool)
        requires
            old(self).wf(),
            old(self).spec_chain().len() < u32::MAX,
        ensures
            final(self).wf(),
            extends(final(self).spec_chain(), old(self).spec_chain()),
            mined == (old(self).spec_pending().len() > 0),
            !mined ==> *final(self) == *old(self),
            mined ==> final(self).spec_pending() == Seq::<Seq<char>>::empty(),
            mined ==> final(self).spec_chain().len() == old(self).spec_chain().len() + 1,
            (mined ==> {
                let n = old(self).spec_chain().len() as int;
                let b = final(self).spec_chain()[n];
                &&& b.index == n
                &&& b.data@ == joined(old(self).spec_pending())
                &&& b.previous_hash@ == old(self).spec_chain()[n - 1].hash@
                &&& b.hash@ == spec_digest(b.previous_hash@, b.timestamp, b.data@)
            }),
    {
        if self.pending_transactions.is_empty() {
            return false;
        }
        let data = join_entries(&self.pending_transactions);
        self.add_block(data);
        self.pending_transactions.clear();
        proof {
            assert(self.spec_pending() =~= Seq::<Seq<char>>::empty());
        }
        true
    }

    /// Read access to the chain of records.
    pub fn records(&self) -> (r: &Vec<Block>)
        ensures
            r@ == self.spec_chain(),
    {
        &self.chain
    }

    /// Read access to the pending entries.
    pub fn pending(&self) -> (r: &Vec<String>)
        ensures
            r.deep_view() == self.spec_pending(),
    {
        &self.pending_transactions
    }
}

/// Relies on `std::time::SystemTime::now` and `duration_since(UNIX_EPOCH)`:
/// the seconds of the system clock since the Unix epoch. Nothing is promised
/// of the value, since it depends on the clock; the process exits by panic
/// when the clock reads before the epoch.
#[verifier::external_body]
pub fn current_timestamp() -> u64 {
    SystemTime::now().duration_since(UNIX_EPOCH).expect("Time went backwards").as_secs()
}

} // verus!
