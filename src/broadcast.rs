use vstd::prelude::*;
use crate::rpc::{quote, quoted};
use crate::text::{hex_encode, hex_of};

verus! {

/// The position of the first entry for `txid`, or the number of entries.
pub open spec fn entry_index(s: Seq<(String, Vec<u8>)>, txid: Seq<char>, from: int) -> int
    decreases s.len() - from,
{
    if from >= s.len() {
        s.len() as int
    } else if s[from].0@ == txid {
        from
    } else {
        entry_index(s, txid, from + 1)
    }
}

proof fn lemma_entry_index(s: Seq<(String, Vec<u8>)>, txid: Seq<char>, from: int)
    requires
        0 <= from <= s.len(),
    ensures
        from <= entry_index(s, txid, from) <= s.len(),
        entry_index(s, txid, from) < s.len() ==> s[entry_index(s, txid, from)].0@ == txid,
        forall|i: int| from <= i < entry_index(s, txid, from) ==> s[i].0@ != txid,
    decreases s.len() - from,
{
    if from < s.len() && s[from].0@ != txid {
        lemma_entry_index(s, txid, from + 1);
    }
}

/// Funding transactions not yet confirmed, by transaction id, each with its serialized
/// bytes, in the order they were first added.
pub struct Broadcaster {
    pub pending: Vec<(String, Vec<u8>)>,
}

impl Broadcaster {
    /// No transaction id appears twice.
    pub open spec fn wf(&self) -> bool {
        forall|i: int, j: int|
            0 <= i < self.pending@.len() && 0 <= j < self.pending@.len() && i != j
                ==> self.pending@[i].0@ != self.pending@[j].0@
    }

    pub fn new() -> (r: Broadcaster)
        ensures
            r.wf(),
            r.pending@.len() == 0,
    {
        Broadcaster { pending: Vec::new() }
    }

    fn find(&self, txid: &String) -> (r: usize)
        ensures
            r as int == entry_index(self.pending@, txid@, 0),
            r <= self.pending@.len(),
    {
        proof {
            lemma_entry_index(self.pending@, txid@, 0);
        }
        let mut i: usize = 0;
        while i < self.pending.len() && self.pending[i].0 != *txid
            invariant
                i <= self.pending@.len(),
                entry_index(self.pending@, txid@, i as int) == entry_index(self.pending@, txid@, 0),
            decreases self.pending.len() - i,
        {
            i = i + 1;
        }
        i
    }

    /// Records `tx` under `txid`, replacing an earlier transaction with that id.
    pub fn insert(&mut self, txid: String, tx: Vec<u8>)
        requires
            old(self).wf(),
        ensures
            final(self).wf(),
            ({
                let i = entry_index(old(self).pending@, txid@, 0);
                if i < old(self).pending@.len() {
                    final(self).pending@ == old(self).pending@.update(i, (txid, tx))
                } else {
                    final(self).pending@ == old(self).pending@.push((txid, tx))
                }
            }),
    {
        proof {
            lemma_entry_index(self.pending@, txid@, 0);
        }
        let i = self.find(&txid);
        if i < self.pending.len() {
            self.pending.set(i, (txid, tx));
        } else {
            self.pending.push((txid, tx));
        }
    }

    /// Takes the transaction recorded under `txid` out, if there is one.
    pub fn remove(&mut self, txid: &String) -> (r: Option<Vec<u8>>)
        requires
            old(self).wf(),
        ensures
            final(self).wf(),
            ({
                let i = entry_index(old(self).pending@, txid@, 0);
                if i < old(self).pending@.len() {
                    r == Some(old(self).pending@[i].1) && final(self).pending@
                        == old(self).pending@.remove(i)
                } else {
                    r is None && final(self).pending@ == old(self).pending@
                }
            }),
    {
        let i = self.find(txid);
        if i < self.pending.len() {
            let (_, tx) = self.pending.remove(i);
            Some(tx)
        } else {
            None
        }
    }

    /// The `sendrawtransaction` parameter of every pending transaction, in order: its bytes
    /// in hexadecimal, quoted.
    pub fn rebroadcast_params(&self) -> (r: Vec<String>)
        ensures
            r@.len() == self.pending@.len(),
            forall|i: int| 0 <= i < r@.len() ==> #[trigger] r@[i]@ == quoted(hex_of(self.pending@[i].1@)),
    {
        let mut r: Vec<String> = Vec::new();
        let mut i: usize = 0;
        while i < self.pending.len()
            invariant
                i <= self.pending@.len(),
                r@.len() == i,
                forall|k: int| 0 <= k < i ==> #[trigger] r@[k]@ == quoted(hex_of(self.pending@[k].1@)),
            decreases self.pending.len() - i,
        {
            let hex = hex_encode(&self.pending[i].1);
            r.push(quote(hex.as_str()));
            i = i + 1;
        }
        r
    }
}

} // verus!
