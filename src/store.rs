//! An append-only keyed object store held in memory: 64-bit keys, each with
//! the latest blob written under it, and batches applied all at once.
use std::collections::HashMap;
use vstd::prelude::*;

verus! {

/// `n + 1`, saturating at the largest `u64`.
pub open spec fn bump(n: nat) -> nat {
    if n < u64::MAX {
        n + 1
    } else {
        n
    }
}

/// The blob map after a batch: each entry in order writes its blob under its
/// key, or removes the key where it carries none.
pub open spec fn apply_batch(m: Map<u64, Seq<u8>>, batch: Seq<(u64, Option<Vec<u8>>)>) -> Map<
    u64,
    Seq<u8>,
>
    decreases batch.len(),
{
    if batch.len() == 0 {
        m
    } else {
        let prev = apply_batch(m, batch.drop_last());
        match batch.last().1 {
            Some(v) => prev.insert(batch.last().0, v@),
            None => prev.remove(batch.last().0),
        }
    }
}

/// A copy of the bytes.
pub fn copy_bytes(v: &Vec<u8>) -> (r: Vec<u8>)
    ensures
        r@ == v@,
{
    let mut out: Vec<u8> = Vec::with_capacity(v.len());
    let mut i: usize = 0;
    while i < v.len()
        invariant
            0 <= i <= v@.len(),
            out@ == v@.subrange(0, i as int),
        decreases v@.len() - i,
    {
        out.push(v[i]);
        proof {
            assert(out@ =~= v@.subrange(0, i + 1));
        }
        i = i + 1;
    }
    assert(v@.subrange(0, v@.len() as int) =~= v@);
    out
}

/// The object store.
#[derive(Debug)]
pub struct ObjectStore {
    blobs: HashMap<u64, Vec<u8>>,
    fetches: u64,
}

impl ObjectStore {
    /// The blob under each key.
    pub closed spec fn contents(&self) -> Map<u64, Seq<u8>> {
        self.blobs@.map_values(|v: Vec<u8>| v@)
    }

    /// How many reads the store has served (saturating).
    pub closed spec fn fetch_count(&self) -> nat {
        self.fetches as nat
    }

    /// An empty store.
    pub fn new() -> (r: ObjectStore)
        ensures
            r.contents() == Map::<u64, Seq<u8>>::empty(),
            r.fetch_count() == 0,
    {
        let r = ObjectStore { blobs: HashMap::new(), fetches: 0 };
        assert(r.contents() =~= Map::<u64, Seq<u8>>::empty());
        r
    }

    /// The number of reads served so far.
    pub fn fetches(&self) -> (r: u64)
        ensures
            r == self.fetch_count(),
    {
        self.fetches
    }

    /// The latest blob under `key`, if one was ever written.
    pub fn read(&mut self, key: u64) -> (r: Option<Vec<u8>>)
        ensures
            final(self).contents() == old(self).contents(),
            final(self).fetch_count() == bump(old(self).fetch_count()),
            old(self).contents().contains_key(key) ==> (r matches Some(v) && v@ == old(
                self,
            ).contents()[key]),
            !old(self).contents().contains_key(key) ==> r is None,
    {
        if self.fetches < u64::MAX {
            self.fetches = self.fetches + 1;
        }
        match self.blobs.get(&key) {
            Some(v) => Some(copy_bytes(v)),
            None => None,
        }
    }

    /// Applies every entry of the batch, in order.
    pub fn write_batch(&mut self, batch: Vec<(u64, Option<Vec<u8>>)>)
        ensures
            final(self).contents() == apply_batch(old(self).contents(), batch@),
            final(self).fetch_count() == old(self).fetch_count(),
    {
        let mut i: usize = 0;
        while i < batch.len()
            invariant
                0 <= i <= batch@.len(),
                self.contents() == apply_batch(old(self).contents(), batch@.take(i as int)),
                self.fetch_count() == old(self).fetch_count(),
            decreases batch@.len() - i,
        {
            let key = batch[i].0;
            match &batch[i].1 {
                Some(v) => {
                    let c = copy_bytes(v);
                    self.blobs.insert(key, c);
                },
                None => {
                    self.blobs.remove(&key);
                },
            }
            proof {
                let t = batch@.take(i + 1);
                assert(t.drop_last() =~= batch@.take(i as int));
                assert(self.contents() =~= apply_batch(old(self).contents(), t));
            }
            i = i + 1;
        }
        assert(batch@.take(batch@.len() as int) =~= batch@);
    }
}

} // verus!
