use vstd::prelude::*;

use crate::block::{block_hash, Block, BlockView};

verus! {

/// Why a store operation failed.
#[derive(Debug, Clone, Copy, PartialEq, Eq, Structural)]
pub enum StoreError {
    /// No block matches the query.
    NotFound,
    /// A block with this index is already stored (indices are unique).
    DuplicateIndex,
    /// A block with this hash is already stored (hashes are unique).
    DuplicateHash,
}

/// Counts and bounds of the stored blocks.
#[derive(Debug, Clone, Copy, PartialEq, Eq, Structural)]
pub struct DatabaseStats {
    pub total_blocks: u64,
    pub min_index: Option<u64>,
    pub max_index: Option<u64>,
    pub min_timestamp: Option<i64>,
    pub max_timestamp: Option<i64>,
}

/// Blocks in strictly ascending index order, with unique hashes.
pub open spec fn store_wf(s: Seq<BlockView>) -> bool {
    &&& forall|i: int, j: int| 0 <= i < j < s.len() ==> s[i].index < s[j].index
    &&& forall|i: int, j: int| 0 <= i < s.len() && 0 <= j < s.len() && i != j ==> s[i].hash != s[j].hash
}

/// The stored block with index `idx`, if any.
pub open spec fn index_lookup(s: Seq<BlockView>, idx: u64) -> Option<BlockView> {
    if exists|i: int| 0 <= i < s.len() && s[i].index == idx {
        Some(s[choose|i: int| 0 <= i < s.len() && s[i].index == idx])
    } else {
        None
    }
}

/// The stored block with hash `h`, if any.
pub open spec fn hash_lookup(s: Seq<BlockView>, h: Seq<char>) -> Option<BlockView> {
    if exists|i: int| 0 <= i < s.len() && s[i].hash == h {
        Some(s[choose|i: int| 0 <= i < s.len() && s[i].hash == h])
    } else {
        None
    }
}

/// Each block after the first links to its predecessor's hash and carries
/// its own content hash.
pub open spec fn chain_valid(s: Seq<BlockView>) -> bool {
    forall|i: int|
        1 <= i < s.len() ==> #[trigger] s[i].previous_hash == s[i - 1].hash && block_hash(s[i])
            == s[i].hash
}

/// Whether a batch brings only indices and hashes that are neither stored
/// nor repeated within it.
pub open spec fn batch_fits(s: Seq<BlockView>, b: Seq<BlockView>) -> bool {
    &&& forall|k: int, m: int|
        0 <= k < b.len() && 0 <= m < s.len() ==> s[m].index != b[k].index && s[m].hash != b[k].hash
    &&& forall|j: int, k: int|
        0 <= j < k < b.len() ==> b[j].index != b[k].index && b[j].hash != b[k].hash
}

/// The stored blocks with `lo <= index <= hi`, ascending.
pub open spec fn in_range(s: Seq<BlockView>, lo: u64, hi: u64) -> Seq<BlockView> {
    s.filter(|b: BlockView| lo <= b.index && b.index <= hi)
}

pub proof fn lemma_index_lookup_at(s: Seq<BlockView>, i: int)
    requires
        store_wf(s),
        0 <= i < s.len(),
    ensures
        index_lookup(s, s[i].index) == Some(s[i]),
{
    let j = choose|j: int| 0 <= j < s.len() && s[j].index == s[i].index;
    if j < i {
        assert(s[j].index < s[i].index);
    } else if j > i {
        assert(s[i].index < s[j].index);
    }
}

pub proof fn lemma_hash_lookup_at(s: Seq<BlockView>, i: int)
    requires
        store_wf(s),
        0 <= i < s.len(),
    ensures
        hash_lookup(s, s[i].hash) == Some(s[i]),
{
    let j = choose|j: int| 0 <= j < s.len() && s[j].hash == s[i].hash;
}

/// A block saved into the store is what a fetch by its index returns.
pub proof fn lemma_save_then_fetch_by_index(s: Seq<BlockView>, pos: int, b: BlockView)
    requires
        0 <= pos <= s.len(),
        store_wf(s.insert(pos, b)),
    ensures
        index_lookup(s.insert(pos, b), b.index) == Some(b),
{
    lemma_index_lookup_at(s.insert(pos, b), pos);
}

/// A block saved into the store is what a fetch by its hash returns.
pub proof fn lemma_save_then_fetch_by_hash(s: Seq<BlockView>, pos: int, b: BlockView)
    requires
        0 <= pos <= s.len(),
        store_wf(s.insert(pos, b)),
    ensures
        hash_lookup(s.insert(pos, b), b.hash) == Some(b),
{
    lemma_hash_lookup_at(s.insert(pos, b), pos);
}

/// In a store whose chain verifies, a block whose predecessor index is
/// stored links to that block's hash, and every block after the first
/// carries its own content hash.
pub proof fn lemma_verified_chain(s: Seq<BlockView>)
    requires
        store_wf(s),
        chain_valid(s),
    ensures
        forall|i: int, j: int|
            0 <= i < s.len() && 0 <= j < s.len() && s[j].index == s[i].index + 1 ==> s[j].previous_hash
                == s[i].hash,
        forall|i: int| 1 <= i < s.len() ==> block_hash(s[i]) == #[trigger] s[i].hash,
{
    assert forall|i: int, j: int|
        0 <= i < s.len() && 0 <= j < s.len() && s[j].index == s[i].index + 1 implies s[j].previous_hash
        == s[i].hash by {
        if j <= i {
            if j < i {
                assert(s[j].index < s[i].index);
            }
        } else if j > i + 1 {
            assert(s[i + 1].index < s[j].index);
            assert(s[i].index < s[i + 1].index);
        } else {
            assert(s[j].previous_hash == s[j - 1].hash);
        }
    }
    assert forall|i: int| 1 <= i < s.len() implies block_hash(s[i]) == #[trigger] s[i].hash by {
        assert(s[i].previous_hash == s[i - 1].hash);
    }
}

/// Saving a block that follows the latest stored one — a higher index,
/// the latest block's hash as its previous hash, and its own content hash —
/// keeps a verifying chain verifying.
pub proof fn lemma_append_keeps_chain_valid(s: Seq<BlockView>, pos: int, b: BlockView)
    requires
        chain_valid(s),
        0 <= pos <= s.len(),
        store_wf(s.insert(pos, b)),
        s.len() > 0 ==> b.index > s.last().index && b.previous_hash == s.last().hash,
        block_hash(b) == b.hash,
    ensures
        chain_valid(s.insert(pos, b)),
{
    let t = s.insert(pos, b);
    if pos < s.len() {
        assert(t[pos] == b);
        assert(t[s.len() as int] == s[s.len() - 1]);
        assert(t[pos].index < t[s.len() as int].index);
        assert(false);
    }
    assert(t =~= s.push(b));
    assert forall|i: int| 1 <= i < t.len() implies #[trigger] t[i].previous_hash == t[i - 1].hash
        && block_hash(t[i]) == t[i].hash by {
        if i < s.len() {
            assert(t[i] == s[i] && t[i - 1] == s[i - 1]);
        } else {
            assert(t[i] == b && t[i - 1] == s.last());
        }
    }
}

/// The ledger: blocks kept in ascending index order.
pub struct BlockStore {
    blocks: Vec<Block>,
}

impl View for BlockStore {
    type V = Seq<BlockView>;

    closed spec fn view(&self) -> Seq<BlockView> {
        self.blocks@.map_values(|b: Block| b@)
    }
}

impl BlockStore {
    pub open spec fn wf(&self) -> bool {
        store_wf(self@)
    }

    pub fn new() -> (r: BlockStore)
        ensures
            r.wf(),
            r@ == Seq::<BlockView>::empty(),
    {
        let r = BlockStore { blocks: Vec::new() };
        assert(r@ =~= Seq::<BlockView>::empty());
        r
    }

    /// Position of the block with index `idx`, if stored.
    fn position_of_index(&self, idx: u64) -> (r: Option<usize>)
        requires
            self.wf(),
        ensures
            r matches Some(i) ==> i < self@.len() && self@[i as int].index == idx,
            r is None ==> forall|i: int| 0 <= i < self@.len() ==> self@[i].index != idx,
    {
        let mut i: usize = 0;
        while i < self.blocks.len()
            invariant
                i <= self@.len(),
                self@.len() == self.blocks@.len(),
                forall|k: int| 0 <= k < i ==> self@[k].index != idx,
            decreases self@.len() - i,
        {
            if self.blocks[i].index == idx {
                return Some(i);
            }
            i = i + 1;
        }
        None
    }

    /// Position of the block with hash `h`, if stored.
    fn position_of_hash(&self, h: &String) -> (r: Option<usize>)
        requires
            self.wf(),
        ensures
            r matches Some(i) ==> i < self@.len() && self@[i as int].hash == h@,
            r is None ==> forall|i: int| 0 <= i < self@.len() ==> self@[i].hash != h@,
    {
        let mut i: usize = 0;
        while i < self.blocks.len()
            invariant
                i <= self@.len(),
                self@.len() == self.blocks@.len(),
                forall|k: int| 0 <= k < i ==> self@[k].hash != h@,
            decreases self@.len() - i,
        {
            if self.blocks[i].hash == *h {
                return Some(i);
            }
            i = i + 1;
        }
        None
    }

    /// Adds `block`, keeping the index order. Refused, with nothing changed,
    /// when its index or its hash is already stored.
    pub fn save_block(&mut self, block: &Block) -> (r: Result<(), StoreError>)
        requires
            old(self).wf(),
        ensures
            final(self).wf(),
            index_lookup(old(self)@, block.index) is Some ==> r == Err::<(), StoreError>(
                StoreError::DuplicateIndex,
            ) && final(self)@ == old(self)@,
            index_lookup(old(self)@, block.index) is None && hash_lookup(old(self)@, block.hash@) is Some
                ==> r == Err::<(), StoreError>(StoreError::DuplicateHash) && final(self)@ == old(self)@,
            index_lookup(old(self)@, block.index) is None && hash_lookup(old(self)@, block.hash@) is None
                ==> r is Ok && exists|pos: int|
                0 <= pos <= old(self)@.len() && final(self)@ == old(self)@.insert(pos, block@),
    {
        if let Some(i) = self.position_of_index(block.index) {
            return Err(StoreError::DuplicateIndex);
        }
        if let Some(i) = self.position_of_hash(&block.hash) {
            return Err(StoreError::DuplicateHash);
        }
        let mut pos: usize = 0;
        while pos < self.blocks.len() && self.blocks[pos].index < block.index
            invariant
                pos <= self@.len(),
                self@.len() == self.blocks@.len(),
                self@ == old(self)@,
                forall|k: int| 0 <= k < pos ==> self@[k].index < block.index,
            decreases self@.len() - pos,
        {
            pos = pos + 1;
        }
        let ghost s = self@;
        self.blocks.insert(pos, block.duplicate());
        proof {
            assert(self@ =~= s.insert(pos as int, block@));
            let t = self@;
            assert forall|i: int, j: int| 0 <= i < j < t.len() implies t[i].index < t[j].index by {
                if pos < s.len() {
                    assert(s[pos as int].index >= block.index);
                    assert(s[pos as int].index != block.index);
                }
                if i < pos && j > pos {
                    assert(t[j] == s[j - 1]);
                }
                if i == pos && j > pos {
                    assert(t[j] == s[j - 1]);
                    if j - 1 > pos {
                        assert(s[pos as int].index < s[j - 1].index);
                    }
                }
            }
            assert forall|i: int, j: int|
                0 <= i < t.len() && 0 <= j < t.len() && i != j implies t[i].hash != t[j].hash by {
                if i != pos && j != pos {
                    let a = if i < pos { i } else { i - 1 };
                    let b = if j < pos { j } else { j - 1 };
                    assert(t[i] == s[a] && t[j] == s[b]);
                } else if i == pos {
                    let b = if j < pos { j } else { j - 1 };
                    assert(t[j] == s[b]);
                } else {
                    let a = if i < pos { i } else { i - 1 };
                    assert(t[i] == s[a]);
                }
            }
        }
        Ok(())
    }

    /// Adds all of `blocks`, or none of them: refused, with nothing changed,
    /// when one would break the uniqueness of indices or hashes.
    pub fn save_blocks(&mut self, blocks: &Vec<Block>) -> (r: Result<usize, StoreError>)
        requires
            old(self).wf(),
        ensures
            final(self).wf(),
            r is Ok <==> batch_fits(old(self)@, blocks@.map_values(|b: Block| b@)),
            r is Err ==> final(self)@ == old(self)@,
            r matches Ok(n) ==> n == blocks@.len() && final(self)@.len() == old(self)@.len()
                + blocks@.len() && (forall|k: int|
                0 <= k < blocks@.len() ==> index_lookup(final(self)@, blocks@[k].index) == Some(
                    #[trigger] blocks@[k]@,
                )) && (forall|i: int|
                0 <= i < old(self)@.len() ==> index_lookup(final(self)@, old(self)@[i].index) == Some(
                    #[trigger] old(self)@[i],
                )),
    {
        let mut staged = BlockStore { blocks: Vec::new() };
        let mut k: usize = 0;
        while k < self.blocks.len()
            invariant
                k <= self.blocks@.len(),
                staged.blocks@.len() == k,
                forall|m: int| 0 <= m < k ==> (#[trigger] staged.blocks@[m])@ == self.blocks@[m]@,
            decreases self.blocks@.len() - k,
        {
            staged.blocks.push(self.blocks[k].duplicate());
            k = k + 1;
        }
        assert(staged@ =~= self@);
        let ghost bv = blocks@.map_values(|b: Block| b@);
        let mut i: usize = 0;
        while i < blocks.len()
            invariant
                old(self).wf(),
                *self == *old(self),
                staged.wf(),
                i <= blocks@.len(),
                bv == blocks@.map_values(|b: Block| b@),
                forall|j: int|
                    0 <= j < staged@.len() ==> old(self)@.contains(#[trigger] staged@[j])
                        || bv.subrange(0, i as int).contains(staged@[j]),
                batch_fits(old(self)@, bv.subrange(0, i as int)),
                staged@.len() == old(self)@.len() + i,
                forall|m: int|
                    0 <= m < i ==> index_lookup(staged@, blocks@[m].index) == Some(
                        #[trigger] blocks@[m]@,
                    ),
                forall|m: int|
                    0 <= m < old(self)@.len() ==> index_lookup(staged@, old(self)@[m].index) == Some(
                        #[trigger] old(self)@[m],
                    ),
            decreases blocks@.len() - i,
        {
            let ghost before = staged@;
            let ghost b = bv[i as int];
            let ghost prefix = bv.subrange(0, i as int);
            proof {
                assert(b == blocks@[i as int]@);
                assert(bv.subrange(0, i + 1) =~= prefix.push(b));
                // Every earlier block of the batch and every stored block is staged.
                assert forall|m: int| 0 <= m < i implies before.contains(#[trigger] prefix[m]) by {
                    assert(prefix[m] == blocks@[m]@);
                    let w = choose|w: int| 0 <= w < before.len() && before[w].index == blocks@[m].index;
                }
                assert forall|m: int| 0 <= m < old(self)@.len() implies before.contains(
                    #[trigger] old(self)@[m],
                ) by {
                    let w = choose|w: int|
                        0 <= w < before.len() && before[w].index == old(self)@[m].index;
                }
            }
            match staged.save_block(&blocks[i]) {
                Ok(()) => {
                    proof {
                        let pos = choose|pos: int|
                            0 <= pos <= before.len() && staged@ == before.insert(pos, blocks@[i as int]@);
                        lemma_insert_keeps_lookups(before, pos, blocks@[i as int]@);
                        lemma_save_then_fetch_by_index(before, pos, blocks@[i as int]@);
                        let next = bv.subrange(0, i + 1);
                        assert forall|j: int|
                            0 <= j < staged@.len() implies old(self)@.contains(#[trigger] staged@[j])
                            || next.contains(staged@[j]) by {
                            if j == pos {
                                assert(next[i as int] == b);
                            } else {
                                let w = if j < pos { j } else { j - 1 };
                                assert(staged@[j] == before[w]);
                                if !old(self)@.contains(before[w]) {
                                    let q = choose|q: int| 0 <= q < prefix.len() && prefix[q] == before[w];
                                    assert(next[q] == prefix[q]);
                                }
                            }
                        }
                        // The new block's index and hash were fresh, so the prefix still fits.
                        assert forall|k: int, m: int|
                            0 <= k < next.len() && 0 <= m < old(self)@.len() implies old(self)@[m].index
                            != next[k].index && old(self)@[m].hash != next[k].hash by {
                            if k == i {
                                let w = choose|w: int| 0 <= w < before.len() && before[w] == old(self)@[m];
                                assert(before[w].index != b.index);
                                assert(before[w].hash != b.hash);
                            } else {
                                assert(next[k] == prefix[k]);
                            }
                        }
                        assert forall|j: int, k: int| 0 <= j < k < next.len() implies next[j].index
                            != next[k].index && next[j].hash != next[k].hash by {
                            if k == i {
                                assert(next[j] == prefix[j]);
                                let w = choose|w: int| 0 <= w < before.len() && before[w] == prefix[j];
                                assert(before[w].index != b.index);
                                assert(before[w].hash != b.hash);
                            } else {
                                assert(next[j] == prefix[j] && next[k] == prefix[k]);
                            }
                        }
                    }
                },
                Err(e) => {
                    proof {
                        // A clash with a staged block is a clash with a stored
                        // block or with an earlier block of the batch.
                        let w = if index_lookup(before, b.index) is Some {
                            choose|w: int| 0 <= w < before.len() && before[w].index == b.index
                        } else {
                            choose|w: int| 0 <= w < before.len() && before[w].hash == b.hash
                        };
                        assert(before[w].index == b.index || before[w].hash == b.hash);
                        if old(self)@.contains(before[w]) {
                            let m = choose|m: int| 0 <= m < old(self)@.len() && old(self)@[m] == before[w];
                            assert(bv[i as int] == b);
                        } else {
                            let q = choose|q: int| 0 <= q < prefix.len() && prefix[q] == before[w];
                            assert(bv[q] == prefix[q]);
                        }
                        assert(!batch_fits(old(self)@, bv));
                    }
                    return Err(e);
                },
            }
            i = i + 1;
        }
        assert(bv.subrange(0, blocks@.len() as int) =~= bv);
        self.blocks = staged.blocks;
        Ok(blocks.len())
    }

    /// The block with index `idx`.
    pub fn get_block_by_index(&self, idx: u64) -> (r: Result<Block, StoreError>)
        requires
            self.wf(),
        ensures
            match index_lookup(self@, idx) {
                Some(v) => r matches Ok(b) && b@ == v,
                None => r == Err::<Block, StoreError>(StoreError::NotFound),
            },
    {
        match self.position_of_index(idx) {
            Some(i) => {
                proof {
                    lemma_index_lookup_at(self@, i as int);
                }
                Ok(self.blocks[i].duplicate())
            },
            None => Err(StoreError::NotFound),
        }
    }

    /// The block with hash `h`.
    pub fn get_block_by_hash(&self, h: &str) -> (r: Result<Block, StoreError>)
        requires
            self.wf(),
        ensures
            match hash_lookup(self@, h@) {
                Some(v) => r matches Ok(b) && b@ == v,
                None => r == Err::<Block, StoreError>(StoreError::NotFound),
            },
    {
        let key = h.to_owned();
        match self.position_of_hash(&key) {
            Some(i) => {
                proof {
                    lemma_hash_lookup_at(self@, i as int);
                }
                Ok(self.blocks[i].duplicate())
            },
            None => Err(StoreError::NotFound),
        }
    }

    /// The block with the highest index; `None` for an empty store.
    pub fn get_latest_block(&self) -> (r: Option<Block>)
        ensures
            self@.len() == 0 ==> r is None,
            self@.len() > 0 ==> (r matches Some(b) && b@ == self@.last()),
    {
        let n = self.blocks.len();
        if n == 0 {
            None
        } else {
            Some(self.blocks[n - 1].duplicate())
        }
    }

    /// The `limit` blocks with the highest indices (all, if fewer), highest first.
    pub fn query_latest_blocks(&self, limit: u64) -> (r: Vec<Block>)
        ensures
            r@.len() == if limit < self@.len() {
                limit as int
            } else {
                self@.len() as int
            },
            forall|k: int| 0 <= k < r@.len() ==> (#[trigger] r@[k])@ == self@[self@.len() - 1 - k],
    {
        let mut out: Vec<Block> = Vec::new();
        let n = self.blocks.len();
        let mut k: usize = 0;
        while k < n && (k as u64) < limit
            invariant
                n == self@.len(),
                n == self.blocks@.len(),
                k <= n,
                k <= limit,
                out@.len() == k,
                forall|m: int| 0 <= m < k ==> (#[trigger] out@[m])@ == self@[n - 1 - m],
            decreases n - k,
        {
            out.push(self.blocks[n - 1 - k].duplicate());
            k = k + 1;
        }
        out
    }

    /// The blocks with `lo <= index <= hi`, ascending.
    pub fn get_blocks_range(&self, lo: u64, hi: u64) -> (r: Vec<Block>)
        ensures
            r@.map_values(|b: Block| b@) == in_range(self@, lo, hi),
    {
        let mut out: Vec<Block> = Vec::new();
        let mut i: usize = 0;
        while i < self.blocks.len()
            invariant
                i <= self@.len(),
                self@.len() == self.blocks@.len(),
                out@.map_values(|b: Block| b@) == in_range(self@.subrange(0, i as int), lo, hi),
            decreases self@.len() - i,
        {
            let ghost prefix = self@.subrange(0, i as int);
            let ghost before = out@;
            proof {
                reveal(Seq::filter);
                assert(self@.subrange(0, i + 1).drop_last() =~= prefix);
                assert(self@.subrange(0, i + 1).last() == self@[i as int]);
            }
            if lo <= self.blocks[i].index && self.blocks[i].index <= hi {
                out.push(self.blocks[i].duplicate());
                assert(out@.map_values(|b: Block| b@) =~= before.map_values(|b: Block| b@).push(
                    self@[i as int],
                ));
                assert(in_range(self@.subrange(0, i + 1), lo, hi) == in_range(prefix, lo, hi).push(
                    self@[i as int],
                ));
            } else {
                assert(in_range(self@.subrange(0, i + 1), lo, hi) == in_range(prefix, lo, hi));
            }
            i = i + 1;
        }
        assert(self@.subrange(0, self@.len() as int) =~= self@);
        out
    }

    pub fn get_block_count(&self) -> (r: usize)
        ensures
            r == self@.len(),
    {
        self.blocks.len()
    }

    /// Whether every block after the first links to its predecessor and
    /// carries its own content hash. An empty store verifies.
    pub fn verify_chain(&self) -> (r: bool)
        ensures
            r == chain_valid(self@),
    {
        let mut i: usize = 1;
        if self.blocks.len() == 0 {
            return true;
        }
        while i < self.blocks.len()
            invariant
                1 <= i <= self@.len(),
                self@.len() == self.blocks@.len(),
                forall|k: int|
                    1 <= k < i ==> #[trigger] self@[k].previous_hash == self@[k - 1].hash
                        && block_hash(self@[k]) == self@[k].hash,
            decreases self@.len() - i,
        {
            if !(self.blocks[i].previous_hash == self.blocks[i - 1].hash) {
                assert(!(self@[i as int].previous_hash == self@[i - 1].hash));
                return false;
            }
            let h = self.blocks[i].calculate_hash();
            if !(h == self.blocks[i].hash) {
                assert(!(block_hash(self@[i as int]) == self@[i as int].hash));
                return false;
            }
            i = i + 1;
        }
        true
    }

    /// Removes the block with index `idx`; whether there was one.
    pub fn delete_block(&mut self, idx: u64) -> (r: bool)
        requires
            old(self).wf(),
        ensures
            final(self).wf(),
            r == (index_lookup(old(self)@, idx) is Some),
            !r ==> final(self)@ == old(self)@,
            r ==> exists|pos: int|
                0 <= pos < old(self)@.len() && old(self)@[pos].index == idx && final(self)@ == old(
                    self,
                )@.remove(pos),
    {
        match self.position_of_index(idx) {
            Some(i) => {
                let ghost s = self@;
                let _ = self.blocks.remove(i);
                proof {
                    assert(self@ =~= s.remove(i as int));
                    let t = self@;
                    assert forall|a: int, b: int| 0 <= a < b < t.len() implies t[a].index
                        < t[b].index by {
                        let x = if a < i { a } else { a + 1 };
                        let y = if b < i { b } else { b + 1 };
                        assert(t[a] == s[x] && t[b] == s[y]);
                    }
                    assert forall|a: int, b: int|
                        0 <= a < t.len() && 0 <= b < t.len() && a != b implies t[a].hash
                        != t[b].hash by {
                        let x = if a < i { a } else { a + 1 };
                        let y = if b < i { b } else { b + 1 };
                        assert(t[a] == s[x] && t[b] == s[y]);
                    }
                }
                true
            },
            None => false,
        }
    }

    /// Count, index bounds and timestamp bounds of the stored blocks.
    pub fn get_stats(&self) -> (r: DatabaseStats)
        requires
            self.wf(),
        ensures
            r.total_blocks == self@.len(),
            self@.len() == 0 ==> r.min_index is None && r.max_index is None && r.min_timestamp is None
                && r.max_timestamp is None,
            self@.len() > 0 ==> r.min_index == Some(self@[0].index) && r.max_index == Some(
                self@.last().index,
            ),
            r.min_timestamp matches Some(t) ==> (exists|i: int|
                0 <= i < self@.len() && self@[i].timestamp == t) && forall|i: int|
                0 <= i < self@.len() ==> t <= #[trigger] self@[i].timestamp,
            r.max_timestamp matches Some(t) ==> (exists|i: int|
                0 <= i < self@.len() && self@[i].timestamp == t) && forall|i: int|
                0 <= i < self@.len() ==> #[trigger] self@[i].timestamp <= t,
            self@.len() > 0 ==> r.min_timestamp is Some && r.max_timestamp is Some,
    {
        let n = self.blocks.len();
        if n == 0 {
            return DatabaseStats {
                total_blocks: 0,
                min_index: None,
                max_index: None,
                min_timestamp: None,
                max_timestamp: None,
            };
        }
        let mut lo = self.blocks[0].timestamp;
        let mut hi = self.blocks[0].timestamp;
        let ghost mut lo_at: int = 0;
        let ghost mut hi_at: int = 0;
        let mut i: usize = 1;
        while i < n
            invariant
                n == self@.len(),
                n == self.blocks@.len(),
                1 <= i <= n,
                0 <= lo_at < n && self@[lo_at].timestamp == lo,
                0 <= hi_at < n && self@[hi_at].timestamp == hi,
                forall|k: int| 0 <= k < i ==> lo <= #[trigger] self@[k].timestamp,
                forall|k: int| 0 <= k < i ==> #[trigger] self@[k].timestamp <= hi,
            decreases n - i,
        {
            let t = self.blocks[i].timestamp;
            if t < lo {
                lo = t;
                proof {
                    lo_at = i as int;
                }
            }
            if t > hi {
                hi = t;
                proof {
                    hi_at = i as int;
                }
            }
            i = i + 1;
        }
        DatabaseStats {
            total_blocks: n as u64,
            min_index: Some(self.blocks[0].index),
            max_index: Some(self.blocks[n - 1].index),
            min_timestamp: Some(lo),
            max_timestamp: Some(hi),
        }
    }
}

/// Inserting a block with a fresh index keeps what every stored index finds.
proof fn lemma_insert_keeps_lookups(s: Seq<BlockView>, pos: int, b: BlockView)
    requires
        store_wf(s),
        0 <= pos <= s.len(),
        store_wf(s.insert(pos, b)),
    ensures
        forall|i: int| 0 <= i < s.len() ==> index_lookup(s.insert(pos, b), s[i].index) == Some(#[trigger] s[i]),
        forall|v: BlockView| #[trigger] index_lookup(s, v.index) == Some(v) ==> index_lookup(s.insert(pos, b), v.index) == Some(v),
{
    let t = s.insert(pos, b);
    assert forall|i: int| 0 <= i < s.len() implies index_lookup(t, s[i].index) == Some(#[trigger] s[i]) by {
        let j = if i < pos { i } else { i + 1 };
        assert(t[j] == s[i]);
        lemma_index_lookup_at(t, j);
    }
    assert forall|v: BlockView| #[trigger] index_lookup(s, v.index) == Some(v) implies index_lookup(t, v.index) == Some(v) by {
        let i = choose|i: int| 0 <= i < s.len() && s[i].index == v.index;
        lemma_index_lookup_at(s, i);
        let j = if i < pos { i } else { i + 1 };
        assert(t[j] == s[i]);
        lemma_index_lookup_at(t, j);
    }
}

} // verus!
