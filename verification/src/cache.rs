use vstd::prelude::*;
use crate::peer::BlockHash;
use crate::SYNCED_THRESHOLD;

verus! {

// ---------------------------------------------------------------------------
// Mathematical model of a bounded recency cache.
//
// A cache is modelled as a sequence of (hash, height) entries ordered from
// most recently inserted to least recently inserted.
// ---------------------------------------------------------------------------

/// Some entry of `s` carries the hash `h`.
pub open spec fn has_block(s: Seq<(BlockHash, u64)>, h: BlockHash) -> bool {
    exists|i: int| 0 <= i < s.len() && (#[trigger] s[i]).0 == h
}

/// `s` with the first entry carrying `h` removed.
pub open spec fn remove_block(s: Seq<(BlockHash, u64)>, h: BlockHash) -> Seq<(BlockHash, u64)>
    decreases s.len(),
{
    if s.len() == 0 {
        s
    } else if s[0].0 == h {
        s.drop_first()
    } else {
        seq![s[0]] + remove_block(s.drop_first(), h)
    }
}

/// No two entries of `s` carry the same hash.
pub open spec fn unique_blocks(s: Seq<(BlockHash, u64)>) -> bool {
    forall|i: int, j: int|
        0 <= i < j < s.len() ==> (#[trigger] s[i]).0 != (#[trigger] s[j]).0
}

/// The recency-cache insertion law, with capacity `cap`: a present hash is
/// re-valued and moved to the most-recent slot; a fresh hash is pushed there,
/// evicting the least-recent entry when the cache is exactly full.
pub open spec fn cache_after_insert(
    s: Seq<(BlockHash, u64)>,
    cap: nat,
    h: BlockHash,
    n: u64,
) -> Seq<(BlockHash, u64)> {
    if has_block(s, h) {
        seq![(h, n)] + remove_block(s, h)
    } else if s.len() == cap {
        seq![(h, n)] + s.drop_last()
    } else {
        seq![(h, n)] + s
    }
}

/// The cache contents after inserting every entry of `blocks` in order.
pub open spec fn backfilled(
    s: Seq<(BlockHash, u64)>,
    blocks: Seq<(BlockHash, u64)>,
) -> Seq<(BlockHash, u64)>
    decreases blocks.len(),
{
    if blocks.len() == 0 {
        s
    } else {
        backfilled(
            cache_after_insert(s, SYNCED_THRESHOLD as nat, blocks[0].0, blocks[0].1),
            blocks.drop_first(),
        )
    }
}

// ---------------------------------------------------------------------------
// The backing store: lru::LruCache, taken on trust at its interface.
// ---------------------------------------------------------------------------

#[verifier::external_type_specification]
#[verifier::external_body]
#[verifier::reject_recursive_types(K)]
#[verifier::reject_recursive_types(V)]
#[verifier::reject_recursive_types(S)]
pub struct ExLruCache<K, V, S>(lru::LruCache<K, V, S>);

/// The entries an lru cache holds, ordered from most to least recently used.
pub uninterp spec fn lru_entries(c: lru::LruCache<BlockHash, u64>) -> Seq<(BlockHash, u64)>;

/// The capacity an lru cache was created with.
pub uninterp spec fn lru_capacity(c: lru::LruCache<BlockHash, u64>) -> nat;

/// Relies on lru::LruCache::new: a fresh cache is empty and holds at most
/// `cap` entries.
#[verifier::external_body]
fn lru_new(cap: u64) -> (c: lru::LruCache<BlockHash, u64>)
    requires
        cap > 0,
    ensures
        lru_entries(c) == Seq::<(BlockHash, u64)>::empty(),
        lru_capacity(c) == cap,
{
    lru::LruCache::new(std::num::NonZeroUsize::new(cap as usize).expect("capacity is positive"))
}

/// Relies on lru::LruCache::put: a present key is re-valued and promoted to
/// most recently used; a fresh key is inserted there, evicting the least
/// recently used entry when the cache is exactly full.
#[verifier::external_body]
fn lru_put(c: &mut lru::LruCache<BlockHash, u64>, k: BlockHash, v: u64)
    ensures
        lru_entries(*final(c)) == cache_after_insert(
            lru_entries(*old(c)),
            lru_capacity(*old(c)),
            k,
            v,
        ),
        lru_capacity(*final(c)) == lru_capacity(*old(c)),
{
    c.put(k, v);
}

/// Relies on lru::LruCache::contains: a membership test that leaves the
/// recency order untouched.
#[verifier::external_body]
fn lru_contains(c: &lru::LruCache<BlockHash, u64>, k: &BlockHash) -> (r: bool)
    ensures
        r == has_block(lru_entries(*c), *k),
{
    c.contains(k)
}

/// Relies on lru::LruCache::len: the number of entries currently held.
#[verifier::external_body]
fn lru_len(c: &lru::LruCache<BlockHash, u64>) -> (n: usize)
    ensures
        n == lru_entries(*c).len(),
{
    c.len()
}

// ---------------------------------------------------------------------------
// The recency cache itself.
// ---------------------------------------------------------------------------

/// Bounded mapping from block hash to block height holding the latest
/// `SYNCED_THRESHOLD` blocks observed on the chain, used to answer whether a
/// peer's best block is recent.
pub struct BlockHashNum {
    cache: lru::LruCache<BlockHash, u64>,
}

impl View for BlockHashNum {
    type V = Seq<(BlockHash, u64)>;

    closed spec fn view(&self) -> Seq<(BlockHash, u64)> {
        lru_entries(self.cache)
    }
}

impl BlockHashNum {
    /// The backing store was created with capacity `SYNCED_THRESHOLD`.
    pub closed spec fn cap_ok(&self) -> bool {
        lru_capacity(self.cache) == SYNCED_THRESHOLD
    }

    /// The cache never exceeds its capacity and holds each hash at most once.
    pub open spec fn wf(&self) -> bool {
        &&& self.cap_ok()
        &&& self@.len() <= SYNCED_THRESHOLD
        &&& unique_blocks(self@)
    }

    pub fn new() -> (r: Self)
        ensures
            r.wf(),
            r@ == Seq::<(BlockHash, u64)>::empty(),
    {
        BlockHashNum { cache: lru_new(SYNCED_THRESHOLD) }
    }

    /// Records a block, evicting the least recently inserted block when the
    /// cache is full.
    pub fn insert(&mut self, hash: BlockHash, number: u64)
        requires
            old(self).wf(),
        ensures
            final(self).wf(),
            final(self)@ == cache_after_insert(old(self)@, SYNCED_THRESHOLD as nat, hash, number),
    {
        proof {
            lemma_insert_preserves_wf(self@, hash, number);
        }
        lru_put(&mut self.cache, hash, number);
    }

    /// Is `hash` among the most recently observed blocks?
    pub fn is_recent(&self, hash: &BlockHash) -> (r: bool)
        ensures
            r == has_block(self@, *hash),
    {
        lru_contains(&self.cache, hash)
    }

    pub fn len(&self) -> (n: usize)
        ensures
            n == self@.len(),
    {
        lru_len(&self.cache)
    }

    /// Inserts every block of `blocks` in order, as the startup range query
    /// does for the heights preceding the chain head.
    pub fn backfill(&mut self, blocks: &Vec<(BlockHash, u64)>)
        requires
            old(self).wf(),
        ensures
            final(self).wf(),
            final(self)@ == backfilled(old(self)@, blocks@),
    {
        let ghost s0 = self@;
        let mut i: usize = 0;
        while i < blocks.len()
            invariant
                self.wf(),
                i <= blocks@.len(),
                self@ == backfilled(s0, blocks@.take(i as int)),
            decreases blocks@.len() - i,
        {
            let (h, n) = blocks[i];
            proof {
                assert(blocks@.take(i as int).push(blocks@[i as int]) =~= blocks@.take(
                    i as int + 1,
                ));
                lemma_backfilled_push(s0, blocks@.take(i as int), blocks@[i as int]);
            }
            self.insert(h, n);
            i = i + 1;
        }
        proof {
            assert(blocks@.take(blocks@.len() as int) =~= blocks@);
        }
    }
}

impl Default for BlockHashNum {
    fn default() -> (r: Self)
        ensures
            r.wf(),
            r@ == Seq::<(BlockHash, u64)>::empty(),
    {
        BlockHashNum::new()
    }
}

// ---------------------------------------------------------------------------
// Laws of the insertion model.
// ---------------------------------------------------------------------------

/// Removing a hash removes exactly its entry: the length shrinks by one when
/// the hash is present, nothing changes when it is absent, no entry appears,
/// and under unique hashes exactly the entry of `h` disappears.
pub proof fn lemma_remove_block(s: Seq<(BlockHash, u64)>, h: BlockHash)
    ensures
        has_block(s, h) ==> remove_block(s, h).len() == s.len() - 1,
        !has_block(s, h) ==> remove_block(s, h) == s,
        forall|q: BlockHash| has_block(remove_block(s, h), q) ==> has_block(s, q),
        unique_blocks(s) ==> {
            &&& unique_blocks(remove_block(s, h))
            &&& !has_block(remove_block(s, h), h)
            &&& forall|q: BlockHash|
                q != h ==> has_block(remove_block(s, h), q) == has_block(s, q)
        },
    decreases s.len(),
{
    if s.len() == 0 {
    } else if s[0].0 == h {
        assert(has_block(s, h));
        assert(remove_block(s, h) == s.drop_first());
        assert forall|q: BlockHash| has_block(s.drop_first(), q) implies has_block(s, q) by {
            let i = choose|i: int| 0 <= i < s.drop_first().len() && (#[trigger] s.drop_first()[i]).0 == q;
            assert(s[i + 1].0 == q);
        }
        if unique_blocks(s) {
            assert forall|i: int, j: int|
                0 <= i < j < s.drop_first().len() implies (#[trigger] s.drop_first()[i]).0
                != (#[trigger] s.drop_first()[j]).0 by {
                assert(s[i + 1].0 != s[j + 1].0);
            }
            assert forall|i: int| 0 <= i < s.drop_first().len() implies (#[trigger] s.drop_first()[i]).0 != h by {
                assert(s[0].0 == h);
                assert(s[i + 1].0 != s[0].0);
            }
            assert forall|q: BlockHash| q != h && has_block(s, q) implies has_block(
                s.drop_first(),
                q,
            ) by {
                let i = choose|i: int| 0 <= i < s.len() && (#[trigger] s[i]).0 == q;
                assert(i != 0);
                assert(s.drop_first()[i - 1].0 == q);
            }
        }
    } else {
        lemma_remove_block(s.drop_first(), h);
        let rest = remove_block(s.drop_first(), h);
        let r = seq![s[0]] + rest;
        assert(remove_block(s, h) == r);
        // membership in s.drop_first() transfers up to s
        assert forall|q: BlockHash| has_block(s.drop_first(), q) implies has_block(s, q) by {
            let i = choose|i: int| 0 <= i < s.drop_first().len() && (#[trigger] s.drop_first()[i]).0 == q;
            assert(s[i + 1].0 == q);
        }
        if has_block(s, h) {
            assert(has_block(s.drop_first(), h)) by {
                let i = choose|i: int| 0 <= i < s.len() && (#[trigger] s[i]).0 == h;
                assert(i != 0);
                assert(s.drop_first()[i - 1].0 == h);
            }
        } else {
            assert(!has_block(s.drop_first(), h)) by {
                if has_block(s.drop_first(), h) {
                    let i = choose|i: int|
                        0 <= i < s.drop_first().len() && (#[trigger] s.drop_first()[i]).0 == h;
                    assert(s[i + 1].0 == h);
                }
            }
            assert(rest == s.drop_first());
            assert(r =~= s);
        }
        assert forall|q: BlockHash| has_block(r, q) implies has_block(s, q) by {
            let i = choose|i: int| 0 <= i < r.len() && (#[trigger] r[i]).0 == q;
            if i == 0 {
                assert(s[0].0 == q);
            } else {
                assert(rest[i - 1].0 == q);
                assert(has_block(rest, q));
                assert(has_block(s.drop_first(), q));
            }
        }
        if unique_blocks(s) {
            assert forall|i: int, j: int|
                0 <= i < j < s.drop_first().len() implies (#[trigger] s.drop_first()[i]).0
                != (#[trigger] s.drop_first()[j]).0 by {
                assert(s[i + 1].0 != s[j + 1].0);
            }
            assert(unique_blocks(s.drop_first()));
            assert(unique_blocks(rest));
            assert(!has_block(rest, h));
            // r keeps hashes distinct: s[0].0 is not among rest's hashes
            assert forall|i: int, j: int| 0 <= i < j < r.len() implies (#[trigger] r[i]).0
                != (#[trigger] r[j]).0 by {
                if i == 0 {
                    assert(r[0] == s[0]);
                    assert(rest[j - 1].0 == r[j].0);
                    assert(has_block(rest, r[j].0));
                    assert(has_block(s.drop_first(), r[j].0));
                    let m = choose|m: int|
                        0 <= m < s.drop_first().len() && (#[trigger] s.drop_first()[m]).0 == r[j].0;
                    assert(s[m + 1].0 == r[j].0);
                    assert(s[0].0 != s[m + 1].0);
                } else {
                    assert(rest[i - 1].0 != rest[j - 1].0);
                }
            }
            assert(!has_block(r, h)) by {
                if has_block(r, h) {
                    let i = choose|i: int| 0 <= i < r.len() && (#[trigger] r[i]).0 == h;
                    if i == 0 {
                    } else {
                        assert(rest[i - 1].0 == h);
                        assert(has_block(rest, h));
                    }
                }
            }
            assert forall|q: BlockHash| q != h && has_block(s, q) implies has_block(r, q) by {
                let i = choose|i: int| 0 <= i < s.len() && (#[trigger] s[i]).0 == q;
                if i == 0 {
                    assert(r[0].0 == q);
                } else {
                    assert(s.drop_first()[i - 1].0 == q);
                    assert(has_block(s.drop_first(), q));
                    assert(has_block(rest, q));
                    let m = choose|m: int| 0 <= m < rest.len() && (#[trigger] rest[m]).0 == q;
                    assert(r[m + 1].0 == q);
                }
            }
        }
    }
}

/// Membership in a concatenation is membership in either part.
pub proof fn lemma_has_block_append(a: Seq<(BlockHash, u64)>, b: Seq<(BlockHash, u64)>, q: BlockHash)
    ensures
        has_block(a + b, q) <==> (has_block(a, q) || has_block(b, q)),
{
    let r = a + b;
    if has_block(a, q) {
        let i = choose|i: int| 0 <= i < a.len() && (#[trigger] a[i]).0 == q;
        assert(r[i].0 == q);
    }
    if has_block(b, q) {
        let i = choose|i: int| 0 <= i < b.len() && (#[trigger] b[i]).0 == q;
        assert(r[a.len() + i].0 == q);
    }
    if has_block(r, q) {
        let i = choose|i: int| 0 <= i < r.len() && (#[trigger] r[i]).0 == q;
        if i < a.len() {
            assert(a[i].0 == q);
        } else {
            assert(b[i - a.len()].0 == q);
        }
    }
}

/// Under unique hashes, dropping the least-recent entry removes exactly its
/// hash from the membership set.
pub proof fn lemma_has_block_drop_last(s: Seq<(BlockHash, u64)>, q: BlockHash)
    requires
        unique_blocks(s),
        s.len() > 0,
    ensures
        has_block(s.drop_last(), q) <==> (has_block(s, q) && q != s.last().0),
{
    if has_block(s.drop_last(), q) {
        let i = choose|i: int|
            0 <= i < s.drop_last().len() && (#[trigger] s.drop_last()[i]).0 == q;
        assert(s[i].0 == q);
        assert(s[i].0 != s[s.len() - 1].0);
    }
    if has_block(s, q) && q != s.last().0 {
        let i = choose|i: int| 0 <= i < s.len() && (#[trigger] s[i]).0 == q;
        assert(i < s.len() - 1);
        assert(s.drop_last()[i].0 == q);
    }
}

/// Removing a hash that is absent from a leading segment removes it from the
/// trailing one.
proof fn lemma_remove_block_append(a: Seq<(BlockHash, u64)>, b: Seq<(BlockHash, u64)>, h: BlockHash)
    requires
        !has_block(a, h),
    ensures
        remove_block(a + b, h) == a + remove_block(b, h),
    decreases a.len(),
{
    if a.len() == 0 {
        assert(a + b =~= b);
        assert(a + remove_block(b, h) =~= remove_block(b, h));
    } else {
        assert(a[0].0 != h) by {
            if a[0].0 == h {
                assert(has_block(a, h));
            }
        }
        assert(!has_block(a.drop_first(), h)) by {
            if has_block(a.drop_first(), h) {
                let i = choose|i: int|
                    0 <= i < a.drop_first().len() && (#[trigger] a.drop_first()[i]).0 == h;
                assert(a[i + 1].0 == h);
            }
        }
        let r = a + b;
        assert(r[0] == a[0]);
        assert(r.drop_first() =~= a.drop_first() + b);
        lemma_remove_block_append(a.drop_first(), b, h);
        assert(remove_block(r, h) == seq![a[0]] + (a.drop_first() + remove_block(b, h)));
        assert(seq![a[0]] + (a.drop_first() + remove_block(b, h)) =~= a + remove_block(b, h));
    }
}

/// Inserting preserves the cache bound and hash uniqueness.
pub proof fn lemma_insert_preserves_wf(s: Seq<(BlockHash, u64)>, h: BlockHash, n: u64)
    requires
        s.len() <= SYNCED_THRESHOLD,
        unique_blocks(s),
    ensures
        cache_after_insert(s, SYNCED_THRESHOLD as nat, h, n).len() <= SYNCED_THRESHOLD,
        unique_blocks(cache_after_insert(s, SYNCED_THRESHOLD as nat, h, n)),
{
    let r = cache_after_insert(s, SYNCED_THRESHOLD as nat, h, n);
    lemma_remove_block(s, h);
    if has_block(s, h) {
        let rest = remove_block(s, h);
        assert(r == seq![(h, n)] + rest);
        assert forall|i: int, j: int| 0 <= i < j < r.len() implies (#[trigger] r[i]).0
            != (#[trigger] r[j]).0 by {
            if i == 0 {
                assert(rest[j - 1].0 == r[j].0);
                assert(has_block(rest, r[j].0));
                assert(!has_block(rest, h));
            } else {
                assert(rest[i - 1].0 != rest[j - 1].0);
            }
        }
    } else if s.len() == SYNCED_THRESHOLD {
        let rest = s.drop_last();
        assert(r == seq![(h, n)] + rest);
        assert forall|i: int, j: int| 0 <= i < j < r.len() implies (#[trigger] r[i]).0
            != (#[trigger] r[j]).0 by {
            if i == 0 {
                assert(rest[j - 1] == s[j - 1]);
                assert(has_block(s, s[j - 1].0));
            } else {
                assert(s[i - 1].0 != s[j - 1].0);
            }
        }
    } else {
        assert(r == seq![(h, n)] + s);
        assert forall|i: int, j: int| 0 <= i < j < r.len() implies (#[trigger] r[i]).0
            != (#[trigger] r[j]).0 by {
            if i == 0 {
                assert(s[j - 1].0 == r[j].0);
                assert(has_block(s, r[j].0));
            } else {
                assert(s[i - 1].0 != s[j - 1].0);
            }
        }
    }
}

/// Membership law of the recency cache: after an insert the inserted hash is
/// recent, and any other hash is recent exactly when it was recent before and
/// was not the evicted least-recent entry of a full cache.
pub proof fn lemma_insert_membership(s: Seq<(BlockHash, u64)>, h: BlockHash, n: u64, q: BlockHash)
    requires
        unique_blocks(s),
    ensures
        has_block(cache_after_insert(s, SYNCED_THRESHOLD as nat, h, n), q) <==> (q == h || (
        has_block(s, q) && !(s.len() == SYNCED_THRESHOLD && !has_block(s, h) && q
            == s.last().0))),
{
    let cap = SYNCED_THRESHOLD as nat;
    lemma_remove_block(s, h);
    if has_block(s, h) {
        lemma_has_block_append(seq![(h, n)], remove_block(s, h), q);
        assert(has_block(seq![(h, n)], q) <==> q == h) by {
            if has_block(seq![(h, n)], q) {
                let i = choose|i: int|
                    0 <= i < seq![(h, n)].len() && (#[trigger] seq![(h, n)][i]).0 == q;
                assert(i == 0);
            }
            if q == h {
                assert(seq![(h, n)][0].0 == q);
            }
        }
    } else if s.len() == cap {
        lemma_has_block_append(seq![(h, n)], s.drop_last(), q);
        lemma_has_block_drop_last(s, q);
        assert(has_block(seq![(h, n)], q) <==> q == h) by {
            if has_block(seq![(h, n)], q) {
                let i = choose|i: int|
                    0 <= i < seq![(h, n)].len() && (#[trigger] seq![(h, n)][i]).0 == q;
                assert(i == 0);
            }
            if q == h {
                assert(seq![(h, n)][0].0 == q);
            }
        }
    } else {
        lemma_has_block_append(seq![(h, n)], s, q);
        assert(has_block(seq![(h, n)], q) <==> q == h) by {
            if has_block(seq![(h, n)], q) {
                let i = choose|i: int|
                    0 <= i < seq![(h, n)].len() && (#[trigger] seq![(h, n)][i]).0 == q;
                assert(i == 0);
            }
            if q == h {
                assert(seq![(h, n)][0].0 == q);
            }
        }
    }
}

/// Eviction law of the recency cache: a fresh hash inserted into a full cache
/// evicts exactly the least-recently-inserted entry, and the cache stays at
/// capacity.
pub proof fn lemma_insert_full_evicts(s: Seq<(BlockHash, u64)>, h: BlockHash, n: u64)
    requires
        unique_blocks(s),
        s.len() == SYNCED_THRESHOLD,
        !has_block(s, h),
    ensures
        cache_after_insert(s, SYNCED_THRESHOLD as nat, h, n) == seq![(h, n)] + s.drop_last(),
        cache_after_insert(s, SYNCED_THRESHOLD as nat, h, n).len() == SYNCED_THRESHOLD,
        !has_block(cache_after_insert(s, SYNCED_THRESHOLD as nat, h, n), s.last().0),
{
    lemma_insert_membership(s, h, n, s.last().0);
    assert(has_block(s, s.last().0)) by {
        assert(s[s.len() - 1].0 == s.last().0);
    }
}

/// Unrolling a backfill from its last block.
proof fn lemma_backfilled_push(
    s: Seq<(BlockHash, u64)>,
    blocks: Seq<(BlockHash, u64)>,
    x: (BlockHash, u64),
)
    ensures
        backfilled(s, blocks.push(x)) == cache_after_insert(
            backfilled(s, blocks),
            SYNCED_THRESHOLD as nat,
            x.0,
            x.1,
        ),
    decreases blocks.len(),
{
    let cap = SYNCED_THRESHOLD as nat;
    if blocks.len() == 0 {
        assert(blocks.push(x)[0] == x);
        assert(blocks.push(x).drop_first() =~= Seq::<(BlockHash, u64)>::empty());
        assert(backfilled(s, blocks) == s);
        assert(backfilled(s, blocks.push(x)) == backfilled(
            cache_after_insert(s, cap, x.0, x.1),
            blocks.push(x).drop_first(),
        ));
        assert(backfilled(cache_after_insert(s, cap, x.0, x.1), blocks.push(x).drop_first())
            == cache_after_insert(s, cap, x.0, x.1));
    } else {
        assert(blocks.push(x)[0] == blocks[0]);
        assert(blocks.push(x).drop_first() =~= blocks.drop_first().push(x));
        lemma_backfilled_push(
            cache_after_insert(s, cap, blocks[0].0, blocks[0].1),
            blocks.drop_first(),
            x,
        );
        assert(backfilled(s, blocks.push(x)) == backfilled(
            cache_after_insert(s, cap, blocks[0].0, blocks[0].1),
            blocks.drop_first().push(x),
        ));
        assert(backfilled(s, blocks) == backfilled(
            cache_after_insert(s, cap, blocks[0].0, blocks[0].1),
            blocks.drop_first(),
        ));
    }
}

/// Splitting a backfill into two runs.
proof fn lemma_backfilled_append(
    s: Seq<(BlockHash, u64)>,
    a: Seq<(BlockHash, u64)>,
    b: Seq<(BlockHash, u64)>,
)
    ensures
        backfilled(s, a + b) == backfilled(backfilled(s, a), b),
    decreases a.len(),
{
    if a.len() == 0 {
        assert(a + b =~= b);
    } else {
        assert((a + b)[0] == a[0]);
        assert((a + b).drop_first() =~= a.drop_first() + b);
        lemma_backfilled_append(
            cache_after_insert(s, SYNCED_THRESHOLD as nat, a[0].0, a[0].1),
            a.drop_first(),
            b,
        );
    }
}

/// After backfilling `j` blocks with distinct hashes, the `j` most-recent
/// entries are exactly those blocks, newest first, whatever the cache held
/// before.
proof fn lemma_backfill_front(s: Seq<(BlockHash, u64)>, blocks: Seq<(BlockHash, u64)>, j: int)
    requires
        s.len() <= SYNCED_THRESHOLD,
        unique_blocks(blocks),
        0 <= j <= blocks.len(),
        j <= SYNCED_THRESHOLD,
    ensures
        backfilled(s, blocks.take(j)).len() <= SYNCED_THRESHOLD,
        backfilled(s, blocks.take(j)).len() >= j,
        backfilled(s, blocks.take(j)).take(j) == blocks.take(j).reverse(),
    decreases j,
{
    let cap = SYNCED_THRESHOLD as nat;
    if j == 0 {
        assert(blocks.take(0) =~= Seq::<(BlockHash, u64)>::empty());
        assert(backfilled(s, blocks.take(0)) == s);
        assert(s.take(0) =~= blocks.take(0).reverse());
    } else {
        lemma_backfill_front(s, blocks, j - 1);
        let prev = blocks.take(j - 1);
        let cur = backfilled(s, prev);
        let x = blocks[j - 1];
        assert(prev.push(x) =~= blocks.take(j));
        lemma_backfilled_push(s, prev, x);
        let next = backfilled(s, blocks.take(j));
        assert(next == cache_after_insert(cur, cap, x.0, x.1));
        let front = cur.take(j - 1);
        // the hash of `x` does not occur among the newer blocks already in front
        assert(!has_block(front, x.0)) by {
            if has_block(front, x.0) {
                let i = choose|i: int| 0 <= i < front.len() && (#[trigger] front[i]).0 == x.0;
                assert(front[i] == prev.reverse()[i]);
                assert(prev.reverse()[i] == prev[j - 2 - i]);
                assert(blocks[j - 2 - i].0 == blocks[j - 1].0);
            }
        }
        if has_block(cur, x.0) {
            let rest = cur.skip(j - 1);
            assert(cur =~= front + rest);
            lemma_has_block_append(front, rest, x.0);
            assert(has_block(rest, x.0));
            assert(rest.len() > 0);
            lemma_remove_block_append(front, rest, x.0);
            lemma_remove_block(rest, x.0);
            lemma_remove_block(cur, x.0);
            assert(next == seq![x] + (front + remove_block(rest, x.0)));
            assert(next.len() == cur.len());
            assert(next.take(j) =~= blocks.take(j).reverse()) by {
                assert forall|i: int| 0 <= i < j implies next.take(j)[i] == blocks.take(
                    j,
                ).reverse()[i] by {
                    if i == 0 {
                        assert(next[0] == x);
                    } else {
                        assert(next[i] == front[i - 1]);
                        assert(front[i - 1] == prev.reverse()[i - 1]);
                    }
                }
            }
        } else if cur.len() == cap {
            assert(next == seq![x] + cur.drop_last());
            assert(next.len() == cur.len());
            assert(next.take(j) =~= blocks.take(j).reverse()) by {
                assert forall|i: int| 0 <= i < j implies next.take(j)[i] == blocks.take(
                    j,
                ).reverse()[i] by {
                    if i == 0 {
                        assert(next[0] == x);
                    } else {
                        assert(next[i] == cur.drop_last()[i - 1]);
                        assert(cur.drop_last()[i - 1] == cur[i - 1]);
                        assert(cur[i - 1] == front[i - 1]);
                        assert(front[i - 1] == prev.reverse()[i - 1]);
                    }
                }
            }
        } else {
            assert(next == seq![x] + cur);
            assert(next.len() == cur.len() + 1);
            assert(next.take(j) =~= blocks.take(j).reverse()) by {
                assert forall|i: int| 0 <= i < j implies next.take(j)[i] == blocks.take(
                    j,
                ).reverse()[i] by {
                    if i == 0 {
                        assert(next[0] == x);
                    } else {
                        assert(next[i] == cur[i - 1]);
                        assert(cur[i - 1] == front[i - 1]);
                        assert(front[i - 1] == prev.reverse()[i - 1]);
                    }
                }
            }
        }
    }
}

/// Determinism of the startup backfill: inserting at least `SYNCED_THRESHOLD`
/// blocks with distinct hashes leaves the cache in a state that depends on
/// those blocks alone, so re-running the same backfill over the same chain
/// state yields identical contents whatever the cache held before.
pub proof fn lemma_backfill_deterministic(
    s1: Seq<(BlockHash, u64)>,
    s2: Seq<(BlockHash, u64)>,
    blocks: Seq<(BlockHash, u64)>,
)
    requires
        s1.len() <= SYNCED_THRESHOLD,
        s2.len() <= SYNCED_THRESHOLD,
        unique_blocks(blocks),
        blocks.len() >= SYNCED_THRESHOLD,
    ensures
        backfilled(s1, blocks) == backfilled(s2, blocks),
{
    let t = SYNCED_THRESHOLD as int;
    lemma_backfill_front(s1, blocks, t);
    lemma_backfill_front(s2, blocks, t);
    let c1 = backfilled(s1, blocks.take(t));
    let c2 = backfilled(s2, blocks.take(t));
    assert(c1 =~= c1.take(t));
    assert(c2 =~= c2.take(t));
    assert(c1 == c2);
    assert(blocks =~= blocks.take(t) + blocks.skip(t));
    lemma_backfilled_append(s1, blocks.take(t), blocks.skip(t));
    lemma_backfilled_append(s2, blocks.take(t), blocks.skip(t));
}

} // verus!
