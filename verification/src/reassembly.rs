//! Chunked file transfer reassembly: per-transfer bookkeeping of which
//! chunks have arrived, duplicate-safe slot filling, and concatenation in
//! index order once every slot is filled.
use vstd::prelude::*;

verus! {

/// The number of filled slots.
pub open spec fn count_filled(cs: Seq<Option<Vec<u8>>>) -> nat
    decreases cs.len(),
{
    if cs.len() == 0 {
        0
    } else {
        (if cs[0] is Some {
            1nat
        } else {
            0nat
        }) + count_filled(cs.drop_first())
    }
}

/// The bytes of the slots concatenated in index order; an empty slot
/// contributes nothing.
pub open spec fn assembled_bytes(cs: Seq<Option<Vec<u8>>>) -> Seq<u8>
    decreases cs.len(),
{
    if cs.len() == 0 {
        Seq::empty()
    } else {
        (match cs[0] {
            Some(c) => c@,
            None => Seq::empty(),
        }) + assembled_bytes(cs.drop_first())
    }
}

pub proof fn lemma_count_filled_le_len(cs: Seq<Option<Vec<u8>>>)
    ensures
        count_filled(cs) <= cs.len(),
    decreases cs.len(),
{
    if cs.len() > 0 {
        lemma_count_filled_le_len(cs.drop_first());
    }
}

pub proof fn lemma_count_filled_update(cs: Seq<Option<Vec<u8>>>, i: int, v: Vec<u8>)
    requires
        0 <= i < cs.len(),
        cs[i] is None,
    ensures
        count_filled(cs.update(i, Some(v))) == count_filled(cs) + 1,
    decreases cs.len(),
{
    if i == 0 {
        assert(cs.update(0, Some(v)).drop_first() =~= cs.drop_first());
    } else {
        assert(cs.update(i, Some(v)).drop_first() =~= cs.drop_first().update(i - 1, Some(v)));
        lemma_count_filled_update(cs.drop_first(), i - 1, v);
    }
}

/// When every slot is counted, every slot is filled.
pub proof fn lemma_full_count_all_filled(cs: Seq<Option<Vec<u8>>>)
    requires
        count_filled(cs) == cs.len(),
    ensures
        forall|i: int| 0 <= i < cs.len() ==> cs[i] is Some,
    decreases cs.len(),
{
    if cs.len() > 0 {
        lemma_count_filled_le_len(cs.drop_first());
        lemma_full_count_all_filled(cs.drop_first());
        assert forall|i: int| 0 <= i < cs.len() implies cs[i] is Some by {
            if i > 0 {
                assert(cs[i] == cs.drop_first()[i - 1]);
            }
        }
    }
}

/// Transient bookkeeping of one in-flight chunked transfer.
pub struct PendingFile {
    pub filename: String,
    pub from: String,
    pub to: Option<String>,
    pub is_image: bool,
    pub timestamp: u64,
    pub chunks: Vec<Option<Vec<u8>>>,
    pub total_chunks: usize,
    pub received_count: usize,
}

impl PendingFile {
    /// The slot array always spans exactly the announced chunk count, and
    /// the received counter counts the filled slots.
    pub open spec fn wf(self) -> bool {
        &&& self.chunks@.len() == self.total_chunks
        &&& self.received_count == count_filled(self.chunks@)
    }

    pub open spec fn is_complete_spec(self) -> bool {
        self.received_count == self.total_chunks
    }

    /// Opens a transfer with every slot empty.
    pub fn start(
        filename: String,
        from: String,
        to: Option<String>,
        is_image: bool,
        timestamp: u64,
        total_chunks: usize,
    ) -> (r: PendingFile)
        ensures
            r.wf(),
            r.filename == filename,
            r.from == from,
            r.to == to,
            r.is_image == is_image,
            r.timestamp == timestamp,
            r.total_chunks == total_chunks,
            r.received_count == 0,
            r.chunks@.len() == total_chunks,
            forall|i: int| 0 <= i < total_chunks ==> r.chunks@[i] is None,
    {
        let mut chunks: Vec<Option<Vec<u8>>> = Vec::new();
        let mut i: usize = 0;
        while i < total_chunks
            invariant
                i <= total_chunks,
                chunks@.len() == i,
                forall|j: int| 0 <= j < i ==> chunks@[j] is None,
                count_filled(chunks@) == 0,
            decreases total_chunks - i,
        {
            proof {
                lemma_count_filled_push_none(chunks@);
            }
            chunks.push(None);
            i += 1;
        }
        PendingFile {
            filename,
            from,
            to,
            is_image,
            timestamp,
            chunks,
            total_chunks,
            received_count: 0,
        }
    }

    /// Fills the slot of a chunk exactly once: a chunk with an index out of
    /// range, or one whose slot is already filled, changes nothing.
    pub fn add_chunk(&mut self, chunk_index: usize, data: Vec<u8>) -> (accepted: bool)
        requires
            old(self).wf(),
        ensures
            final(self).wf(),
            accepted == (chunk_index < old(self).total_chunks && old(self).chunks@[
                chunk_index as int
            ] is None),
            accepted ==> final(self).chunks@ == old(self).chunks@.update(
                chunk_index as int,
                Some(data),
            ) && final(self).received_count == old(self).received_count + 1,
            !accepted ==> *final(self) == *old(self),
            final(self).filename == old(self).filename,
            final(self).from == old(self).from,
            final(self).to == old(self).to,
            final(self).is_image == old(self).is_image,
            final(self).timestamp == old(self).timestamp,
            final(self).total_chunks == old(self).total_chunks,
    {
        if chunk_index < self.total_chunks {
            let slot_empty = match &self.chunks[chunk_index] {
                Option::None => true,
                Option::Some(_) => false,
            };
            if slot_empty {
                proof {
                    lemma_count_filled_update(self.chunks@, chunk_index as int, data);
                    lemma_count_filled_le_len(
                        self.chunks@.update(chunk_index as int, Some(data)),
                    );
                }
                self.chunks.set(chunk_index, Some(data));
                self.received_count += 1;
                return true;
            }
        }
        false
    }

    /// Whether every announced chunk has arrived.
    pub fn is_complete(&self) -> (r: bool)
        ensures
            r == self.is_complete_spec(),
    {
        self.received_count == self.total_chunks
    }

    /// Concatenates the chunks in index order.
    pub fn assemble(&self) -> (r: Vec<u8>)
        requires
            self.wf(),
            self.is_complete_spec(),
        ensures
            r@ == assembled_bytes(self.chunks@),
    {
        proof {
            lemma_full_count_all_filled(self.chunks@);
        }
        let mut out: Vec<u8> = Vec::new();
        let mut i: usize = 0;
        while i < self.chunks.len()
            invariant
                self.wf(),
                i <= self.chunks@.len(),
                forall|j: int| 0 <= j < self.chunks@.len() ==> self.chunks@[j] is Some,
                out@ == assembled_bytes(self.chunks@.take(i as int)),
            decreases self.chunks@.len() - i,
        {
            match &self.chunks[i] {
                Option::Some(c) => {
                    let mut k: usize = 0;
                    while k < c.len()
                        invariant
                            k <= c@.len(),
                            out@ == assembled_bytes(self.chunks@.take(i as int)) + c@.take(
                                k as int,
                            ),
                        decreases c@.len() - k,
                    {
                        out.push(c[k]);
                        k += 1;
                        proof {
                            assert(c@.take(k as int) =~= c@.take(k - 1).push(c@[k - 1]));
                        }
                    }
                    proof {
                        assert(c@.take(c@.len() as int) =~= c@);
                        lemma_assembled_take_step(self.chunks@, i as int);
                    }
                },
                Option::None => {
                    proof {
                        assert(false);
                    }
                },
            }
            i += 1;
        }
        proof {
            assert(self.chunks@.take(self.chunks@.len() as int) =~= self.chunks@);
        }
        out
    }
}

/// Appending an empty slot does not change the filled count.
proof fn lemma_count_filled_push_none(cs: Seq<Option<Vec<u8>>>)
    ensures
        count_filled(cs.push(None)) == count_filled(cs),
    decreases cs.len(),
{
    assert(cs.push(None).len() == cs.len() + 1);
    if cs.len() == 0 {
        assert(cs.push(None)[0] is None);
        assert(cs.push(None).drop_first() =~= Seq::<Option<Vec<u8>>>::empty());
        assert(count_filled(Seq::<Option<Vec<u8>>>::empty()) == 0);
        assert(count_filled(cs) == 0);
    } else {
        assert(cs.push(None)[0] == cs[0]);
        assert(cs.push(None).drop_first() =~= cs.drop_first().push(None));
        lemma_count_filled_push_none(cs.drop_first());
    }
}

/// Taking one more slot appends that slot's bytes to the assembly.
proof fn lemma_assembled_take_step(cs: Seq<Option<Vec<u8>>>, i: int)
    requires
        0 <= i < cs.len(),
    ensures
        assembled_bytes(cs.take(i + 1)) == assembled_bytes(cs.take(i)) + (match cs[i] {
            Some(c) => c@,
            None => Seq::<u8>::empty(),
        }),
    decreases i,
{
    if i == 0 {
        assert(cs.take(0) =~= Seq::<Option<Vec<u8>>>::empty());
        assert(cs.take(1) =~= seq![cs[0]]);
        assert(cs.take(1).drop_first() =~= Seq::<Option<Vec<u8>>>::empty());
        assert(assembled_bytes(cs.take(1)) =~= assembled_bytes(cs.take(0)) + (match cs[0] {
            Some(c) => c@,
            None => Seq::<u8>::empty(),
        }));
    } else {
        lemma_assembled_take_step(cs.drop_first(), i - 1);
        assert(cs.take(i + 1).drop_first() =~= cs.drop_first().take(i));
        assert(cs.take(i).drop_first() =~= cs.drop_first().take(i - 1));
        assert(cs.take(i + 1)[0] == cs[0]);
        assert(cs.take(i)[0] == cs[0]);
        assert(cs.drop_first()[i - 1] == cs[i]);
    }
}

/// The effect of one chunk delivery on a slot array, as `add_chunk` performs
/// it: the slot is filled exactly once, a duplicate or out-of-range index
/// changes nothing.
pub open spec fn deliver_one(cs: Seq<Option<Vec<u8>>>, idx: int, data: Vec<u8>) -> Seq<
    Option<Vec<u8>>,
> {
    if 0 <= idx < cs.len() && cs[idx] is None {
        cs.update(idx, Some(data))
    } else {
        cs
    }
}

/// A duplicate delivery is ignored: once a slot is filled, delivering its
/// index again — with the same bytes or different ones — changes nothing.
pub proof fn lemma_duplicate_delivery_ignored(
    cs: Seq<Option<Vec<u8>>>,
    idx: int,
    data: Vec<u8>,
)
    requires
        0 <= idx < cs.len(),
        cs[idx] is Some,
    ensures
        deliver_one(cs, idx, data) == cs,
{
}

/// The effect of a sequence of chunk deliveries, applied in arrival order.
pub open spec fn deliver_all(
    cs: Seq<Option<Vec<u8>>>,
    deliveries: Seq<(int, Vec<u8>)>,
) -> Seq<Option<Vec<u8>>>
    decreases deliveries.len(),
{
    if deliveries.len() == 0 {
        cs
    } else {
        deliver_all(
            deliver_one(cs, deliveries[0].0, deliveries[0].1),
            deliveries.drop_first(),
        )
    }
}

/// An all-empty slot array of the announced chunk count.
pub open spec fn empty_slots(n: nat) -> Seq<Option<Vec<u8>>> {
    Seq::new(n, |i: int| None::<Vec<u8>>)
}

/// Reassembly is order-independent: however the chunks of a payload are
/// permuted in transit, once every index has been delivered exactly once the
/// slots hold exactly the original chunks, so the assembly equals the
/// original payload byte for byte.
pub proof fn lemma_reassembly_order_independent(
    original: Seq<Vec<u8>>,
    deliveries: Seq<(int, Vec<u8>)>,
)
    requires
        deliveries.len() == original.len(),
        forall|j: int| #![trigger deliveries[j]] 0 <= j < deliveries.len() ==> {
            &&& 0 <= deliveries[j].0 < original.len()
            &&& deliveries[j].1 == original[deliveries[j].0]
        },
        forall|j1: int, j2: int|
            0 <= j1 < j2 < deliveries.len() ==> #[trigger] deliveries[j1].0 != #[trigger] deliveries[j2].0,
    ensures
        deliver_all(empty_slots(original.len()), deliveries) == Seq::new(
            original.len(),
            |i: int| Some(original[i]),
        ),
{
    let n = original.len();
    assert(forall|i: int| 0 <= i < n ==> #[trigger] empty_slots(n)[i] is None);
    lemma_deliver_all_partial(original, deliveries, empty_slots(n), Set::empty());
    lemma_deliver_all_len(empty_slots(n), deliveries);
    let done = deliver_all(empty_slots(n), deliveries);
    assert forall|i: int| 0 <= i < n implies done[i] == Some(original[i]) by {
        lemma_permutation_covers(original, deliveries, i);
    }
    assert(done =~= Seq::new(n, |i: int| Some(original[i])));
}

/// Deliveries never change the number of slots.
proof fn lemma_deliver_all_len(cs: Seq<Option<Vec<u8>>>, deliveries: Seq<(int, Vec<u8>)>)
    ensures
        deliver_all(cs, deliveries).len() == cs.len(),
    decreases deliveries.len(),
{
    if deliveries.len() > 0 {
        lemma_deliver_all_len(
            deliver_one(cs, deliveries[0].0, deliveries[0].1),
            deliveries.drop_first(),
        );
    }
}

/// A family of distinct in-range indices of the same cardinality as the
/// range covers every index of the range.
proof fn lemma_permutation_covers(original: Seq<Vec<u8>>, deliveries: Seq<(int, Vec<u8>)>, i: int)
    requires
        deliveries.len() == original.len(),
        forall|j: int| #![trigger deliveries[j]] 0 <= j < deliveries.len() ==>
            0 <= deliveries[j].0 < original.len(),
        forall|j1: int, j2: int|
            0 <= j1 < j2 < deliveries.len() ==> #[trigger] deliveries[j1].0 != #[trigger] deliveries[j2].0,
        0 <= i < original.len(),
    ensures
        exists|j: int| 0 <= j < deliveries.len() && #[trigger] deliveries[j].0 == i,
{
    let n = original.len() as int;
    let indices = Seq::new(deliveries.len(), |j: int| deliveries[j].0);
    if forall|j: int| 0 <= j < indices.len() ==> #[trigger] indices[j] != i {
        // Then `indices` maps injectively into a range of n - 1 values,
        // which cannot hold n distinct entries.
        let skewed = Seq::new(indices.len(), |j: int| if indices[j] < i {
            indices[j]
        } else {
            indices[j] - 1
        });
        assert forall|j1: int, j2: int| 0 <= j1 < j2 < skewed.len() implies #[trigger] skewed[j1]
            != #[trigger] skewed[j2] by {
            assert(deliveries[j1].0 != deliveries[j2].0);
        }
        assert forall|j: int| 0 <= j < skewed.len() implies 0 <= #[trigger] skewed[j] < n - 1 by {
            assert(0 <= deliveries[j].0 < n);
            assert(indices[j] != i);
        }
        lemma_injective_seq_bound(skewed, (n - 1) as nat);
        assert(false);
    }
}

/// A sequence of distinct values drawn from `0..bound` has at most `bound`
/// entries.
proof fn lemma_injective_seq_bound(s: Seq<int>, bound: nat)
    requires
        forall|j1: int, j2: int| 0 <= j1 < j2 < s.len() ==> #[trigger] s[j1] != #[trigger] s[j2],
        forall|j: int| 0 <= j < s.len() ==> 0 <= #[trigger] s[j] < bound,
    ensures
        s.len() <= bound,
    decreases bound,
{
    if s.len() > bound {
        if bound == 0 {
            assert(0 <= s[0] && s[0] < bound);
        } else {
            // Remove every occurrence of bound - 1 (there is at most one)
            // and recurse.
            let top = bound - 1;
            if exists|j: int| 0 <= j < s.len() && #[trigger] s[j] == top {
                let j0 = choose|j: int| 0 <= j < s.len() && #[trigger] s[j] == top;
                let trimmed = s.remove(j0);
                assert forall|j1: int, j2: int| 0 <= j1 < j2 < trimmed.len() implies #[trigger]
                    trimmed[j1] != #[trigger] trimmed[j2] by {
                    let k1: int = if j1 < j0 {
                        j1
                    } else {
                        j1 + 1
                    };
                    let k2: int = if j2 < j0 {
                        j2
                    } else {
                        j2 + 1
                    };
                    assert(trimmed[j1] == s[k1]);
                    assert(trimmed[j2] == s[k2]);
                }
                assert forall|j: int| 0 <= j < trimmed.len() implies 0 <= #[trigger] trimmed[j]
                    < top by {
                    if j < j0 {
                        assert(trimmed[j] == s[j]);
                        assert(s[j] != top);
                    } else {
                        assert(trimmed[j] == s[j + 1]);
                        assert(s[j + 1] != top);
                    }
                }
                lemma_injective_seq_bound(trimmed, (bound - 1) as nat);
            } else {
                assert forall|j: int| 0 <= j < s.len() implies 0 <= #[trigger] s[j] < top by {}
                lemma_injective_seq_bound(s, (bound - 1) as nat);
            }
        }
    }
}

/// After a prefix of distinct-index deliveries, exactly the delivered slots
/// are filled, each with its original chunk.
proof fn lemma_deliver_all_partial(
    original: Seq<Vec<u8>>,
    deliveries: Seq<(int, Vec<u8>)>,
    cs: Seq<Option<Vec<u8>>>,
    seen: Set<int>,
)
    requires
        cs.len() == original.len(),
        forall|j: int| #![trigger deliveries[j]] 0 <= j < deliveries.len() ==> {
            &&& 0 <= deliveries[j].0 < original.len()
            &&& deliveries[j].1 == original[deliveries[j].0]
        },
        forall|j1: int, j2: int|
            0 <= j1 < j2 < deliveries.len() ==> #[trigger] deliveries[j1].0 != #[trigger] deliveries[j2].0,
        forall|j: int| 0 <= j < deliveries.len() ==> !seen.contains(#[trigger] deliveries[j].0),
        forall|i: int| #![trigger cs[i]] 0 <= i < cs.len() ==> if seen.contains(i) {
            cs[i] == Some(original[i])
        } else {
            cs[i] is None
        },
    ensures
        forall|i: int| #![trigger deliver_all(cs, deliveries)[i]] 0 <= i < cs.len() ==> {
            if seen.contains(i) || exists|j: int|
                0 <= j < deliveries.len() && #[trigger] deliveries[j].0 == i {
                deliver_all(cs, deliveries)[i] == Some(original[i])
            } else {
                deliver_all(cs, deliveries)[i] is None
            }
        },
    decreases deliveries.len(),
{
    if deliveries.len() > 0 {
        let idx = deliveries[0].0;
        let cs1 = deliver_one(cs, idx, deliveries[0].1);
        assert(cs[idx] is None);
        assert(cs1 == cs.update(idx, Some(deliveries[0].1)));
        let seen1 = seen.insert(idx);
        assert forall|j: int| 0 <= j < deliveries.drop_first().len() implies !seen1.contains(
            #[trigger] deliveries.drop_first()[j].0,
        ) by {
            assert(deliveries.drop_first()[j] == deliveries[j + 1]);
            assert(deliveries[j + 1].0 != deliveries[0].0);
        }
        assert forall|j: int| #![trigger deliveries.drop_first()[j]] 0 <= j
            < deliveries.drop_first().len() implies {
            &&& 0 <= deliveries.drop_first()[j].0 < original.len()
            &&& deliveries.drop_first()[j].1 == original[deliveries.drop_first()[j].0]
        } by {
            assert(deliveries.drop_first()[j] == deliveries[j + 1]);
        }
        assert forall|j1: int, j2: int| 0 <= j1 < j2 < deliveries.drop_first().len() implies
            #[trigger] deliveries.drop_first()[j1].0 != #[trigger] deliveries.drop_first()[j2].0 by {
            assert(deliveries.drop_first()[j1] == deliveries[j1 + 1]);
            assert(deliveries.drop_first()[j2] == deliveries[j2 + 1]);
        }
        lemma_deliver_all_partial(original, deliveries.drop_first(), cs1, seen1);
        assert forall|i: int| #![trigger deliver_all(cs, deliveries)[i]] 0 <= i < cs.len() implies {
            if seen.contains(i) || exists|j: int|
                0 <= j < deliveries.len() && #[trigger] deliveries[j].0 == i {
                deliver_all(cs, deliveries)[i] == Some(original[i])
            } else {
                deliver_all(cs, deliveries)[i] is None
            }
        } by {
            assert(deliver_all(cs, deliveries) == deliver_all(cs1, deliveries.drop_first()));
            if seen.contains(i) || exists|j: int|
                0 <= j < deliveries.len() && #[trigger] deliveries[j].0 == i {
                if !seen1.contains(i) {
                    let j = choose|j: int|
                        0 <= j < deliveries.len() && #[trigger] deliveries[j].0 == i;
                    assert(j != 0 ==> deliveries.drop_first()[j - 1].0 == i);
                }
            } else {
                assert(!seen1.contains(i));
                assert forall|j: int| 0 <= j < deliveries.drop_first().len() implies #[trigger]
                    deliveries.drop_first()[j].0 != i by {
                    assert(deliveries.drop_first()[j] == deliveries[j + 1]);
                }
            }
        }
    }
}

} // verus!
