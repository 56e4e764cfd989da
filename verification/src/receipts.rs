//! The merged id-to-receipt mapping a receipt lookup returns. Entries from
//! later chunks overwrite earlier ones with the same id (a caller-error
//! class: the gateway's precedence for duplicate ids is undefined, and this
//! crate documents later-write-wins rather than specifying gateway
//! behaviour).

use vstd::prelude::*;
use crate::response::{bytes_eq, PushReceipt, PushReceiptId, ReceiptModel};

verus! {

/// The models of a sequence of id/receipt pairs.
pub open spec fn entry_models(entries: Seq<(PushReceiptId, PushReceipt)>) -> Seq<
    (Seq<u8>, ReceiptModel),
> {
    entries.map(|i: int, e: (PushReceiptId, PushReceipt)| (e.0@, e.1@))
}

/// The mapping the pairs denote, inserted in order, so that a later pair
/// with the same id wins.
pub open spec fn map_of_pairs(pairs: Seq<(Seq<u8>, ReceiptModel)>) -> Map<Seq<u8>, ReceiptModel>
    decreases pairs.len(),
{
    if pairs.len() == 0 {
        Map::empty()
    } else {
        map_of_pairs(pairs.drop_last()).insert(pairs.last().0, pairs.last().1)
    }
}

/// An id is in the mapping exactly when some pair carries it.
pub proof fn lemma_map_of_pairs_contains(pairs: Seq<(Seq<u8>, ReceiptModel)>, k: Seq<u8>)
    ensures
        map_of_pairs(pairs).contains_key(k) <==> exists|i: int|
            0 <= i < pairs.len() && pairs[i].0 == k,
    decreases pairs.len(),
{
    if pairs.len() > 0 {
        lemma_map_of_pairs_contains(pairs.drop_last(), k);
        if pairs.last().0 == k {
            assert(pairs[pairs.len() - 1].0 == k);
        } else if map_of_pairs(pairs.drop_last()).contains_key(k) {
            let i = choose|i: int| 0 <= i < pairs.drop_last().len() && pairs.drop_last()[i].0 == k;
            assert(pairs[i].0 == k);
        } else if exists|i: int| 0 <= i < pairs.len() && pairs[i].0 == k {
            let i = choose|i: int| 0 <= i < pairs.len() && pairs[i].0 == k;
            assert(pairs.drop_last()[i].0 == k);
        }
    }
}

/// The mapping sends an id to the value of its last pair.
pub proof fn lemma_map_of_pairs_last_match(pairs: Seq<(Seq<u8>, ReceiptModel)>, i: int)
    requires
        0 <= i < pairs.len(),
        forall|j: int| i < j < pairs.len() ==> pairs[j].0 != pairs[i].0,
    ensures
        map_of_pairs(pairs).contains_key(pairs[i].0),
        map_of_pairs(pairs)[pairs[i].0] == pairs[i].1,
    decreases pairs.len(),
{
    if i < pairs.len() - 1 {
        lemma_map_of_pairs_last_match(pairs.drop_last(), i);
    }
}

/// Appending pair sequences merges their mappings, preferring the later one.
pub proof fn lemma_map_of_pairs_append(a: Seq<(Seq<u8>, ReceiptModel)>, b: Seq<
    (Seq<u8>, ReceiptModel),
>)
    ensures
        map_of_pairs(a + b) == map_of_pairs(a).union_prefer_right(map_of_pairs(b)),
    decreases b.len(),
{
    if b.len() == 0 {
        assert(a + b =~= a);
        assert(map_of_pairs(a).union_prefer_right(map_of_pairs(b)) =~= map_of_pairs(a));
    } else {
        assert((a + b).drop_last() =~= a + b.drop_last());
        assert((a + b).last() == b.last());
        lemma_map_of_pairs_append(a, b.drop_last());
        assert(map_of_pairs(a).union_prefer_right(map_of_pairs(b.drop_last())).insert(
            b.last().0,
            b.last().1,
        ) =~= map_of_pairs(a).union_prefer_right(map_of_pairs(b)));
    }
}

/// The merged-mapping law: after folding a chunk in, the mapping holds an
/// id exactly when it was held before or the chunk carried it. An id the
/// gateway omitted from every chunk is absent, and its omission raises no
/// error anywhere in the pipeline.
pub proof fn lemma_merged_mapping_domain(
    before: Map<Seq<u8>, ReceiptModel>,
    chunk: Seq<(Seq<u8>, ReceiptModel)>,
    k: Seq<u8>,
)
    ensures
        before.union_prefer_right(map_of_pairs(chunk)).contains_key(k) <==> (before.contains_key(k)
            || exists|i: int| 0 <= i < chunk.len() && chunk[i].0 == k),
{
    lemma_map_of_pairs_contains(chunk, k);
}

/// The id-to-receipt mapping assembled from one or more lookup chunks.
#[derive(Debug)]
pub struct ReceiptMap {
    entries: Vec<(PushReceiptId, PushReceipt)>,
}

impl View for ReceiptMap {
    type V = Map<Seq<u8>, ReceiptModel>;

    open spec fn view(&self) -> Map<Seq<u8>, ReceiptModel> {
        map_of_pairs(self.models())
    }
}

impl ReceiptMap {
    /// The pairs held, in insertion order.
    pub closed spec fn models(&self) -> Seq<(Seq<u8>, ReceiptModel)> {
        entry_models(self.entries@)
    }

    /// An empty mapping.
    pub fn new() -> (r: ReceiptMap)
        ensures
            r.models() == Seq::<(Seq<u8>, ReceiptModel)>::empty(),
            r@ == Map::<Seq<u8>, ReceiptModel>::empty(),
    {
        let r = ReceiptMap { entries: Vec::new() };
        proof {
            assert(r.models() =~= Seq::<(Seq<u8>, ReceiptModel)>::empty());
        }
        r
    }

    /// Merges one chunk's pairs into the mapping; a pair with an id already
    /// present overwrites it.
    pub fn merge_entries(&mut self, entries: Vec<(PushReceiptId, PushReceipt)>) -> (n: usize)
        ensures
            final(self).models() == old(self).models() + entry_models(entries@),
            final(self)@ == old(self)@.union_prefer_right(map_of_pairs(entry_models(entries@))),
            n == entries@.len(),
    {
        let ghost added = entry_models(entries@);
        let n = entries.len();
        let mut entries = entries;
        self.entries.append(&mut entries);
        proof {
            assert(entry_models(self.entries@) =~= old(self).models() + added);
            lemma_map_of_pairs_append(old(self).models(), added);
        }
        n
    }

    /// The number of entries held.
    pub fn len(&self) -> (n: usize)
        ensures
            n == self.models().len(),
    {
        self.entries.len()
    }

    /// The receipt stored for `id`, if the gateway returned one: the mapping
    /// holds no entry for an id the gateway omitted.
    pub fn get(&self, id: &PushReceiptId) -> (r: Option<&PushReceipt>)
        ensures
            match r {
                Some(rc) => self@.contains_key(id@) && rc@ == self@[id@],
                None => !self@.contains_key(id@),
            },
    {
        let mut j: usize = self.entries.len();
        while j > 0
            invariant
                j <= self.entries@.len(),
                forall|t: int| j <= t < self.entries@.len() ==> #[trigger] self.entries@[t].0@
                    != id@,
            decreases j,
        {
            j -= 1;
            if bytes_eq(self.entries[j].0.bytes(), id.bytes()) {
                proof {
                    assert(self.models()[j as int].0 == id@);
                    lemma_map_of_pairs_last_match(self.models(), j as int);
                }
                return Some(&self.entries[j].1);
            }
        }
        proof {
            lemma_map_of_pairs_contains(self.models(), id@);
        }
        None
    }

    /// Hands the mapping out as its pairs, in insertion order.
    pub fn into_entries(self) -> (r: Vec<(PushReceiptId, PushReceipt)>)
        ensures
            entry_models(r@) == self.models(),
    {
        self.entries
    }
}

} // verus!
