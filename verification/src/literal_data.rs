//! Deterministic pooling of verified literal bytes into target data objects.
//!
//! Literals with the same bytes share one backing; backings are numbered
//! in the order their bytes first occur.

use vstd::prelude::*;

use crate::identity::LiteralDataId;
use crate::machine::AssemblyLiteralBacking;
use crate::mir::{MirLiteralData, MirProgram};
use crate::symbol::{literal_backing, literal_backing_text, shared_array_metadata, shared_array_metadata_text};

verus! {

/// The position of the first byte string equal to `bytes`, or the length
/// of `pool` when there is none.
pub open spec fn first_index(pool: Seq<Seq<u8>>, bytes: Seq<u8>) -> nat
    decreases pool.len(),
{
    if pool.len() == 0 {
        0
    } else {
        let found = first_index(pool.drop_last(), bytes);
        if found < pool.len() - 1 {
            found
        } else if pool.last() == bytes {
            (pool.len() - 1) as nat
        } else {
            pool.len()
        }
    }
}

/// The bytes of each pooled literal.
pub open spec fn pool_bytes(pool: Seq<MirLiteralData>) -> Seq<Seq<u8>> {
    pool.map_values(|data: MirLiteralData| data.bytes@)
}

/// The first literal of each distinct byte string, in order of first
/// occurrence.
pub open spec fn pooled(data: Seq<MirLiteralData>) -> Seq<MirLiteralData>
    decreases data.len(),
{
    if data.len() == 0 {
        Seq::empty()
    } else {
        let rest = pooled(data.drop_last());
        if first_index(pool_bytes(rest), data.last().bytes@) < rest.len() {
            rest
        } else {
            rest.push(data.last())
        }
    }
}

/// The backing of each pooled literal: its numbered symbol, the metadata of
/// the array type that views it, and its bytes.
pub open spec fn backing_matches(
    backing: AssemblyLiteralBacking,
    position: int,
    data: MirLiteralData,
) -> bool {
    &&& backing.symbol@ == literal_backing_text(position as usize)
    &&& backing.metadata_symbol@ == shared_array_metadata_text(data.array)
    &&& backing.bytes@ == data.bytes@
}

/// Pooled literal backings and the backing symbol of every literal.
pub struct LiteralPool {
    symbols_by_data: Vec<String>,
    backings: Vec<AssemblyLiteralBacking>,
}

impl LiteralPool {
    pub closed spec fn spec_symbols(&self) -> Seq<String> {
        self.symbols_by_data@
    }

    pub closed spec fn spec_backings(&self) -> Seq<AssemblyLiteralBacking> {
        self.backings@
    }

    /// Pools the literal data of the program.
    pub fn build(program: &MirProgram) -> (r: Self)
        ensures
            ({
                let data = program.literal_data@;
                let pool = pooled(data);
                &&& r.spec_symbols().len() == data.len()
                &&& forall|i: int|
                    0 <= i < data.len() ==> first_index(pool_bytes(pool), #[trigger] data[i].bytes@)
                        < pool.len()
                &&& forall|i: int|
                    0 <= i < data.len() ==> (#[trigger] r.spec_symbols()[i])@ == literal_backing_text(
                        first_index(pool_bytes(pool), data[i].bytes@) as usize,
                    )
                &&& r.spec_backings().len() == pool.len()
                &&& forall|p: int|
                    0 <= p < pool.len() ==> backing_matches(
                        #[trigger] r.spec_backings()[p],
                        p,
                        pool[p],
                    )
            }),
    {
        let data = &program.literal_data;
        let mut symbols_by_data: Vec<String> = Vec::new();
        let mut backings: Vec<AssemblyLiteralBacking> = Vec::new();
        let mut i: usize = 0;
        while i < data.len()
            invariant
                i <= data@.len(),
                data@ == program.literal_data@,
                backings@.len() == pooled(data@.take(i as int)).len(),
                forall|p: int|
                    0 <= p < backings@.len() ==> backing_matches(
                        #[trigger] backings@[p],
                        p,
                        pooled(data@.take(i as int))[p],
                    ),
                symbols_by_data@.len() == i,
                forall|j: int|
                    0 <= j < i ==> first_index(
                        pool_bytes(pooled(data@.take(i as int))),
                        #[trigger] data@[j].bytes@,
                    ) < pooled(data@.take(i as int)).len(),
                forall|j: int|
                    0 <= j < i ==> (#[trigger] symbols_by_data@[j])@ == literal_backing_text(
                        first_index(pool_bytes(pooled(data@.take(i as int))), data@[j].bytes@)
                            as usize,
                    ),
            decreases data@.len() - i,
        {
            let ghost prefix = data@.take(i as int);
            let ghost rest = pooled(prefix);
            let ghost extended = data@.take((i + 1) as int);
            assert(extended.drop_last() =~= prefix);
            assert(extended.last() == data@[i as int]);
            proof {
                lemma_first_index_bounded(pool_bytes(rest), data@[i as int].bytes@);
            }
            let found = find_backing(&backings, &data[i].bytes, Ghost(rest));
            let position = match found {
                Some(position) => {
                    assert(pooled(extended) == rest);
                    position
                },
                None => {
                    let position = backings.len();
                    let symbol = literal_backing(position);
                    let metadata_symbol = shared_array_metadata(data[i].array);
                    let bytes = copy_bytes(&data[i].bytes);
                    backings.push(AssemblyLiteralBacking { symbol, metadata_symbol, bytes });
                    proof {
                        assert(pooled(extended) == rest.push(data@[i as int]));
                        assert(pool_bytes(rest.push(data@[i as int])) =~= pool_bytes(rest).push(
                            data@[i as int].bytes@,
                        ));
                        assert forall|j: int| 0 <= j < i implies first_index(
                            pool_bytes(pooled(extended)),
                            data@[j].bytes@,
                        ) == first_index(pool_bytes(rest), data@[j].bytes@) by {
                            lemma_first_index_push(
                                pool_bytes(rest),
                                data@[i as int].bytes@,
                                data@[j].bytes@,
                            );
                        }
                        lemma_first_index_push(
                            pool_bytes(rest),
                            data@[i as int].bytes@,
                            data@[i as int].bytes@,
                        );
                    }
                    position
                },
            };
            symbols_by_data.push(literal_backing(position));
            i = i + 1;
        }
        assert(data@.take(data@.len() as int) =~= data@);
        LiteralPool { symbols_by_data, backings }
    }

    /// The backing symbol of one literal.
    pub fn symbol(&self, data: LiteralDataId) -> (r: &str)
        requires
            data.idx < self.spec_symbols().len(),
        ensures
            r@ == self.spec_symbols()[data.idx as int]@,
    {
        self.symbols_by_data[data.index()].as_str()
    }

    /// The pooled backings, in symbol order.
    pub fn into_backings(self) -> (r: Vec<AssemblyLiteralBacking>)
        ensures
            r@ == self.spec_backings(),
    {
        self.backings
    }
}

/// Distinct backings hold distinct bytes, and every literal's backing
/// holds exactly that literal's bytes; literals with equal bytes thereby
/// share one backing.
pub proof fn lemma_pool_backings(data: Seq<MirLiteralData>)
    ensures
        forall|p: int, q: int|
            0 <= p < q < pooled(data).len() ==> #[trigger] pooled(data)[p].bytes@
                != #[trigger] pooled(data)[q].bytes@,
        forall|i: int|
            0 <= i < data.len() ==> first_index(pool_bytes(pooled(data)), #[trigger] data[i].bytes@)
                < pooled(data).len() && pooled(data)[first_index(
                pool_bytes(pooled(data)),
                data[i].bytes@,
            ) as int].bytes@ == data[i].bytes@,
    decreases data.len(),
{
    if data.len() > 0 {
        let rest_data = data.drop_last();
        lemma_pool_backings(rest_data);
        let rest = pooled(rest_data);
        let added = data.last().bytes@;
        lemma_first_index_bounded(pool_bytes(rest), added);
        assert forall|i: int| 0 <= i < rest_data.len() implies #[trigger] data[i] == rest_data[i] by {}
        if first_index(pool_bytes(rest), added) < rest.len() {
            assert(pooled(data) == rest);
            assert(pool_bytes(rest)[first_index(pool_bytes(rest), added) as int] == rest[first_index(pool_bytes(rest), added) as int].bytes@);
        } else {
            assert(pooled(data) == rest.push(data.last()));
            assert(pool_bytes(rest.push(data.last())) =~= pool_bytes(rest).push(added));
            assert forall|p: int, q: int|
                0 <= p < q < pooled(data).len() implies #[trigger] pooled(data)[p].bytes@
                != #[trigger] pooled(data)[q].bytes@ by {
                if q == rest.len() {
                    assert(pool_bytes(rest)[p] == rest[p].bytes@);
                } else {
                    assert(pooled(data)[p] == rest[p]);
                    assert(pooled(data)[q] == rest[q]);
                }
            }
            assert forall|i: int| 0 <= i < data.len() implies first_index(
                pool_bytes(pooled(data)),
                #[trigger] data[i].bytes@,
            ) < pooled(data).len() && pooled(data)[first_index(
                pool_bytes(pooled(data)),
                data[i].bytes@,
            ) as int].bytes@ == data[i].bytes@ by {
                lemma_first_index_push(pool_bytes(rest), added, data[i].bytes@);
                if i < rest_data.len() {
                    assert(data[i] == rest_data[i]);
                }
            }
        }
    }
}

proof fn lemma_first_index_bounded(pool: Seq<Seq<u8>>, bytes: Seq<u8>)
    ensures
        first_index(pool, bytes) <= pool.len(),
        first_index(pool, bytes) < pool.len() ==> pool[first_index(pool, bytes) as int] == bytes,
        forall|k: int| 0 <= k < first_index(pool, bytes) ==> pool[k] != bytes,
    decreases pool.len(),
{
    if pool.len() > 0 {
        lemma_first_index_bounded(pool.drop_last(), bytes);
        assert forall|k: int| 0 <= k < pool.len() - 1 implies pool.drop_last()[k] == pool[k] by {}
    }
}

proof fn lemma_first_index_push(pool: Seq<Seq<u8>>, added: Seq<u8>, bytes: Seq<u8>)
    requires
        first_index(pool, added) == pool.len(),
    ensures
        first_index(pool, bytes) < pool.len() ==> first_index(pool.push(added), bytes)
            == first_index(pool, bytes),
        bytes == added ==> first_index(pool.push(added), bytes) == pool.len(),
{
    assert(pool.push(added).drop_last() =~= pool);
    lemma_first_index_bounded(pool, bytes);
    if bytes == added {
        assert(first_index(pool, bytes) == pool.len());
    }
}

fn same_bytes(left: &Vec<u8>, right: &Vec<u8>) -> (r: bool)
    ensures
        r == (left@ == right@),
{
    if left.len() != right.len() {
        return false;
    }
    let mut k: usize = 0;
    while k < left.len()
        invariant
            k <= left@.len(),
            left@.len() == right@.len(),
            forall|m: int| 0 <= m < k ==> left@[m] == right@[m],
        decreases left@.len() - k,
    {
        if left[k] != right[k] {
            return false;
        }
        k = k + 1;
    }
    assert(left@ =~= right@);
    true
}

fn copy_bytes(bytes: &Vec<u8>) -> (r: Vec<u8>)
    ensures
        r@ == bytes@,
{
    let mut copy: Vec<u8> = Vec::new();
    let mut k: usize = 0;
    while k < bytes.len()
        invariant
            k <= bytes@.len(),
            copy@ == bytes@.take(k as int),
        decreases bytes@.len() - k,
    {
        copy.push(bytes[k]);
        assert(bytes@.take((k + 1) as int) =~= bytes@.take(k as int).push(bytes@[k as int]));
        k = k + 1;
    }
    assert(bytes@.take(bytes@.len() as int) =~= bytes@);
    copy
}

fn find_backing(
    backings: &Vec<AssemblyLiteralBacking>,
    bytes: &Vec<u8>,
    Ghost(pool): Ghost<Seq<MirLiteralData>>,
) -> (r: Option<usize>)
    requires
        backings@.len() == pool.len(),
        forall|p: int|
            0 <= p < backings@.len() ==> (#[trigger] backings@[p]).bytes@ == pool[p].bytes@,
    ensures
        match r {
            Some(position) => position as nat == first_index(pool_bytes(pool), bytes@)
                && position < pool.len(),
            None => first_index(pool_bytes(pool), bytes@) == pool.len(),
        },
{
    proof {
        lemma_first_index_bounded(pool_bytes(pool), bytes@);
    }
    let mut p: usize = 0;
    while p < backings.len()
        invariant
            p <= backings@.len(),
            backings@.len() == pool.len(),
            forall|q: int|
                0 <= q < backings@.len() ==> (#[trigger] backings@[q]).bytes@ == pool[q].bytes@,
            forall|q: int| 0 <= q < p ==> pool_bytes(pool)[q] != bytes@,
            first_index(pool_bytes(pool), bytes@) <= pool.len(),
            first_index(pool_bytes(pool), bytes@) < pool.len() ==> pool_bytes(
                pool,
            )[first_index(pool_bytes(pool), bytes@) as int] == bytes@,
            forall|k: int| 0 <= k < first_index(pool_bytes(pool), bytes@) ==> pool_bytes(pool)[k]
                != bytes@,
        decreases backings@.len() - p,
    {
        if same_bytes(&backings[p].bytes, bytes) {
            assert(pool_bytes(pool)[p as int] == bytes@);
            return Some(p);
        }
        assert(pool_bytes(pool)[p as int] != bytes@);
        p = p + 1;
    }
    None
}

} // verus!
