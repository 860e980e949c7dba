use vstd::prelude::*;
use vstd::seq_lib::group_to_multiset_ensures;

use crate::error::FormatError;
use crate::index::{
    spec_entry_of, spec_offsets_ok, spec_raw_offset_of, IndexEntry, OffsetIndex,
};
use crate::raw::{
    spec_column_matches, spec_column_ok, spec_fit_u32, spec_metadata_matches, spec_raw_ok,
    RawSchema,
};
use crate::schema::{spec_column_type_of, spec_elem_size, Column, Metadata};

verus! {

/// One column's byte range inside the raw region: the column's name,
/// where its data starts, and how many bytes it spans.
#[derive(Debug, Clone, PartialEq, Eq)]
pub struct ColumnRange {
    pub name: String,
    pub start: usize,
    pub len: usize,
}

/// The per-column ranges of the raw region, in ascending offset order.
/// Each range names the bytes of one column; together they cover the raw
/// region exactly.
#[derive(Debug, Clone, PartialEq, Eq)]
pub struct ColRaw(pub Vec<ColumnRange>);

impl ColRaw {
    /// The ranges tile `[0, total)` without gap or overlap: the first
    /// starts at zero, each next one starts where the previous ends, and
    /// the last ends at `total`.
    pub open spec fn partitions(self, total: int) -> bool {
        &&& self.0@.len() > 0
        &&& self.0@[0].start == 0
        &&& forall|i: int|
            0 <= i < self.0@.len() - 1 ==> (#[trigger] self.0@[i]).start + self.0@[i].len
                == self.0@[i + 1].start
        &&& self.0@[self.0@.len() - 1].start + self.0@[self.0@.len() - 1].len == total
    }

    /// Every range ends inside `[0, total]`.
    pub open spec fn in_bounds(self, total: int) -> bool {
        forall|i: int|
            0 <= i < self.0@.len() ==> (#[trigger] self.0@[i]).start + self.0@[i].len <= total
    }
}

/// The width in bytes of the range that entry `i` of the index spans:
/// up to the next entry's start, or up to the raw region length for the
/// last entry.
pub open spec fn spec_range_len(index: OffsetIndex, i: int) -> int
    recommends
        0 <= i < index.entries@.len(),
{
    if i == index.entries@.len() - 1 {
        index.raw_len - index.entries@[i].start_offset
    } else {
        index.entries@[i + 1].start_offset - index.entries@[i].start_offset
    }
}

/// Whether one column's byte range is consistent with its declared shape:
/// a whole number of fixed-width elements, no more than the column's
/// declared block capacity can hold.
pub open spec fn spec_capacity_ok(len: int, e: IndexEntry, mvpb: u32) -> bool {
    &&& len % (spec_elem_size(e.meta.column_type) as int) == 0
    &&& len <= e.num_blocks * mvpb * spec_elem_size(e.meta.column_type)
}

/// Whether the index's ranges consume the raw region exactly and every
/// range is consistent with its column's declared shape.
pub open spec fn spec_layout_ok(index: OffsetIndex, mvpb: u32) -> bool
    recommends
        index.wf(),
{
    &&& index.entries@[0].start_offset == 0
    &&& forall|i: int|
        0 <= i < index.entries@.len() ==> spec_capacity_ok(
            spec_range_len(index, i),
            #[trigger] index.entries@[i],
            mvpb,
        )
}

impl ColRaw {
    /// Carves the raw region into one byte range per index entry, each
    /// bounded by the next entry's start offset and the last by the raw
    /// region length, so that the walk consumes the region exactly.
    ///
    /// Exactly the indexes whose first offset is zero and whose every
    /// range holds a whole number of elements within the column's block
    /// capacity are accepted; anything else is `OffsetOutOfRange`.
    #[verifier::loop_isolation(false)]
    pub fn build(index: &OffsetIndex, max_values_per_block: u32) -> (r: Result<ColRaw, FormatError>)
        requires
            index.wf(),
        ensures
            (r is Ok) <==> spec_layout_ok(*index, max_values_per_block),
            r matches Ok(cr) ==> {
                &&& cr.0@.len() == index.entries@.len()
                &&& forall|i: int|
                    0 <= i < cr.0@.len() ==> {
                        &&& (#[trigger] cr.0@[i]).name == index.entries@[i].meta.column_name
                        &&& cr.0@[i].start == index.entries@[i].start_offset
                        &&& cr.0@[i].len == spec_range_len(*index, i)
                    }
                &&& cr.partitions(index.raw_len as int)
                &&& cr.in_bounds(index.raw_len as int)
            },
            r matches Err(e) ==> e == FormatError::OffsetOutOfRange,
    {
        let n = index.entries.len();
        if index.entries[0].start_offset != 0 {
            return Err(FormatError::OffsetOutOfRange);
        }
        let mut out: Vec<ColumnRange> = Vec::new();
        let mut i: usize = 0;
        while i < n
            invariant
                i <= n,
                out@.len() == i,
                forall|k: int|
                    0 <= k < i ==> {
                        &&& (#[trigger] out@[k]).name == index.entries@[k].meta.column_name
                        &&& out@[k].start == index.entries@[k].start_offset
                        &&& out@[k].len == spec_range_len(*index, k)
                    },
                forall|k: int|
                    0 <= k < i ==> spec_capacity_ok(
                        spec_range_len(*index, k),
                        #[trigger] index.entries@[k],
                        max_values_per_block,
                    ),
            decreases n - i,
        {
            let e = &index.entries[i];
            let start = e.start_offset;
            let end = if i + 1 < n {
                index.entries[i + 1].start_offset
            } else {
                index.raw_len
            };
            let len = end - start;
            let elem = e.meta.elem_size;
            if len % (elem as usize) != 0 {
                return Err(FormatError::OffsetOutOfRange);
            }
            proof {
                assert(index.entries@[i as int].meta.wf());
                assert(elem <= 32);
                let a = e.num_blocks as int;
                let b = max_values_per_block as int;
                let c = elem as int;
                assert(a * b * c <= 0xffff_ffff * 0xffff_ffff * 32) by (nonlinear_arith)
                    requires
                        0 <= a <= 0xffff_ffff,
                        0 <= b <= 0xffff_ffff,
                        0 <= c <= 32,
                ;
            }
            let capacity = (e.num_blocks as u128) * (max_values_per_block as u128) * (elem as u128);
            if (len as u128) > capacity {
                return Err(FormatError::OffsetOutOfRange);
            }
            out.push(ColumnRange { name: e.meta.column_name.clone(), start, len });
            i += 1;
        }
        Ok(ColRaw(out))
    }
}

/// The lowest start offset the raw schema's first `n` columns declare
/// strictly above `o`, or `raw_len` when none starts above `o`.
pub open spec fn spec_next_offset(rs: RawSchema, n: int, o: int, raw_len: int) -> int
    decreases n,
{
    if n <= 0 {
        raw_len
    } else if o < spec_raw_offset_of(rs, n - 1) && spec_raw_offset_of(rs, n - 1)
        < spec_next_offset(rs, n - 1, o, raw_len) {
        spec_raw_offset_of(rs, n - 1)
    } else {
        spec_next_offset(rs, n - 1, o, raw_len)
    }
}

/// What `spec_next_offset` finds: either nothing starts above `o` and it
/// is `raw_len`, or it is the least declared offset above `o`.
proof fn lemma_next_offset_props(rs: RawSchema, n: int, o: int, raw_len: int)
    requires
        0 <= n,
    ensures
        spec_next_offset(rs, n, o, raw_len) == raw_len || (o < spec_next_offset(rs, n, o, raw_len)
            && exists|j: int|
            0 <= j < n && #[trigger] spec_raw_offset_of(rs, j) == spec_next_offset(
                rs,
                n,
                o,
                raw_len,
            )),
        forall|j: int|
            0 <= j < n && #[trigger] spec_raw_offset_of(rs, j) > o ==> spec_next_offset(
                rs,
                n,
                o,
                raw_len,
            ) <= spec_raw_offset_of(rs, j),
    decreases n,
{
    if n > 0 {
        lemma_next_offset_props(rs, n - 1, o, raw_len);
    }
}

/// The element width of the raw schema's `k`-th column, in bytes.
pub open spec fn spec_raw_elem_of(rs: RawSchema, k: int) -> int {
    spec_elem_size(
        spec_column_type_of(rs.columns.unwrap()@[k].1.column_type.unwrap()@).unwrap(),
    ) as int
}

/// The block capacity of the raw schema's `k`-th column, in bytes.
pub open spec fn spec_raw_cap_of(rs: RawSchema, k: int) -> int {
    spec_fit_u32(rs.columns.unwrap()@[k].1.num_blocks).unwrap() * spec_fit_u32(
        rs.max_values_per_block,
    ).unwrap() * spec_raw_elem_of(rs, k)
}

/// The width of the raw schema's `k`-th column's byte range: from its
/// declared offset up to the lowest offset declared above it, or to the
/// raw region length when it is the highest.
pub open spec fn spec_raw_len_of(rs: RawSchema, k: int, raw_len: int) -> int {
    spec_next_offset(
        rs,
        rs.columns.unwrap()@.len() as int,
        spec_raw_offset_of(rs, k),
        raw_len,
    ) - spec_raw_offset_of(rs, k)
}

/// The layout condition stated over the raw schema reading itself: some
/// column starts at offset zero, and every column's byte range is a
/// whole number of elements within its block capacity.
pub open spec fn spec_raw_layout_ok(rs: RawSchema, raw_len: int) -> bool
    recommends
        spec_raw_ok(rs),
{
    &&& exists|k: int|
        0 <= k < rs.columns.unwrap()@.len() && #[trigger] spec_raw_offset_of(rs, k) == 0
    &&& forall|k: int|
        0 <= k < rs.columns.unwrap()@.len() ==> #[trigger] spec_raw_len_of(rs, k, raw_len)
            % spec_raw_elem_of(rs, k) == 0
    &&& forall|k: int|
        0 <= k < rs.columns.unwrap()@.len() ==> #[trigger] spec_raw_len_of(rs, k, raw_len)
            <= spec_raw_cap_of(rs, k)
}

/// The index is a sorted permutation of the schema's columns, so its
/// per-range layout condition agrees with the raw schema's.
pub proof fn lemma_layout_equiv(rs: RawSchema, m: Metadata, ix: OffsetIndex, raw_len: usize)
    requires
        spec_raw_ok(rs),
        spec_metadata_matches(rs, m),
        spec_offsets_ok(m, raw_len),
        ix.wf(),
        ix.raw_len == raw_len,
        ix.entries@.to_multiset() == m.columns@.map_values(
            |p: (String, Column)| spec_entry_of(p),
        ).to_multiset(),
    ensures
        spec_layout_ok(ix, m.max_values_per_block) <==> spec_raw_layout_ok(rs, raw_len as int),
{
    broadcast use group_to_multiset_ensures;

    let cs = rs.columns.unwrap()@;
    let pairs = m.columns@.map_values(|p: (String, Column)| spec_entry_of(p));
    let es = ix.entries@;
    let n = es.len() as int;
    assert(es.to_multiset().len() == pairs.to_multiset().len());
    assert(pairs.len() == cs.len());
    assert(n == cs.len());

    // Pointwise: pair k carries exactly column k's offset, width and capacity.
    assert forall|k: int| 0 <= k < n implies {
        &&& (#[trigger] pairs[k]).start_offset as int == spec_raw_offset_of(rs, k)
        &&& pairs[k].meta.elem_size as int == spec_raw_elem_of(rs, k)
        &&& pairs[k].num_blocks as int * m.max_values_per_block as int
            * pairs[k].meta.elem_size as int == spec_raw_cap_of(rs, k)
    } by {
        assert(spec_column_ok(cs[k].1));
        assert(spec_column_matches(cs[k].1, m.columns@[k].1));
        assert(pairs[k] == spec_entry_of(m.columns@[k]));
    }

    // Each entry's range width is its column's raw range width.
    assert forall|i: int|
        0 <= i < n implies #[trigger] spec_range_len(ix, i) == spec_next_offset(
        rs,
        n,
        es[i].start_offset as int,
        raw_len as int,
    ) - es[i].start_offset as int by {
        lemma_next_offset_props(rs, n, es[i].start_offset as int, raw_len as int);
        let o = es[i].start_offset as int;
        let nxt = spec_next_offset(rs, n, o, raw_len as int);
        if i < n - 1 {
            assert(es.contains(es[i + 1]));
            assert(es.to_multiset().count(es[i + 1]) > 0);
            assert(pairs.contains(es[i + 1]));
            let k1 = choose|k: int| 0 <= k < pairs.len() && pairs[k] == es[i + 1];
            assert(spec_raw_offset_of(rs, k1) == es[i + 1].start_offset as int);
            assert(es[i].start_offset < es[i + 1].start_offset);
            assert(nxt <= es[i + 1].start_offset as int);
            assert(es[i + 1].start_offset < raw_len);
            if nxt == raw_len as int {
                assert(false);
            } else {
                let j = choose|j: int| 0 <= j < n && #[trigger] spec_raw_offset_of(rs, j) == nxt;
                assert(pairs[j].start_offset as int == nxt);
                assert(pairs.contains(pairs[j]));
                assert(pairs.to_multiset().count(pairs[j]) > 0);
                assert(es.contains(pairs[j]));
                let p = choose|p: int| 0 <= p < es.len() && es[p] == pairs[j];
                assert(es[p].start_offset as int == nxt);
                assert(nxt > o);
                if p < i {
                    assert(es[p].start_offset < es[i].start_offset);
                    assert(false);
                }
                if p == i {
                    assert(false);
                }
                if p > i + 1 {
                    assert(es[i + 1].start_offset < es[p].start_offset);
                }
                assert(nxt >= es[i + 1].start_offset as int);
            }
            assert(nxt == es[i + 1].start_offset as int);
        } else {
            if nxt != raw_len as int {
                let j = choose|j: int| 0 <= j < n && #[trigger] spec_raw_offset_of(rs, j) == nxt;
                assert(pairs[j].start_offset as int == nxt);
                assert(pairs.contains(pairs[j]));
                assert(pairs.to_multiset().count(pairs[j]) > 0);
                assert(es.contains(pairs[j]));
                let p = choose|p: int| 0 <= p < es.len() && es[p] == pairs[j];
                assert(nxt > o);
                if p < i {
                    assert(es[p].start_offset < es[i].start_offset);
                }
                assert(es[p].start_offset as int <= o);
                assert(false);
            }
        }
    }

    // The first sorted offset is zero exactly when some column declares zero.
    assert((es[0].start_offset == 0) <==> (exists|k: int|
        0 <= k < n && #[trigger] spec_raw_offset_of(rs, k) == 0)) by {
        if es[0].start_offset == 0 {
            assert(es.contains(es[0]));
            assert(es.to_multiset().count(es[0]) > 0);
            assert(pairs.contains(es[0]));
            let k = choose|k: int| 0 <= k < pairs.len() && pairs[k] == es[0];
            assert(spec_raw_offset_of(rs, k) == 0);
        }
        if exists|k: int| 0 <= k < n && #[trigger] spec_raw_offset_of(rs, k) == 0 {
            let k = choose|k: int| 0 <= k < n && #[trigger] spec_raw_offset_of(rs, k) == 0;
            assert(pairs[k].start_offset == 0);
            assert(pairs.contains(pairs[k]));
            assert(pairs.to_multiset().count(pairs[k]) > 0);
            assert(es.contains(pairs[k]));
            let p = choose|p: int| 0 <= p < es.len() && es[p] == pairs[k];
            if p > 0 {
                assert(es[0].start_offset < es[p].start_offset);
            }
            assert(es[0].start_offset == 0);
        }
    }

    if spec_layout_ok(ix, m.max_values_per_block) {
        assert forall|k: int|
            0 <= k < n implies #[trigger] spec_raw_len_of(rs, k, raw_len as int)
                % spec_raw_elem_of(rs, k) == 0 && spec_raw_len_of(rs, k, raw_len as int)
                <= spec_raw_cap_of(rs, k) by {
            assert(pairs.contains(pairs[k]));
            assert(pairs.to_multiset().count(pairs[k]) > 0);
            assert(es.contains(pairs[k]));
            let p = choose|p: int| 0 <= p < es.len() && es[p] == pairs[k];
            assert(spec_capacity_ok(spec_range_len(ix, p), es[p], m.max_values_per_block));
            assert(es[p].start_offset as int == spec_raw_offset_of(rs, k));
            assert(spec_raw_len_of(rs, k, raw_len as int) == spec_range_len(ix, p));
        }
        assert(spec_raw_layout_ok(rs, raw_len as int));
    }
    if spec_raw_layout_ok(rs, raw_len as int) {
        assert forall|i: int|
            0 <= i < n implies spec_capacity_ok(
            spec_range_len(ix, i),
            #[trigger] es[i],
            m.max_values_per_block,
        ) by {
            assert(es.contains(es[i]));
            assert(es.to_multiset().count(es[i]) > 0);
            assert(pairs.contains(es[i]));
            let k = choose|k: int| 0 <= k < pairs.len() && pairs[k] == es[i];
            assert(spec_raw_len_of(rs, k, raw_len as int) % spec_raw_elem_of(rs, k) == 0);
            assert(spec_raw_len_of(rs, k, raw_len as int) <= spec_raw_cap_of(rs, k));
            assert(es[i].start_offset as int == spec_raw_offset_of(rs, k));
            assert(spec_raw_len_of(rs, k, raw_len as int) == spec_range_len(ix, i));
        }
        assert(spec_layout_ok(ix, m.max_values_per_block));
    }
}

} // verus!
