use vstd::prelude::*;
use vstd::seq_lib::{group_to_multiset_ensures, to_multiset_insert, to_multiset_remove};

use crate::error::FormatError;
use crate::raw::{spec_column_matches, spec_column_ok, spec_metadata_matches, spec_raw_ok, RawSchema};
use crate::schema::{spec_elem_size, Column, ColumnMeta, Metadata};

verus! {

broadcast use group_to_multiset_ensures, to_multiset_insert, to_multiset_remove;

/// One entry of the offset index: where one column's data starts in the
/// raw region, the column's decode-time summary, and its block count.
#[derive(Debug, Clone, PartialEq, Eq)]
pub struct IndexEntry {
    pub start_offset: usize,
    pub meta: ColumnMeta,
    pub num_blocks: u32,
}

/// The index entry that one named column of the schema gives rise to.
pub open spec fn spec_entry_of(p: (String, Column)) -> IndexEntry {
    IndexEntry {
        start_offset: p.1.start_offset,
        meta: ColumnMeta {
            column_name: p.0,
            column_type: p.1.column_type,
            elem_size: spec_elem_size(p.1.column_type),
        },
        num_blocks: p.1.num_blocks,
    }
}

/// Whether a sequence of entries is strictly ascending by start offset.
pub open spec fn spec_entries_sorted(s: Seq<IndexEntry>) -> bool {
    forall|i: int, j: int|
        0 <= i < j < s.len() ==> (#[trigger] s[i]).start_offset < (#[trigger] s[j]).start_offset
}

/// Whether the declared start offsets admit an index at all: pairwise
/// distinct, and each inside the raw region.
pub open spec fn spec_offsets_ok(meta: Metadata, raw_len: usize) -> bool {
    &&& forall|i: int, j: int|
        0 <= i < j < meta.columns@.len() ==> (#[trigger] meta.columns@[i]).1.start_offset != (
        #[trigger] meta.columns@[j]).1.start_offset
    &&& forall|i: int|
        0 <= i < meta.columns@.len() ==> (#[trigger] meta.columns@[i]).1.start_offset < raw_len
}

/// The start offset the raw schema declares for its `i`-th column.
pub open spec fn spec_raw_offset_of(rs: RawSchema, i: int) -> int {
    rs.columns.unwrap()@[i].1.start_offset.unwrap() as int
}

/// The same condition stated over the raw schema reading itself, before
/// validation turned it into metadata: declared start offsets pairwise
/// distinct, each inside the raw region.
pub open spec fn spec_raw_offsets_ok(rs: RawSchema, raw_len: int) -> bool {
    &&& forall|i: int, j: int|
        0 <= i < j < rs.columns.unwrap()@.len() ==> #[trigger] spec_raw_offset_of(rs, i)
            != #[trigger] spec_raw_offset_of(rs, j)
    &&& forall|i: int|
        0 <= i < rs.columns.unwrap()@.len() ==> #[trigger] spec_raw_offset_of(rs, i) < raw_len
}

/// Metadata validated from a raw schema carries exactly the raw
/// schema's offsets, so the two offset conditions agree.
pub proof fn lemma_offsets_equiv(rs: RawSchema, m: Metadata, raw_len: usize)
    requires
        spec_raw_ok(rs),
        spec_metadata_matches(rs, m),
    ensures
        spec_offsets_ok(m, raw_len) <==> spec_raw_offsets_ok(rs, raw_len as int),
{
    let cs = rs.columns.unwrap()@;
    assert(m.columns@.len() == cs.len());
    assert forall|i: int|
        0 <= i < cs.len() implies (#[trigger] m.columns@[i]).1.start_offset as int
            == spec_raw_offset_of(rs, i) by {
        assert(spec_column_ok(cs[i].1));
        assert(spec_column_matches(cs[i].1, m.columns@[i].1));
    }
    if spec_offsets_ok(m, raw_len) {
        assert forall|i: int, j: int|
            0 <= i < j < cs.len() implies #[trigger] spec_raw_offset_of(rs, i)
                != #[trigger] spec_raw_offset_of(rs, j) by {
            assert(m.columns@[i].1.start_offset != m.columns@[j].1.start_offset);
        }
        assert forall|i: int|
            0 <= i < cs.len() implies #[trigger] spec_raw_offset_of(rs, i) < raw_len as int by {
            assert(m.columns@[i].1.start_offset < raw_len);
        }
    }
    if spec_raw_offsets_ok(rs, raw_len as int) {
        assert forall|i: int, j: int|
            0 <= i < j < m.columns@.len() implies (#[trigger] m.columns@[i]).1.start_offset != (
        #[trigger] m.columns@[j]).1.start_offset by {
            assert(spec_raw_offset_of(rs, i) != spec_raw_offset_of(rs, j));
        }
        assert forall|i: int|
            0 <= i < m.columns@.len() implies (#[trigger] m.columns@[i]).1.start_offset
                < raw_len by {
            assert(spec_raw_offset_of(rs, i) < raw_len as int);
        }
    }
}

/// The ordered partition skeleton of the raw region: one entry per
/// column, strictly ascending by start offset, closed by the raw region
/// length as the terminal sentinel.
#[derive(Debug, Clone, PartialEq, Eq)]
pub struct OffsetIndex {
    pub entries: Vec<IndexEntry>,
    pub raw_len: usize,
}

impl OffsetIndex {
    /// A built index is never empty, is strictly ascending, stays inside
    /// the raw region, and every entry's element width is the one its
    /// type fixes.
    pub open spec fn wf(self) -> bool {
        &&& self.entries@.len() > 0
        &&& spec_entries_sorted(self.entries@)
        &&& forall|i: int|
            0 <= i < self.entries@.len() ==> (#[trigger] self.entries@[i]).start_offset
                < self.raw_len
        &&& forall|i: int| 0 <= i < self.entries@.len() ==> (#[trigger] self.entries@[i]).meta.wf()
    }
}

/// Derives the offset index of a parsed schema: one entry per column,
/// sorted ascending by start offset, with `raw_len` closing the last
/// range. Exactly the schemas whose offsets are pairwise distinct and
/// all inside the raw region admit an index; every other schema is
/// rejected with `OffsetOutOfRange`.
#[verifier::loop_isolation(false)]
#[verifier::rlimit(100)]
pub(crate) fn build_index(meta: &Metadata, raw_len: usize) -> (r: Result<OffsetIndex, FormatError>)
    requires
        meta.wf(),
    ensures
        (r is Ok) <==> spec_offsets_ok(*meta, raw_len),
        r matches Ok(ix) ==> {
            &&& ix.wf()
            &&& ix.raw_len == raw_len
            &&& ix.entries@.to_multiset() == meta.columns@.map_values(
                |p: (String, Column)| spec_entry_of(p),
            ).to_multiset()
        },
        r matches Err(e) ==> e == FormatError::OffsetOutOfRange,
{
    let n = meta.columns.len();
    // Validate the declared offsets against each other and the raw region.
    let mut i: usize = 0;
    while i < n
        invariant
            i <= n,
            forall|p: int, q: int|
                0 <= p < q < i ==> (#[trigger] meta.columns@[p]).1.start_offset != (
                #[trigger] meta.columns@[q]).1.start_offset,
            forall|p: int|
                0 <= p < i ==> (#[trigger] meta.columns@[p]).1.start_offset < raw_len,
        decreases n - i,
    {
        if meta.columns[i].1.start_offset >= raw_len {
            return Err(FormatError::OffsetOutOfRange);
        }
        let mut j: usize = 0;
        while j < i
            invariant
                j <= i < n,
                forall|p: int|
                    0 <= p < j ==> (#[trigger] meta.columns@[p]).1.start_offset
                        != meta.columns@[i as int].1.start_offset,
            decreases i - j,
        {
            if meta.columns[j].1.start_offset == meta.columns[i].1.start_offset {
                return Err(FormatError::OffsetOutOfRange);
            }
            j += 1;
        }
        i += 1;
    }
    // Collect one entry per column, in schema order.
    let ghost pairs = meta.columns@.map_values(|p: (String, Column)| spec_entry_of(p));
    let mut entries: Vec<IndexEntry> = Vec::new();
    let mut i: usize = 0;
    while i < n
        invariant
            i <= n,
            entries@.len() == i,
            forall|k: int| 0 <= k < i ==> entries@[k] == pairs[k],
        decreases n - i,
    {
        let (name, col) = (&meta.columns[i].0, &meta.columns[i].1);
        entries.push(IndexEntry {
            start_offset: col.start_offset,
            meta: ColumnMeta::of_column(name, col),
            num_blocks: col.num_blocks,
        });
        i += 1;
    }
    assert(entries@ =~= pairs);
    // Offsets are distinct in `pairs` too, pointwise from the columns.
    assert(forall|p: int, q: int|
        0 <= p < q < pairs.len() ==> (#[trigger] pairs[p]).start_offset != (
        #[trigger] pairs[q]).start_offset);
    assert(forall|p: int| 0 <= p < pairs.len() ==> (#[trigger] pairs[p]).start_offset < raw_len);
    assert(forall|p: int| 0 <= p < pairs.len() ==> (#[trigger] pairs[p]).meta.wf());
    // Insertion sort, ascending by start offset.
    let mut s: usize = 1;
    while s < entries.len()
        invariant
            entries@.len() == n,
            entries@.to_multiset() == pairs.to_multiset(),
            forall|p: int, q: int|
                0 <= p < q < n ==> (#[trigger] entries@[p]).start_offset != (
                #[trigger] entries@[q]).start_offset,
            forall|p: int| 0 <= p < n ==> (#[trigger] entries@[p]).start_offset < raw_len,
            forall|p: int| 0 <= p < n ==> (#[trigger] entries@[p]).meta.wf(),
            spec_entries_sorted(entries@.subrange(0, s as int)),
            1 <= s <= n,
        decreases entries@.len() - s,
    {
        let ghost before = entries@;
        let x = entries.remove(s);
        let mut j: usize = 0;
        while j < s && entries[j].start_offset < x.start_offset
            invariant
                j <= s,
                entries@ == before.remove(s as int),
                forall|p: int|
                    0 <= p < j ==> (#[trigger] entries@[p]).start_offset < x.start_offset,
            decreases s - j,
        {
            j += 1;
        }
        entries.insert(j, x);
        proof {
            let after = entries@;
            let sorted0 = before.subrange(0, s as int);
            assert(after == before.remove(s as int).insert(j as int, x));
            assert(after.to_multiset() == before.to_multiset());
            assert(x == before[s as int]);
            // Where each element of `after` stood in `before`.
            assert forall|p: int| 0 <= p < j implies after[p] == before[p] by {}
            assert(after[j as int] == x);
            assert forall|p: int| j < p <= s implies after[p] == before[p - 1] by {}
            assert forall|p: int| s < p < n implies after[p] == before[p] by {}
            // The element standing where the scan stopped is larger.
            assert(j < s ==> before[j as int].start_offset > x.start_offset);
            // Distinctness, bounds and well-formedness survive the move.
            assert forall|p: int, q: int|
                0 <= p < q < n implies (#[trigger] after[p]).start_offset != (
            #[trigger] after[q]).start_offset by {
                let bp = if p < j {
                    p
                } else if p == j {
                    s as int
                } else if p <= s {
                    p - 1
                } else {
                    p
                };
                let bq = if q < j {
                    q
                } else if q == j {
                    s as int
                } else if q <= s {
                    q - 1
                } else {
                    q
                };
                assert(after[p] == before[bp]);
                assert(after[q] == before[bq]);
                assert(bp != bq);
            }
            assert forall|p: int|
                0 <= p < n implies (#[trigger] after[p]).start_offset < raw_len
                    && after[p].meta.wf() by {
                let bp = if p < j {
                    p
                } else if p == j {
                    s as int
                } else if p <= s {
                    p - 1
                } else {
                    p
                };
                assert(after[p] == before[bp]);
            }
            // The sorted prefix grew by one.
            assert forall|p: int, q: int|
                0 <= p < q < s + 1 implies (#[trigger] after[p]).start_offset < (
            #[trigger] after[q]).start_offset by {
                assert(spec_entries_sorted(sorted0));
                if q < j {
                    assert(sorted0[p] == before[p] && sorted0[q] == before[q]);
                } else if q == j {
                    assert(after[p] == before[p]);
                    assert(before[p].start_offset < x.start_offset);
                } else if p < j {
                    assert(after[p] == before[p] && after[q] == before[q - 1]);
                    assert(p < q - 1);
                    assert(sorted0[p] == before[p] && sorted0[q - 1] == before[q - 1]);
                } else if p == j {
                    assert(after[q] == before[q - 1]);
                    assert(j < s);
                    assert(before[j as int].start_offset > x.start_offset);
                    assert(sorted0[j as int] == before[j as int] && sorted0[q - 1] == before[q
                        - 1]);
                    assert(before[j as int].start_offset <= before[q - 1].start_offset);
                } else {
                    assert(after[p] == before[p - 1] && after[q] == before[q - 1]);
                    assert(sorted0[p - 1] == before[p - 1] && sorted0[q - 1] == before[q - 1]);
                }
            }
        }
        s += 1;
    }
    assert(entries@.subrange(0, n as int) =~= entries@);
    Ok(OffsetIndex { entries, raw_len })
}

} // verus!
