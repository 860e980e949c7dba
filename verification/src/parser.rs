use vstd::prelude::*;
use vstd::seq_lib::group_to_multiset_ensures;
use vstd::slice::slice_subrange;

use crate::error::FormatError;
use crate::index::{
    build_index as build_index_impl, lemma_offsets_equiv, spec_entry_of, spec_raw_offsets_ok,
    OffsetIndex,
};
use crate::json::{bytes_to_string, parse_metadata, raw_schema_of, utf8_decode};
use crate::raw::{
    lemma_raw_ok_no_unknown, spec_header_ok, spec_metadata_matches, spec_raw_ok,
    spec_unknown_type_first,
};
use crate::schema::{Column, Metadata};
use crate::trailer::{spec_split, split};
use crate::view::{lemma_layout_equiv, spec_raw_layout_ok, ColRaw, ColumnRange};

verus! {

/// The schema text of a file's bytes: what the blob between the raw
/// region and the trailer decodes to as UTF-8, when the trailer is
/// consistent and the blob is valid text.
pub open spec fn spec_schema_text(data: Seq<u8>) -> Option<Seq<char>> {
    match spec_split(data) {
        Ok(parts) => utf8_decode(parts.1),
        Err(_) => None,
    }
}

/// The raw region's length, for a file whose trailer is consistent.
pub open spec fn spec_raw_region_len(data: Seq<u8>) -> int {
    match spec_split(data) {
        Ok(parts) => parts.0.len() as int,
        Err(_) => 0,
    }
}

/// Whether a file's bytes decode: the trailer splits, the blob is UTF-8
/// text, its JSON reading is a well-shaped schema, and the declared
/// offsets are distinct, inside the raw region, and partition it into
/// whole-element ranges within each column's block capacity.
pub open spec fn spec_decode_ok(data: Seq<u8>) -> bool {
    match spec_schema_text(data) {
        Some(text) => match raw_schema_of(text) {
            Some(rs) => {
                &&& spec_raw_ok(rs)
                &&& spec_raw_offsets_ok(rs, spec_raw_region_len(data))
                &&& spec_raw_layout_ok(rs, spec_raw_region_len(data))
            },
            None => false,
        },
        None => false,
    }
}

/// Whether some range carries this name and starts at this offset.
pub open spec fn spec_has_range_for(cr: ColRaw, name: String, off: usize) -> bool {
    exists|i: int|
        0 <= i < cr.0@.len() && (#[trigger] cr.0@[i]).name == name && cr.0@[i].start == off
}

/// Whether the schema declares a column of this name with this start
/// offset.
pub open spec fn spec_has_column_for(meta: Metadata, name: String, off: usize) -> bool {
    exists|k: int|
        0 <= k < meta.columns@.len() && (#[trigger] meta.columns@[k]).0 == name
            && meta.columns@[k].1.start_offset == off
}

/// Whether the ranges and the schema columns agree: each schema column
/// has a range under its name starting at its declared offset, and each
/// range belongs to such a column.
pub open spec fn spec_names_correspond(cr: ColRaw, meta: Metadata) -> bool {
    &&& forall|k: int|
        0 <= k < meta.columns@.len() ==> spec_has_range_for(
            cr,
            (#[trigger] meta.columns@[k]).0,
            meta.columns@[k].1.start_offset,
        )
    &&& forall|i: int|
        0 <= i < cr.0@.len() ==> spec_has_column_for(
            meta,
            (#[trigger] cr.0@[i]).name,
            cr.0@[i].start,
        )
}

/// A range under `name` exists exactly when the ordered walk finds one.
pub proof fn lemma_find_range_some(s: Seq<ColumnRange>, name: Seq<char>)
    ensures
        (spec_find_range(s, name) is Some) <==> exists|i: int|
            0 <= i < s.len() && (#[trigger] s[i]).name@ == name,
    decreases s.len(),
{
    if s.len() > 0 {
        lemma_find_range_some(s.drop_first(), name);
        if s[0].name@ == name {
        } else if exists|i: int| 0 <= i < s.len() && (#[trigger] s[i]).name@ == name {
            let i = choose|i: int| 0 <= i < s.len() && (#[trigger] s[i]).name@ == name;
            assert(s.drop_first()[i - 1].name@ == name);
        } else if spec_find_range(s.drop_first(), name) is Some {
            let i = choose|i: int|
                0 <= i < s.drop_first().len() && (#[trigger] s.drop_first()[i]).name@ == name;
            assert(s[i + 1].name@ == name);
        }
    }
}

/// The first range carrying `name`, walking the ranges in order.
pub open spec fn spec_find_range(s: Seq<ColumnRange>, name: Seq<char>) -> Option<ColumnRange>
    decreases s.len(),
{
    if s.len() == 0 {
        None
    } else if s[0].name@ == name {
        Some(s[0])
    } else {
        spec_find_range(s.drop_first(), name)
    }
}

/// A decoded db721 file, ready for column access: the raw columnar
/// region (exclusively owned), the per-column byte ranges derived from
/// the schema's offsets, and the schema itself for introspection.
///
/// Column bytes are never copied: `column_slice` borrows from the one
/// owned buffer, for as long as the `Parser` lives.
#[derive(Debug)]
pub struct Parser {
    pub tablename: String,
    pub data: Vec<u8>,
    pub columns: ColRaw,
    pub meta: Metadata,
}

impl Parser {
    /// A decoded file's ranges tile its raw region exactly, each range
    /// ends inside the buffer, and its schema is well formed.
    pub open spec fn wf(self) -> bool {
        &&& self.columns.partitions(self.data@.len() as int)
        &&& self.columns.in_bounds(self.data@.len() as int)
        &&& self.meta.wf()
    }

    /// Assembles a decoded file from its parts.
    pub fn new(tablename: String, data: Vec<u8>, columns: ColRaw, meta: Metadata) -> (r: Parser)
        ensures
            r == (Parser { tablename, data, columns, meta }),
    {
        Parser { tablename, data, columns, meta }
    }

    /// The decoded schema, for introspection without re-parsing.
    pub fn schema(&self) -> (r: &Metadata)
        ensures
            r == &self.meta,
    {
        &self.meta
    }

    /// The stored bytes of the named column: a borrowed view into the
    /// raw region, exactly the range the offset index assigned to that
    /// column. A name the schema does not declare is `UnknownColumn`.
    pub fn column_slice<'a>(&'a self, name: &str) -> (r: Result<&'a [u8], FormatError>)
        requires
            self.wf(),
        ensures
            (r is Ok) <==> (spec_find_range(self.columns.0@, name@) is Some),
            r matches Ok(sl) ==> (spec_find_range(self.columns.0@, name@) matches Some(cr)
                && sl@ == self.data@.subrange(cr.start as int, cr.start + cr.len)),
            r matches Err(e) ==> e == FormatError::UnknownColumn,
    {
        let n = self.columns.0.len();
        let total = self.data.len();
        proof {
            assert(self.columns.0@.subrange(0, n as int) =~= self.columns.0@);
        }
        let mut i: usize = 0;
        while i < n
            invariant
                i <= n,
                self.wf(),
                n == self.columns.0@.len(),
                total == self.data@.len(),
                spec_find_range(self.columns.0@, name@) == spec_find_range(
                    self.columns.0@.subrange(i as int, n as int),
                    name@,
                ),
            decreases n - i,
        {
            let ghost suffix = self.columns.0@.subrange(i as int, n as int);
            assert(suffix[0] == self.columns.0@[i as int]);
            if String::eq(&self.columns.0[i].name, &name.to_owned()) {
                let start = self.columns.0[i].start;
                let len = self.columns.0[i].len;
                assert(self.columns.0@[i as int].start + self.columns.0@[i as int].len <= total);
                let sl = slice_subrange(self.data.as_slice(), start, start + len);
                return Ok(sl);
            }
            proof {
                assert(suffix.drop_first() =~= self.columns.0@.subrange(i + 1, n as int));
            }
            i += 1;
        }
        proof {
            assert(self.columns.0@.subrange(n as int, n as int) =~= Seq::<ColumnRange>::empty());
        }
        Err(FormatError::UnknownColumn)
    }
}

/// Builds a `Parser` for one file: the file name it will be read from
/// and the table name the result is to carry.
#[derive(Debug, Clone, PartialEq, Eq)]
pub struct ParserBuilder {
    pub filename: String,
    pub tablename: String,
}

impl ParserBuilder {
    /// Remembers the file to decode and the table name to carry.
    pub fn new(filename: String, tablename: String) -> (r: ParserBuilder)
        ensures
            r == (ParserBuilder { filename, tablename }),
    {
        ParserBuilder { filename, tablename }
    }

    /// Derives the offset index of a parsed schema: one entry per
    /// column, sorted ascending by start offset, closed by the raw
    /// region length. Exactly the schemas whose offsets are pairwise
    /// distinct and inside the raw region admit an index; every other
    /// schema is `OffsetOutOfRange`.
    pub fn build_index(meta: &Metadata, raw_len: usize) -> (r: Result<OffsetIndex, FormatError>)
        requires
            meta.wf(),
        ensures
            (r is Ok) <==> crate::index::spec_offsets_ok(*meta, raw_len),
            r matches Ok(ix) ==> {
                &&& ix.wf()
                &&& ix.raw_len == raw_len
                &&& ix.entries@.to_multiset() == meta.columns@.map_values(
                    |p: (String, crate::schema::Column)| crate::index::spec_entry_of(p),
                ).to_multiset()
            },
            r matches Err(e) ==> e == FormatError::OffsetOutOfRange,
    {
        build_index_impl(meta, raw_len)
    }

    /// Runs the whole pipeline on a file's bytes: splits the trailer,
    /// decodes and parses the schema, derives the offset index, and
    /// carves the per-column ranges.
    ///
    /// Decoding succeeds exactly on the files `spec_decode_ok` admits.
    /// A successful decode is well formed, carries this builder's table
    /// name, owns exactly the file's raw region, holds the metadata the
    /// schema reading pins, and gives every schema column a range under
    /// its name starting at its declared offset. Each error comes
    /// exactly on the stage condition stated for it.
    pub fn decode(&self, data: Vec<u8>) -> (r: Result<Parser, FormatError>)
        ensures
            (r is Ok) <==> spec_decode_ok(data@),
            r matches Ok(p) ==> {
                &&& p.wf()
                &&& p.tablename == self.tablename
                &&& spec_split(data@) matches Ok(parts) && p.data@ == parts.0
                &&& spec_metadata_matches(
                    raw_schema_of(spec_schema_text(data@).unwrap()).unwrap(),
                    p.meta,
                )
                &&& p.columns.0@.len() == p.meta.columns@.len()
                &&& spec_names_correspond(p.columns, p.meta)
            },
            (r == Err::<Parser, FormatError>(FormatError::TruncatedTrailer)) <==> (spec_split(
                data@,
            ) is Err),
            (r == Err::<Parser, FormatError>(FormatError::InvalidUtf8)) <==> (spec_split(data@)
                matches Ok(parts) && utf8_decode(parts.1) is None),
            (r == Err::<Parser, FormatError>(FormatError::MissingField)) <==> (spec_schema_text(
                data@,
            ) matches Some(text) && match raw_schema_of(text) {
                Some(rs) => !spec_raw_ok(rs) && !(spec_header_ok(rs) && spec_unknown_type_first(
                    rs,
                )),
                None => true,
            }),
            (r == Err::<Parser, FormatError>(FormatError::UnknownColumnType)) <==> (
            spec_schema_text(data@) matches Some(text) && raw_schema_of(text) matches Some(rs)
                && spec_header_ok(rs) && spec_unknown_type_first(rs)),
            (r == Err::<Parser, FormatError>(FormatError::OffsetOutOfRange)) <==> (
            spec_schema_text(data@) matches Some(text) && raw_schema_of(text) matches Some(rs)
                && spec_raw_ok(rs) && !(spec_raw_offsets_ok(rs, spec_raw_region_len(data@))
                && spec_raw_layout_ok(rs, spec_raw_region_len(data@)))),
    {
        let parts = match split(&data) {
            Ok(t) => t,
            Err(e) => return Err(e),
        };
        let text = match bytes_to_string(&parts.schema) {
            Some(s) => s,
            None => return Err(FormatError::InvalidUtf8),
        };
        let ghost gtext = text@;
        proof {
            assert(spec_schema_text(data@) == Some(gtext));
        }
        let meta = match parse_metadata(text.as_str()) {
            Ok(m) => m,
            Err(e) => return Err(e),
        };
        let ghost grs = raw_schema_of(gtext).unwrap();
        let raw_len = parts.raw.len();
        proof {
            assert(spec_raw_region_len(data@) == raw_len as int);
        }
        let index = match Self::build_index(&meta, raw_len) {
            Ok(ix) => ix,
            Err(e) => {
                proof {
                    lemma_offsets_equiv(grs, meta, raw_len);
                    lemma_raw_ok_no_unknown(grs);
                }
                return Err(e);
            },
        };
        let columns = match ColRaw::build(&index, meta.max_values_per_block) {
            Ok(c) => c,
            Err(e) => {
                proof {
                    lemma_offsets_equiv(grs, meta, raw_len);
                    lemma_layout_equiv(grs, meta, index, raw_len);
                    lemma_raw_ok_no_unknown(grs);
                }
                return Err(e);
            },
        };
        proof {
            lemma_offsets_equiv(grs, meta, raw_len);
            lemma_layout_equiv(grs, meta, index, raw_len);
            lemma_raw_ok_no_unknown(grs);
            lemma_ranges_named_after_columns(index, meta, columns);
            assert(spec_decode_ok(data@));
        }
        Ok(Parser::new(self.tablename.clone(), parts.raw, columns, meta))
    }
}

/// The index is a permutation of the schema's columns and the ranges
/// take their names and starts from the index, so ranges and schema
/// columns agree on names and declared offsets.
proof fn lemma_ranges_named_after_columns(index: OffsetIndex, meta: Metadata, cr: ColRaw)
    requires
        index.entries@.to_multiset() == meta.columns@.map_values(
            |p: (String, Column)| spec_entry_of(p),
        ).to_multiset(),
        cr.0@.len() == index.entries@.len(),
        forall|i: int|
            0 <= i < cr.0@.len() ==> (#[trigger] cr.0@[i]).name
                == index.entries@[i].meta.column_name && cr.0@[i].start
                == index.entries@[i].start_offset,
    ensures
        cr.0@.len() == meta.columns@.len(),
        spec_names_correspond(cr, meta),
{
    broadcast use group_to_multiset_ensures;

    let pairs = meta.columns@.map_values(|p: (String, Column)| spec_entry_of(p));
    assert(index.entries@.to_multiset().len() == pairs.to_multiset().len());
    assert(cr.0@.len() == meta.columns@.len());
    assert forall|k: int|
        0 <= k < meta.columns@.len() implies spec_has_range_for(
        cr,
        (#[trigger] meta.columns@[k]).0,
        meta.columns@[k].1.start_offset,
    ) by {
        let e = spec_entry_of(meta.columns@[k]);
        assert(pairs[k] == e);
        assert(pairs.contains(e));
        assert(pairs.to_multiset().count(e) > 0);
        assert(index.entries@.contains(e));
        let i = choose|i: int| 0 <= i < index.entries@.len() && index.entries@[i] == e;
        assert(cr.0@[i].name == e.meta.column_name);
        assert(cr.0@[i].start == e.start_offset);
        assert(0 <= i < cr.0@.len() && cr.0@[i].name == meta.columns@[k].0 && cr.0@[i].start
            == meta.columns@[k].1.start_offset);
    }
    assert forall|i: int|
        0 <= i < cr.0@.len() implies spec_has_column_for(
        meta,
        (#[trigger] cr.0@[i]).name,
        cr.0@[i].start,
    ) by {
        let e = index.entries@[i];
        assert(index.entries@.contains(e));
        assert(index.entries@.to_multiset().count(e) > 0);
        assert(pairs.contains(e));
        let k = choose|k: int| 0 <= k < pairs.len() && pairs[k] == e;
        assert(pairs[k] == spec_entry_of(meta.columns@[k]));
        assert(meta.columns@[k].0 == e.meta.column_name);
        assert(meta.columns@[k].1.start_offset == e.start_offset);
        assert(0 <= k < meta.columns@.len() && meta.columns@[k].0 == cr.0@[i].name
            && meta.columns@[k].1.start_offset == cr.0@[i].start);
    }
}

/// The number of bytes the ranges span together.
pub open spec fn spec_len_sum(s: Seq<ColumnRange>) -> int
    decreases s.len(),
{
    if s.len() == 0 {
        0
    } else {
        spec_len_sum(s.drop_last()) + s.last().len
    }
}

/// The first `k + 1` ranges of a tiling sum to the end of range `k`.
proof fn lemma_sum_prefix(s: Seq<ColumnRange>, k: int)
    requires
        0 <= k < s.len(),
        s[0].start == 0,
        forall|i: int| 0 <= i < s.len() - 1 ==> (#[trigger] s[i]).start + s[i].len == s[i + 1].start,
    ensures
        spec_len_sum(s.take(k + 1)) == s[k].start + s[k].len,
    decreases k,
{
    if k == 0 {
        assert(s.take(1).last() == s[0]);
        assert(s.take(1).drop_last() =~= Seq::<ColumnRange>::empty());
        assert(spec_len_sum(s.take(1)) == spec_len_sum(Seq::<ColumnRange>::empty()) + s[0].len);
    } else {
        lemma_sum_prefix(s, k - 1);
        assert(s[k - 1].start + s[k - 1].len == s[k].start);
        assert(s.take(k + 1).drop_last() =~= s.take(k));
        assert(s.take(k + 1).last() == s[k]);
        assert(spec_len_sum(s.take(k + 1)) == spec_len_sum(s.take(k)) + s[k].len);
    }
}

/// Range starts never decrease along a tiling.
proof fn lemma_start_monotone(s: Seq<ColumnRange>, a: int, b: int)
    requires
        forall|i: int| 0 <= i < s.len() - 1 ==> (#[trigger] s[i]).start + s[i].len == s[i + 1].start,
        0 <= a <= b < s.len(),
    ensures
        s[a].start <= s[b].start,
    decreases b - a,
{
    if a < b {
        lemma_start_monotone(s, a, b - 1);
        assert(s[b - 1].start + s[b - 1].len == s[b].start);
    }
}

/// Law: the column ranges of a well-formed parser partition its raw
/// region. Their lengths sum to exactly the region's length, and for any
/// two ranges the earlier one ends at or before the later one starts, so
/// no two column slices overlap and they come in offset order.
pub proof fn lemma_partition(p: Parser)
    requires
        p.wf(),
    ensures
        spec_len_sum(p.columns.0@) == p.data@.len(),
        forall|i: int, j: int|
            0 <= i < j < p.columns.0@.len() ==> (#[trigger] p.columns.0@[i]).start
                + p.columns.0@[i].len <= (#[trigger] p.columns.0@[j]).start,
{
    let s = p.columns.0@;
    lemma_sum_prefix(s, s.len() - 1);
    assert(s.take(s.len() as int) =~= s);
    assert forall|i: int, j: int| 0 <= i < j < s.len() implies (#[trigger] s[i]).start + s[i].len
        <= (#[trigger] s[j]).start by {
        lemma_start_monotone(s, i + 1, j);
        assert(s[i].start + s[i].len == s[i + 1].start);
    }
}

} // verus!
