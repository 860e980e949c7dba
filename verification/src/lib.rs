//! Decoder for the db721 columnar file format: a raw columnar data region,
//! followed by a JSON schema blob and a 4-byte little-endian length trailer.
//!
//! The decoder splits the trailer, parses the schema into a typed metadata
//! model, derives an ordered partition of the raw region from the declared
//! column offsets, and exposes per-column byte slices borrowed from the one
//! owned buffer.

mod error;
mod index;
mod json;
mod parser;
mod raw;
mod schema;
mod trailer;
mod view;

pub use error::FormatError;
pub use index::{
    lemma_offsets_equiv, spec_entries_sorted, spec_entry_of, spec_offsets_ok, spec_raw_offset_of,
    spec_raw_offsets_ok, IndexEntry, OffsetIndex,
};
pub use json::{parse_metadata, raw_schema_of, utf8_decode};
pub use parser::{
    lemma_find_range_some, lemma_partition, spec_decode_ok, spec_find_range, spec_has_column_for,
    spec_has_range_for, spec_len_sum, spec_names_correspond, spec_raw_region_len,
    spec_schema_text, Parser, ParserBuilder,
};
pub use raw::{
    column_of, lemma_raw_ok_no_unknown, metadata_from_raw, spec_block_stats,
    spec_col_unknown_type, spec_column_matches,
    spec_column_ok, spec_fit_u32, spec_header_ok, spec_is_number_literal, spec_metadata_matches,
    spec_raw_ok, spec_stats_ok, spec_typed_value, spec_unknown_type_first, RawColumn, RawSchema,
    RawStats, RawValue,
};
pub use schema::{
    spec_column_type_of, spec_elem_size, BlockStats, Column, ColumnMeta, ColumnType, Metadata,
    TypedValue,
};
pub use trailer::{lemma_split_round_trip, spec_split, spec_trailer_len, split, TrailerSplit};
pub use view::{
    lemma_layout_equiv, spec_capacity_ok, spec_layout_ok, spec_next_offset, spec_range_len,
    spec_raw_cap_of, spec_raw_elem_of, spec_raw_layout_ok, spec_raw_len_of, ColRaw, ColumnRange,
};
