use db721_parser::{
    metadata_from_raw, parse_metadata, Column, ColumnType, FormatError, Metadata, ParserBuilder,
    RawColumn, RawSchema, RawStats, RawValue,
};

fn int_value(i: i64) -> RawValue {
    RawValue {
        as_int: Some(i),
        as_text: None,
        literal: format!("{}", i),
    }
}

fn good_stats() -> RawStats {
    RawStats {
        num: Some(1),
        min: Some(int_value(0)),
        max: Some(int_value(9)),
        min_len: None,
        max_len: None,
    }
}

fn good_column(offset: u64) -> RawColumn {
    RawColumn {
        column_type: Some(String::from("int")),
        start_offset: Some(offset),
        num_blocks: Some(1),
        block_stats: Some(vec![(String::from("0"), good_stats())]),
    }
}

fn schema_of(columns: Vec<(String, RawColumn)>) -> RawSchema {
    RawSchema {
        table: Some(String::from("t")),
        max_values_per_block: Some(10),
        columns: Some(columns),
    }
}

#[test]
fn valid_raw_schema_is_accepted() {
    let raw = schema_of(vec![(String::from("a"), good_column(0))]);
    let m = metadata_from_raw(raw).unwrap();
    assert_eq!(m.table, "t");
    assert_eq!(m.max_values_per_block, 10);
    assert_eq!(m.columns.len(), 1);
    assert_eq!(m.columns[0].0, "a");
    assert_eq!(m.columns[0].1.column_type, ColumnType::Int);
    assert_eq!(m.columns[0].1.start_offset, 0);
    assert_eq!(m.columns[0].1.num_blocks, 1);
}

#[test]
fn unknown_type_wins_over_later_missing_fields() {
    // The column's type is judged first: a "bool" column with no other
    // field at all still reports the unknown type.
    let bad = RawColumn {
        column_type: Some(String::from("bool")),
        start_offset: None,
        num_blocks: None,
        block_stats: None,
    };
    let raw = schema_of(vec![(String::from("a"), bad)]);
    assert_eq!(metadata_from_raw(raw).unwrap_err(), FormatError::UnknownColumnType);
}

#[test]
fn missing_type_is_a_missing_field() {
    let bad = RawColumn {
        column_type: None,
        start_offset: Some(0),
        num_blocks: Some(1),
        block_stats: Some(vec![(String::from("0"), good_stats())]),
    };
    let raw = schema_of(vec![(String::from("a"), bad)]);
    assert_eq!(metadata_from_raw(raw).unwrap_err(), FormatError::MissingField);
}

#[test]
fn earlier_missing_field_wins_over_later_unknown_type() {
    let missing = RawColumn {
        column_type: Some(String::from("int")),
        start_offset: None,
        num_blocks: Some(1),
        block_stats: Some(vec![(String::from("0"), good_stats())]),
    };
    let unknown = RawColumn {
        column_type: Some(String::from("bool")),
        start_offset: Some(4),
        num_blocks: Some(1),
        block_stats: Some(vec![(String::from("0"), good_stats())]),
    };
    let raw = schema_of(vec![
        (String::from("a"), missing),
        (String::from("b"), unknown),
    ]);
    assert_eq!(metadata_from_raw(raw).unwrap_err(), FormatError::MissingField);
}

#[test]
fn str_column_requires_length_bounds() {
    let no_lens = RawColumn {
        column_type: Some(String::from("str")),
        start_offset: Some(0),
        num_blocks: Some(1),
        block_stats: Some(vec![(
            String::from("0"),
            RawStats {
                num: Some(1),
                min: Some(RawValue {
                    as_int: None,
                    as_text: Some(String::from("a")),
                    literal: String::from("\"a\""),
                }),
                max: Some(RawValue {
                    as_int: None,
                    as_text: Some(String::from("b")),
                    literal: String::from("\"b\""),
                }),
                min_len: None,
                max_len: None,
            },
        )]),
    };
    let raw = schema_of(vec![(String::from("s"), no_lens)]);
    assert_eq!(metadata_from_raw(raw).unwrap_err(), FormatError::MissingField);
}

#[test]
fn float_stat_must_be_a_number() {
    // A float column whose minimum renders as a string literal is not a
    // number, whatever the text says.
    let bad = RawColumn {
        column_type: Some(String::from("float")),
        start_offset: Some(0),
        num_blocks: Some(1),
        block_stats: Some(vec![(
            String::from("0"),
            RawStats {
                num: Some(1),
                min: Some(RawValue {
                    as_int: None,
                    as_text: Some(String::from("1.5")),
                    literal: String::from("\"1.5\""),
                }),
                max: Some(int_value(2)),
                min_len: None,
                max_len: None,
            },
        )]),
    };
    let raw = schema_of(vec![(String::from("f"), bad)]);
    assert_eq!(metadata_from_raw(raw).unwrap_err(), FormatError::MissingField);
}

#[test]
fn oversized_counts_are_rejected() {
    let raw = RawSchema {
        table: Some(String::from("t")),
        max_values_per_block: Some(u64::from(u32::MAX) + 1),
        columns: Some(vec![(String::from("a"), good_column(0))]),
    };
    assert_eq!(metadata_from_raw(raw).unwrap_err(), FormatError::MissingField);
}

#[test]
fn parse_metadata_reads_schema_text() {
    let text = r#"{"Table":"zoo","Max Values Per Block":3,"Columns":{"n":{"type":"int","start_offset":0,"num_blocks":2,"block_stats":{"0":{"num":3,"min":-4,"max":7},"1":{"num":1,"min":0,"max":0}}}}}"#;
    let m = parse_metadata(text).unwrap();
    assert_eq!(m.table, "zoo");
    assert_eq!(m.max_values_per_block, 3);
    assert_eq!(m.columns[0].1.num_blocks, 2);
    assert_eq!(m.columns[0].1.block_stats.len(), 2);
    assert_eq!(m.columns[0].1.block_stats[0].0, "0");
    assert_eq!(m.columns[0].1.block_stats[1].0, "1");
}

fn plain_column(t: ColumnType, offset: usize) -> Column {
    Column {
        column_type: t,
        start_offset: offset,
        num_blocks: 1,
        block_stats: Vec::new(),
    }
}

#[test]
fn build_index_sorts_by_offset() {
    let meta = Metadata {
        table: String::from("t"),
        columns: vec![
            (String::from("late"), plain_column(ColumnType::Int, 8)),
            (String::from("early"), plain_column(ColumnType::Int, 0)),
            (String::from("middle"), plain_column(ColumnType::Int, 4)),
        ],
        max_values_per_block: 10,
    };
    let ix = ParserBuilder::build_index(&meta, 12).unwrap();
    assert_eq!(ix.raw_len, 12);
    let order: Vec<(&str, usize)> = ix
        .entries
        .iter()
        .map(|e| (e.meta.column_name.as_str(), e.start_offset))
        .collect();
    assert_eq!(order, vec![("early", 0), ("middle", 4), ("late", 8)]);
}

#[test]
fn build_index_rejects_equal_offsets() {
    let meta = Metadata {
        table: String::from("t"),
        columns: vec![
            (String::from("a"), plain_column(ColumnType::Int, 0)),
            (String::from("b"), plain_column(ColumnType::Int, 0)),
        ],
        max_values_per_block: 10,
    };
    assert_eq!(
        ParserBuilder::build_index(&meta, 8).unwrap_err(),
        FormatError::OffsetOutOfRange
    );
}

#[test]
fn build_index_rejects_offset_at_raw_length() {
    let meta = Metadata {
        table: String::from("t"),
        columns: vec![(String::from("a"), plain_column(ColumnType::Int, 8))],
        max_values_per_block: 10,
    };
    assert_eq!(
        ParserBuilder::build_index(&meta, 8).unwrap_err(),
        FormatError::OffsetOutOfRange
    );
}

#[test]
fn index_entries_carry_element_sizes() {
    let meta = Metadata {
        table: String::from("t"),
        columns: vec![
            (String::from("words"), plain_column(ColumnType::Str, 0)),
            (String::from("nums"), plain_column(ColumnType::Float, 32)),
        ],
        max_values_per_block: 10,
    };
    let ix = ParserBuilder::build_index(&meta, 36).unwrap();
    assert_eq!(ix.entries[0].meta.elem_size, 32);
    assert_eq!(ix.entries[1].meta.elem_size, 4);
}
