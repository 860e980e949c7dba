use db721_parser::{FormatError, ParserBuilder, TypedValue};

fn make_file(raw: &[u8], schema: &str) -> Vec<u8> {
    let mut v = raw.to_vec();
    v.extend_from_slice(schema.as_bytes());
    let n = schema.len() as u32;
    v.extend_from_slice(&n.to_le_bytes());
    v
}

fn three_column_schema() -> String {
    let a = r#""A":{"type":"float","start_offset":0,"num_blocks":1,"block_stats":{"0":{"num":1,"min":1.5,"max":2.5}}}"#;
    let b = r#""B":{"type":"str","start_offset":4,"num_blocks":1,"block_stats":{"0":{"num":1,"min":"ant","max":"bee","min_len":3,"max_len":3}}}"#;
    let c = r#""C":{"type":"int","start_offset":36,"num_blocks":1,"block_stats":{"0":{"num":1,"min":5,"max":9}}}"#;
    format!(
        r#"{{"Table":"Farm","Max Values Per Block":10,"Columns":{{{},{},{}}}}}"#,
        a, b, c
    )
}

fn builder() -> ParserBuilder {
    ParserBuilder::new(String::from("unused.db721"), String::from("Farm"))
}

#[test]
fn three_column_scenario() {
    let raw: Vec<u8> = (0..40u8).collect();
    let file = make_file(&raw, &three_column_schema());
    let p = builder().decode(file).unwrap();

    let a = p.column_slice("A").unwrap();
    let b = p.column_slice("B").unwrap();
    let c = p.column_slice("C").unwrap();
    assert_eq!(a.len(), 4);
    assert_eq!(b.len(), 32);
    assert_eq!(c.len(), 4);
    assert_eq!(a.len() + b.len() + c.len(), 40);
    assert_eq!(p.schema().table, "Farm");
}

#[test]
fn slices_carry_the_raw_bytes() {
    let raw: Vec<u8> = (100..140u8).collect();
    let file = make_file(&raw, &three_column_schema());
    let p = builder().decode(file).unwrap();

    assert_eq!(p.column_slice("A").unwrap(), &raw[0..4]);
    assert_eq!(p.column_slice("B").unwrap(), &raw[4..36]);
    assert_eq!(p.column_slice("C").unwrap(), &raw[36..40]);
}

#[test]
fn round_trip_recovers_raw_and_schema() {
    let raw: Vec<u8> = vec![7u8; 40];
    let schema = three_column_schema();
    let file = make_file(&raw, &schema);
    let p = builder().decode(file).unwrap();

    assert_eq!(p.data, raw);
    let meta = p.schema();
    assert_eq!(meta.table, "Farm");
    assert_eq!(meta.max_values_per_block, 10);
    assert_eq!(meta.columns.len(), 3);
    let names: Vec<&str> = meta.columns.iter().map(|c| c.0.as_str()).collect();
    assert_eq!(names, vec!["A", "B", "C"]);

    let a = &meta.columns[0].1;
    assert_eq!(a.start_offset, 0);
    assert_eq!(a.num_blocks, 1);
    assert_eq!(a.block_stats.len(), 1);
    assert_eq!(a.block_stats[0].0, "0");
    assert_eq!(a.block_stats[0].1.num, 1);
    assert_eq!(a.block_stats[0].1.min, TypedValue::Float(String::from("1.5")));
    assert_eq!(a.block_stats[0].1.max, TypedValue::Float(String::from("2.5")));
    assert_eq!(a.block_stats[0].1.min_len, None);

    let b = &meta.columns[1].1;
    assert_eq!(b.start_offset, 4);
    assert_eq!(b.block_stats[0].1.min, TypedValue::Str(String::from("ant")));
    assert_eq!(b.block_stats[0].1.max, TypedValue::Str(String::from("bee")));
    assert_eq!(b.block_stats[0].1.min_len, Some(3));
    assert_eq!(b.block_stats[0].1.max_len, Some(3));

    let c = &meta.columns[2].1;
    assert_eq!(c.start_offset, 36);
    assert_eq!(c.block_stats[0].1.min, TypedValue::Int(5));
    assert_eq!(c.block_stats[0].1.max, TypedValue::Int(9));
    assert_eq!(c.block_stats[0].1.min_len, None);
}

#[test]
fn truncated_trailer_declared_length_too_large() {
    // The last 4 bytes declare a 5-byte blob, but nothing precedes them.
    let file: Vec<u8> = vec![5, 0, 0, 0];
    let e = builder().decode(file).unwrap_err();
    assert_eq!(e, FormatError::TruncatedTrailer);
}

#[test]
fn truncated_trailer_file_shorter_than_trailer() {
    let e = builder().decode(vec![1, 2, 3]).unwrap_err();
    assert_eq!(e, FormatError::TruncatedTrailer);
    let e = builder().decode(Vec::new()).unwrap_err();
    assert_eq!(e, FormatError::TruncatedTrailer);
}

#[test]
fn invalid_utf8_schema_blob() {
    let mut file: Vec<u8> = vec![0xff, 0xfe];
    file.extend_from_slice(&2u32.to_le_bytes());
    let e = builder().decode(file).unwrap_err();
    assert_eq!(e, FormatError::InvalidUtf8);
}

#[test]
fn unknown_column_type_rejected() {
    let schema = r#"{"Table":"t","Max Values Per Block":10,"Columns":{"flag":{"type":"bool","start_offset":0,"num_blocks":1,"block_stats":{}}}}"#;
    let file = make_file(&[0u8; 8], schema);
    let e = builder().decode(file).unwrap_err();
    assert_eq!(e, FormatError::UnknownColumnType);
}

#[test]
fn duplicate_start_offset_rejected() {
    let schema = r#"{"Table":"t","Max Values Per Block":10,"Columns":{"a":{"type":"int","start_offset":0,"num_blocks":1,"block_stats":{"0":{"num":1,"min":0,"max":0}}},"b":{"type":"int","start_offset":0,"num_blocks":1,"block_stats":{"0":{"num":1,"min":0,"max":0}}}}}"#;
    let file = make_file(&[0u8; 8], schema);
    let e = builder().decode(file).unwrap_err();
    assert_eq!(e, FormatError::OffsetOutOfRange);
}

#[test]
fn offset_past_raw_region_rejected() {
    let schema = r#"{"Table":"t","Max Values Per Block":10,"Columns":{"a":{"type":"int","start_offset":64,"num_blocks":1,"block_stats":{"0":{"num":1,"min":0,"max":0}}}}}"#;
    let file = make_file(&[0u8; 8], schema);
    let e = builder().decode(file).unwrap_err();
    assert_eq!(e, FormatError::OffsetOutOfRange);
}

#[test]
fn first_offset_not_zero_rejected() {
    let schema = r#"{"Table":"t","Max Values Per Block":10,"Columns":{"a":{"type":"int","start_offset":4,"num_blocks":1,"block_stats":{"0":{"num":1,"min":0,"max":0}}}}}"#;
    let file = make_file(&[0u8; 8], schema);
    let e = builder().decode(file).unwrap_err();
    assert_eq!(e, FormatError::OffsetOutOfRange);
}

#[test]
fn misaligned_column_width_rejected() {
    // A lone int column spanning 6 bytes: not a whole number of 4-byte
    // elements.
    let schema = r#"{"Table":"t","Max Values Per Block":10,"Columns":{"a":{"type":"int","start_offset":0,"num_blocks":1,"block_stats":{"0":{"num":1,"min":0,"max":0}}}}}"#;
    let file = make_file(&[0u8; 6], schema);
    let e = builder().decode(file).unwrap_err();
    assert_eq!(e, FormatError::OffsetOutOfRange);
}

#[test]
fn capacity_exceeded_rejected() {
    // 40 bytes of int data, but one block of at most two values holds
    // only 8 bytes.
    let schema = r#"{"Table":"t","Max Values Per Block":2,"Columns":{"a":{"type":"int","start_offset":0,"num_blocks":1,"block_stats":{"0":{"num":1,"min":0,"max":0}}}}}"#;
    let file = make_file(&[0u8; 40], schema);
    let e = builder().decode(file).unwrap_err();
    assert_eq!(e, FormatError::OffsetOutOfRange);
}

#[test]
fn missing_table_key_rejected() {
    let schema = r#"{"Max Values Per Block":10,"Columns":{"a":{"type":"int","start_offset":0,"num_blocks":1,"block_stats":{"0":{"num":1,"min":0,"max":0}}}}}"#;
    let file = make_file(&[0u8; 4], schema);
    let e = builder().decode(file).unwrap_err();
    assert_eq!(e, FormatError::MissingField);
}

#[test]
fn empty_columns_rejected() {
    let schema = r#"{"Table":"t","Max Values Per Block":10,"Columns":{}}"#;
    let file = make_file(&[0u8; 4], schema);
    let e = builder().decode(file).unwrap_err();
    assert_eq!(e, FormatError::MissingField);
}

#[test]
fn empty_file_with_zero_trailer_rejected() {
    // Four zero bytes declare an empty schema blob over an empty raw
    // region: the trailer is consistent, but the empty blob has no
    // required keys.
    let file = 0u32.to_le_bytes().to_vec();
    let e = builder().decode(file).unwrap_err();
    assert_eq!(e, FormatError::MissingField);
}

#[test]
fn schema_not_json_rejected() {
    let file = make_file(&[0u8; 4], "this is not json");
    let e = builder().decode(file).unwrap_err();
    assert_eq!(e, FormatError::MissingField);
}

#[test]
fn unknown_column_request() {
    let raw: Vec<u8> = vec![0u8; 40];
    let file = make_file(&raw, &three_column_schema());
    let p = builder().decode(file).unwrap();
    let e = p.column_slice("nope").unwrap_err();
    assert_eq!(e, FormatError::UnknownColumn);
}

#[test]
fn tablename_comes_from_builder() {
    let raw: Vec<u8> = vec![0u8; 40];
    let file = make_file(&raw, &three_column_schema());
    let b = ParserBuilder::new(String::from("unused.db721"), String::from("my_table"));
    let p = b.decode(file).unwrap();
    assert_eq!(p.tablename, "my_table");
}

#[test]
fn unsorted_schema_offsets_are_sorted_by_the_index() {
    // Columns appear under names whose alphabetical order differs from
    // their offset order; slicing must follow the offsets.
    let schema = r#"{"Table":"t","Max Values Per Block":10,"Columns":{"a":{"type":"int","start_offset":4,"num_blocks":1,"block_stats":{"0":{"num":1,"min":0,"max":0}}},"b":{"type":"int","start_offset":0,"num_blocks":1,"block_stats":{"0":{"num":1,"min":0,"max":0}}}}}"#;
    let raw: Vec<u8> = (0..8u8).collect();
    let file = make_file(&raw, schema);
    let p = builder().decode(file).unwrap();
    assert_eq!(p.column_slice("b").unwrap(), &raw[0..4]);
    assert_eq!(p.column_slice("a").unwrap(), &raw[4..8]);
}
