use db721::column::ColumnMeta;
use db721::error::{Error, FormatFault, SchemaFault};
use db721::kind::ValueKind;
use db721::stats::BlockMeta;
use db721::table::{DB721Meta, DB721};
use db721::trailer::{locate_catalog, read_meta_size};
use db721::value::DB721Type;
use std::path::PathBuf;

fn ints(count: i32, min: i32, max: i32) -> BlockMeta {
    BlockMeta::new(count, DB721Type::Integer(min), DB721Type::Integer(max), None, None).unwrap()
}

fn texts(count: i32, min: &str, max: &str) -> BlockMeta {
    BlockMeta::new(
        count,
        DB721Type::Str(String::from(min)),
        DB721Type::Str(String::from(max)),
        Some(min.len() as i32),
        Some(max.len() as i32),
    )
    .unwrap()
}

fn int_column(start: i32, counts: &[i32]) -> ColumnMeta {
    let blocks = counts.iter().enumerate().map(|(i, c)| (i.to_string(), ints(*c, 0, 9))).collect();
    ColumnMeta::new(String::from("int"), start, counts.len() as i32, blocks).unwrap()
}

fn image(json: &[u8], size: i32) -> Vec<u8> {
    let mut file = vec![9u8; 16];
    file.extend_from_slice(json);
    file.extend_from_slice(&size.to_le_bytes());
    file
}

#[test]
fn offsets_add_up_the_blocks_before() {
    let c = int_column(0, &[2, 3, 0, 5]);
    assert_eq!(c.get_offset_of_block(0), Ok(0));
    assert_eq!(c.get_offset_of_block(1), Ok(8));
    assert_eq!(c.get_offset_of_block(2), Ok(20));
    assert_eq!(c.get_offset_of_block(3), Ok(20));
    assert_eq!(c.get_offset_of_block(4), Ok(40));
}

#[test]
fn offsets_start_at_the_column() {
    let c = int_column(100, &[2, 3]);
    assert_eq!(c.get_offset_of_block(0), Ok(100));
    assert_eq!(c.get_offset_of_block(-3), Ok(100));
    assert_eq!(c.get_offset_of_block(1), Ok(108));
    assert_eq!(c.get_offset_of_block(2), Ok(120));
}

#[test]
fn strings_are_thirty_two_bytes_wide() {
    let blocks = vec![(String::from("0"), texts(2, "a", "b")), (String::from("1"), texts(1, "c", "c"))];
    let c = ColumnMeta::new(String::from("str"), 8, 2, blocks).unwrap();
    assert_eq!(c.kind(), ValueKind::Str);
    assert_eq!(c.get_offset_of_block(1), Ok(8 + 64));
    assert_eq!(c.get_offset_of_block(2), Ok(8 + 96));
    assert_eq!(c.block_len(0), Some(64));
    assert_eq!(c.block_len(1), Some(32));
    assert_eq!(c.block_len(2), None);
}

#[test]
fn each_block_starts_where_the_one_before_ends() {
    let c = int_column(12, &[4, 1, 7, 0, 2]);
    for i in 0..5 {
        let here = c.get_offset_of_block(i).unwrap();
        let next = c.get_offset_of_block(i + 1).unwrap();
        assert_eq!(next, here + 4 * c.block(i).unwrap().value_num() as u64);
    }
}

#[test]
fn a_missing_block_stops_the_offset() {
    let blocks = vec![(String::from("0"), ints(2, 0, 1)), (String::from("2"), ints(2, 0, 1)), (String::from("4"), ints(1, 0, 0))];
    let c = ColumnMeta::new(String::from("int"), 0, 5, blocks).unwrap();
    assert_eq!(c.get_offset_of_block(1), Ok(8));
    assert_eq!(
        c.get_offset_of_block(2),
        Err(Error::SchemaInconsistency(SchemaFault::MissingBlock(1)))
    );
    assert_eq!(
        c.get_offset_of_block(5),
        Err(Error::SchemaInconsistency(SchemaFault::MissingBlock(1)))
    );
    assert!(c.block(1).is_none());
    assert!(c.block(2).is_some());
}

#[test]
fn a_later_entry_replaces_an_earlier_one() {
    let blocks = vec![(String::from("0"), ints(2, 0, 1)), (String::from("0"), ints(5, 0, 1))];
    let c = ColumnMeta::new(String::from("int"), 0, 1, blocks).unwrap();
    assert_eq!(c.block(0).unwrap().value_num(), 5);
    assert_eq!(c.total_rows(), 5);
}

#[test]
fn an_entry_counts_under_the_index_that_its_key_spells() {
    let blocks = vec![
        (String::from("0"), ints(2, 0, 1)),
        (String::from("01"), ints(50, 0, 1)),
        (String::from("1"), ints(3, 0, 1)),
        (String::from("two"), texts(7, "a", "b")),
        (String::from("-1"), ints(9, 0, 1)),
    ];
    let c = ColumnMeta::new(String::from("int"), 0, 3, blocks).unwrap();
    assert_eq!(c.block(0).unwrap().value_num(), 2);
    assert_eq!(c.block(1).unwrap().value_num(), 3);
    assert!(c.block(2).is_none());
    assert!(c.block(-1).is_none());
    assert_eq!(c.total_rows(), 5);
    assert_eq!(c.get_offset_of_block(2), Ok(20));
    let others: Vec<(&str, i32)> =
        c.other_stats().iter().map(|(k, m)| (k.as_str(), m.value_num())).collect();
    assert_eq!(others, vec![("01", 50), ("two", 7), ("-1", 9)]);
    let d = c.clone();
    assert_eq!(d.other_stats().len(), 3);
    assert_eq!(d.other_stats()[1].0, "two");
}

#[test]
fn rows_are_counted_over_the_blocks_of_the_column() {
    let c = int_column(0, &[2, 3, 0, 5]);
    assert_eq!(c.total_rows(), 10);
    assert_eq!(c.num_blocks(), 4);
    assert_eq!(c.start_offset(), 0);
    let blocks = vec![(String::from("0"), ints(2, 0, 1)), (String::from("1"), ints(3, 0, 1)), (String::from("7"), ints(100, 0, 1))];
    let c = ColumnMeta::new(String::from("int"), 0, 2, blocks).unwrap();
    assert_eq!(c.total_rows(), 5);
}

#[test]
fn a_column_is_refused_for_what_is_wrong_with_it() {
    let r = ColumnMeta::new(String::from("double"), 0, 1, vec![(String::from("0"), ints(1, 0, 0))]);
    assert_eq!(r.err(), Some(Error::Format(FormatFault::ValueType(String::from("double")))));
    let r = ColumnMeta::new(String::from("int"), -1, 1, vec![(String::from("0"), ints(1, 0, 0))]);
    assert_eq!(r.err(), Some(Error::Format(FormatFault::StartOffset)));
    let r = ColumnMeta::new(String::from("int"), 0, 0, vec![(String::from("0"), ints(1, 0, 0))]);
    assert_eq!(r.err(), Some(Error::Format(FormatFault::BlockCount)));
    let r = ColumnMeta::new(String::from("int"), 0, 1, vec![(String::from("0"), texts(1, "a", "b"))]);
    assert_eq!(r.err(), Some(Error::Format(FormatFault::Statistics)));
    let r = ColumnMeta::new(String::from("str"), 0, 2, vec![(String::from("0"), texts(1, "a", "b")), (String::from("1"), ints(1, 0, 0))]);
    assert_eq!(r.err(), Some(Error::Format(FormatFault::Statistics)));
    let r = ColumnMeta::new(String::from("double"), -1, 0, vec![(String::from("0"), texts(1, "a", "b"))]);
    assert_eq!(r.err(), Some(Error::Format(FormatFault::ValueType(String::from("double")))));
}

#[test]
fn a_column_may_lack_every_block() {
    let c = ColumnMeta::new(String::from("float"), 3, 2, Vec::new()).unwrap();
    assert_eq!(c.kind(), ValueKind::Float);
    assert_eq!(c.total_rows(), 0);
    assert_eq!(
        c.get_offset_of_block(1),
        Err(Error::SchemaInconsistency(SchemaFault::MissingBlock(0)))
    );
}

#[test]
fn a_copy_of_a_column_says_the_same() {
    let c = int_column(4, &[2, 3]);
    let d = c.clone();
    assert_eq!(d.kind(), c.kind());
    assert_eq!(d.start_offset(), 4);
    assert_eq!(d.num_blocks(), 2);
    assert_eq!(d.get_offset_of_block(2), c.get_offset_of_block(2));
    assert_eq!(d.total_rows(), 5);
}

#[test]
fn a_catalog_finds_columns_by_name() {
    let columns = vec![
        (String::from("identifier"), int_column(0, &[2, 2])),
        (
            String::from("sex"),
            ColumnMeta::new(String::from("str"), 16, 1, vec![(String::from("0"), texts(4, "FEMALE", "MALE"))]).unwrap(),
        ),
    ];
    let meta = DB721Meta::new(String::from("chickens"), 2, columns).unwrap();
    assert_eq!(meta.table_name(), "chickens");
    assert_eq!(meta.max_value_per_block(), 2);
    assert_eq!(meta.column("sex").unwrap().kind(), ValueKind::Str);
    assert_eq!(meta.column("identifier").unwrap().start_offset(), 0);
    assert_eq!(
        meta.column("weight").err(),
        Some(Error::SchemaInconsistency(SchemaFault::MissingColumn))
    );
    assert_eq!(
        meta.schema(),
        vec![(String::from("identifier"), ValueKind::Int), (String::from("sex"), ValueKind::Str)]
    );
    assert_eq!(meta.row_count(), 4);
}

#[test]
fn a_catalog_without_columns_has_no_rows() {
    let meta = DB721Meta::new(String::from("empty"), 10, Vec::new()).unwrap();
    assert_eq!(meta.row_count(), 0);
    assert!(meta.schema().is_empty());
}

#[test]
fn two_columns_of_one_name_are_refused() {
    let columns = vec![
        (String::from("a"), int_column(0, &[1])),
        (String::from("b"), int_column(4, &[1])),
        (String::from("a"), int_column(8, &[1])),
    ];
    let r = DB721Meta::new(String::from("t"), 1, columns);
    assert_eq!(r.err(), Some(Error::Format(FormatFault::ColumnName)));
}

#[test]
fn columns_that_differ_in_rows_are_refused() {
    let columns =
        vec![(String::from("a"), int_column(0, &[2, 2])), (String::from("b"), int_column(16, &[3]))];
    let r = DB721Meta::new(String::from("t"), 2, columns);
    assert_eq!(r.err(), Some(Error::SchemaInconsistency(SchemaFault::RowCount)));
}

#[test]
fn the_length_field_is_read_from_the_last_four_bytes() {
    assert_eq!(read_meta_size(&[1, 2, 3, 0x10, 0, 0, 0]), Ok(16));
    assert_eq!(read_meta_size(&[0x01, 0x02, 0x00, 0x00]), Ok(0x201));
    assert_eq!(read_meta_size(&[0, 0, 0]), Err(Error::Format(FormatFault::TooShort)));
    assert_eq!(read_meta_size(&[]), Err(Error::Format(FormatFault::TooShort)));
    assert_eq!(read_meta_size(&[0, 0, 0, 0]), Err(Error::Format(FormatFault::MetaSize)));
    assert_eq!(read_meta_size(&[0xFF, 0xFF, 0xFF, 0xFF]), Err(Error::Format(FormatFault::MetaSize)));
    assert_eq!(read_meta_size(&[0, 0, 0, 0x80]), Err(Error::Format(FormatFault::MetaSize)));
}

#[test]
fn the_catalog_lies_right_before_its_length() {
    let json = b"{\"Table\":\"t\"}";
    let file = image(json, json.len() as i32);
    let (start, end) = locate_catalog(&file).unwrap();
    assert_eq!((start, end), (16, 16 + json.len()));
    assert_eq!(&file[start..end], &json[..]);
    assert_eq!(locate_catalog(&file[16..]), Ok((0, json.len())));
}

#[test]
fn a_malformed_end_of_file_is_refused() {
    assert_eq!(locate_catalog(&[1, 0, 0]), Err(Error::Format(FormatFault::TooShort)));
    assert_eq!(locate_catalog(&image(b"{}", 0)), Err(Error::Format(FormatFault::MetaSize)));
    assert_eq!(locate_catalog(&image(b"{}", -2)), Err(Error::Format(FormatFault::MetaSize)));
    assert_eq!(locate_catalog(&image(b"{}", 19)), Err(Error::Format(FormatFault::Truncated)));
    assert_eq!(locate_catalog(&image(b"[1]", 3)), Err(Error::Format(FormatFault::NotAnObject)));
    assert_eq!(locate_catalog(&image(b" {}", 3)), Err(Error::Format(FormatFault::NotAnObject)));
    assert_eq!(locate_catalog(&image(b"{}", 18)), Err(Error::Format(FormatFault::NotAnObject)));
}

#[test]
fn a_table_opens_on_a_framed_and_decoded_catalog() {
    let json = b"{\"Table\":\"t\"}";
    let file = image(json, json.len() as i32);
    let meta = DB721Meta::new(String::from("t"), 2, vec![(String::from("a"), int_column(0, &[4]))])
        .unwrap();
    let table = DB721::open(PathBuf::from("t.db721"), &file, Ok(meta)).unwrap();
    assert_eq!(table.path(), &PathBuf::from("t.db721"));
    assert_eq!(table.meta_size(), json.len() as i32);
    assert_eq!(table.row_count(), 4);
    assert_eq!(table.meta().table_name(), "t");
}

#[test]
fn nothing_opens_on_a_malformed_file() {
    let meta = || {
        Ok(DB721Meta::new(String::from("t"), 2, vec![(String::from("a"), int_column(0, &[4]))])
            .unwrap())
    };
    let why = || Err(String::from("expected value at line 1 column 2"));
    let path = || PathBuf::from("t.db721");
    let fault = |r: Result<DB721, Error>| r.err();
    assert_eq!(
        fault(DB721::open(path(), &[0, 0], meta())),
        Some(Error::Format(FormatFault::TooShort))
    );
    assert_eq!(
        fault(DB721::open(path(), &image(b"{}", 0), meta())),
        Some(Error::Format(FormatFault::MetaSize))
    );
    assert_eq!(
        fault(DB721::open(path(), &image(b"{}", -7), meta())),
        Some(Error::Format(FormatFault::MetaSize))
    );
    assert_eq!(
        fault(DB721::open(path(), &image(b"x}", 2), meta())),
        Some(Error::Format(FormatFault::NotAnObject))
    );
    assert_eq!(
        fault(DB721::open(path(), &image(b"{}", 400), meta())),
        Some(Error::Format(FormatFault::Truncated))
    );
    assert_eq!(
        fault(DB721::open(path(), &image(b"{}", 2), why())),
        Some(Error::Format(FormatFault::Decode(String::from("expected value at line 1 column 2"))))
    );
    assert_eq!(
        fault(DB721::open(path(), &image(b"x}", 2), why())),
        Some(Error::Format(FormatFault::NotAnObject))
    );
}
