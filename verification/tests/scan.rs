use db721::block::{Block, BlockIterator};
use db721::builder::ColumnIteratorBuilder;
use db721::column::ColumnMeta;
use db721::error::{Error, ScanError, SchemaFault};
use db721::scan::{BlockRequest, ColumnIterator, Scan};
use db721::stats::BlockMeta;
use db721::table::{DB721Meta, DB721};
use db721::value::DB721Type;
use std::path::PathBuf;
use std::sync::Arc;

fn num(v: i32) -> DB721Type {
    DB721Type::Integer(v)
}

fn text(s: &str) -> DB721Type {
    DB721Type::Str(String::from(s))
}

fn float(x: f32) -> DB721Type {
    DB721Type::Float(x.to_bits())
}

fn least(values: &[DB721Type]) -> DB721Type {
    let mut m = values[0].clone();
    for v in values {
        if *v < m {
            m = v.clone();
        }
    }
    m
}

fn greatest(values: &[DB721Type]) -> DB721Type {
    let mut m = values[0].clone();
    for v in values {
        if *v > m {
            m = v.clone();
        }
    }
    m
}

fn bytes_of(v: &DB721Type) -> Vec<u8> {
    match v {
        DB721Type::Integer(i) => i.to_le_bytes().to_vec(),
        DB721Type::Float(bits) => bits.to_le_bytes().to_vec(),
        DB721Type::Str(s) => {
            let mut field = s.as_bytes().to_vec();
            field.resize(32, 0);
            field
        }
    }
}

/// Appends a column of the given blocks to the file and returns its entry.
fn write_column(file: &mut Vec<u8>, value_type: &str, blocks: &[Vec<DB721Type>]) -> ColumnMeta {
    let start = file.len() as i32;
    let mut entries = Vec::new();
    for (i, block) in blocks.iter().enumerate() {
        for v in block {
            file.extend_from_slice(&bytes_of(v));
        }
        let (min, max) = if block.is_empty() {
            (blocks[0][0].clone(), blocks[0][0].clone())
        } else {
            (least(block), greatest(block))
        };
        entries.push((i.to_string(), BlockMeta::new(block.len() as i32, min, max, None, None).unwrap()));
    }
    ColumnMeta::new(String::from(value_type), start, blocks.len() as i32, entries).unwrap()
}

fn read_at(file: &[u8], request: BlockRequest) -> Vec<u8> {
    let from = request.offset as usize;
    file[from..from + request.len as usize].to_vec()
}

/// Runs a scan over a file held in memory. Gives the values and the indexes
/// of the blocks that were read.
fn drain(it: &mut ColumnIterator, file: &[u8]) -> (Vec<DB721Type>, Vec<i32>) {
    let mut values = Vec::new();
    let mut read = Vec::new();
    loop {
        match it.next().unwrap() {
            Scan::Value(v) => values.push(v),
            Scan::Fetch(request) => {
                read.push(request.block);
                it.supply(read_at(file, request)).unwrap();
            }
            Scan::End => return (values, read),
        }
    }
}

fn pull(it: &mut ColumnIterator, file: &[u8]) -> Option<DB721Type> {
    loop {
        match it.next().unwrap() {
            Scan::Value(v) => return Some(v),
            Scan::Fetch(request) => it.supply(read_at(file, request)).unwrap(),
            Scan::End => return None,
        }
    }
}

fn scan_of(
    column: &ColumnMeta,
    lower: Option<DB721Type>,
    upper: Option<DB721Type>,
) -> ColumnIterator {
    ColumnIterator::new(
        String::from("c"),
        column.clone(),
        PathBuf::from("t.db721"),
        lower,
        upper,
        None,
        None,
    )
    .unwrap()
}

fn at(block: i32, offset: u64, cause: Error) -> ScanError {
    ScanError { column: String::from("c"), block, offset, cause }
}

fn ints(values: &[i32]) -> Vec<DB721Type> {
    values.iter().map(|v| num(*v)).collect()
}

fn two_blocks() -> (Vec<u8>, ColumnMeta) {
    let mut file = Vec::new();
    let column = write_column(&mut file, "int", &[ints(&[1, 2]), ints(&[5, 6])]);
    (file, column)
}

fn five_blocks() -> (Vec<u8>, ColumnMeta) {
    let mut file = vec![0xEE; 5];
    let column = write_column(
        &mut file,
        "int",
        &[ints(&[1, 2]), ints(&[5, 6, 7]), ints(&[10]), ints(&[20, 21]), ints(&[30, 35])],
    );
    (file, column)
}

/// A table of chickens: an identifier, a sex and a weight for each.
fn chickens() -> (Vec<u8>, DB721) {
    let mut file = Vec::new();
    let ids: Vec<Vec<DB721Type>> =
        (0..4).map(|b| (0..3).map(|i| num(49_996 + b * 3 + i)).collect()).collect();
    let sexes: Vec<Vec<DB721Type>> = (0..4)
        .map(|b| (0..3).map(|i| text(if (b * 3 + i) % 5 == 0 { "FEMALE" } else { "MALE" })).collect())
        .collect();
    let weights: Vec<Vec<DB721Type>> =
        (0..4).map(|b| (0..3).map(|i| float(1.5 + (b * 3 + i) as f32 * 0.25)).collect()).collect();
    let identifier = write_column(&mut file, "int", &ids);
    let sex = write_column(&mut file, "str", &sexes);
    let weight = write_column(&mut file, "float", &weights);
    let json = b"{\"Table\":\"chickens\"}";
    file.extend_from_slice(json);
    file.extend_from_slice(&(json.len() as i32).to_le_bytes());
    let meta = DB721Meta::new(
        String::from("chickens"),
        3,
        vec![
            (String::from("identifier"), identifier),
            (String::from("sex"), sex),
            (String::from("weight"), weight),
        ],
    )
    .unwrap();
    let table = DB721::open(PathBuf::from("data-chickens.db721"), &file, Ok(meta)).unwrap();
    (file, table)
}

fn build(table: &DB721, name: &str) -> ColumnIterator {
    let column = table.meta().column(name).unwrap();
    ColumnIteratorBuilder::new(column.clone(), name.to_string(), table.path().clone())
        .build()
        .unwrap()
}

#[test]
fn test_blk_iterator_no_error() {
    let (file, db721) = chickens();
    for (column_name, kind) in db721.meta().schema() {
        let column_meta = db721.meta().column(&column_name).unwrap();
        let blk_meta = column_meta.block(0).unwrap().clone();
        let from = column_meta.start_offset() as usize;
        let len = column_meta.block_len(0).unwrap() as usize;
        let blk = Block::new(blk_meta.clone(), file[from..from + len].to_vec());
        let mut blk_it = BlockIterator::new(Arc::new(blk), kind.tag().to_string(), blk_meta.clone()).unwrap();
        let mut count = 0;
        while let Some(val) = blk_it.next().unwrap() {
            if let DB721Type::Str(str) = val {
                println!("str = {}", str);
            } else {
                println!("{:?}", val);
            }
            count += 1;
        }
        assert_eq!(count, 3);
    }
}

#[test]
fn test_column_iterator_no_error() {
    let (file, db721) = chickens();
    for (column_name, _) in db721.meta().schema() {
        let mut column_iter = build(&db721, &column_name);
        let mut count = 0;
        while let Some(val) = pull(&mut column_iter, &file) {
            if let DB721Type::Str(str) = val {
                println!("str = {}", str);
            } else {
                println!("{:?}", val);
            }
            count += 1;
        }
        assert_eq!(count, 12);
    }
}

#[test]
fn test_column_iterator_correct_compared_with_csv_iterator() {
    let (file, db721) = chickens();
    let rows: Vec<(i32, &str)> =
        (0..12).map(|i| (49_996 + i, if i % 5 == 0 { "FEMALE" } else { "MALE" })).collect();
    let mut ids = build(&db721, "identifier");
    let mut sexes = build(&db721, "sex");
    for (id, sex) in rows {
        assert_eq!(pull(&mut ids, &file), Some(num(id)));
        assert_eq!(pull(&mut sexes, &file), Some(text(sex)));
    }
    assert_eq!(pull(&mut ids, &file), None);
    assert_eq!(pull(&mut sexes, &file), None);
}

#[test]
fn test_50001_column_name_and_value() {
    let (file, db721) = chickens();
    let column_name_id = "identifier";
    let column_name_sex = "sex";
    let mut c_id_it = build(&db721, column_name_id);
    let mut c_sex_it = build(&db721, column_name_sex);
    let mut seen = false;
    loop {
        let id = pull(&mut c_id_it, &file);
        let sex = pull(&mut c_sex_it, &file);
        if let None = id {
            break;
        }
        if let Some(DB721Type::Integer(50001)) = id {
            assert_eq!(sex, Some(DB721Type::Str(String::from("FEMALE"))));
            seen = true;
        }
    }
    assert!(seen);
}

#[test]
fn two_blocks_are_read_one_after_the_other() {
    let (file, column) = two_blocks();
    let mut it = scan_of(&column, None, None);
    assert!(!it.is_end());
    assert_eq!(it.next(), Ok(Scan::Fetch(BlockRequest { block: 0, offset: 0, len: 8 })));
    it.supply(file[0..8].to_vec()).unwrap();
    assert_eq!(it.next(), Ok(Scan::Value(num(1))));
    assert_eq!(it.next(), Ok(Scan::Value(num(2))));
    assert_eq!(it.next(), Ok(Scan::Fetch(BlockRequest { block: 1, offset: 8, len: 8 })));
    it.supply(file[8..16].to_vec()).unwrap();
    assert_eq!(it.next(), Ok(Scan::Value(num(5))));
    assert_eq!(it.next(), Ok(Scan::Value(num(6))));
    assert!(!it.is_end());
    assert_eq!(it.next(), Ok(Scan::End));
    assert!(it.is_end());
    assert_eq!(it.next(), Ok(Scan::End));
}

#[test]
fn the_first_block_is_read_whatever_the_bounds() {
    let (file, column) = two_blocks();
    let mut it = scan_of(&column, Some(num(4)), None);
    let (values, read) = drain(&mut it, &file);
    assert_eq!(values, ints(&[1, 2, 5, 6]));
    assert_eq!(read, vec![0, 1]);
}

#[test]
fn a_later_block_below_the_lower_bound_is_skipped() {
    let mut file = Vec::new();
    let column = write_column(&mut file, "int", &[ints(&[9]), ints(&[1, 2]), ints(&[5, 6])]);
    let mut it = scan_of(&column, Some(num(4)), None);
    let (values, read) = drain(&mut it, &file);
    assert_eq!(values, ints(&[9, 5, 6]));
    assert_eq!(read, vec![0, 2]);
}

#[test]
fn blocks_outside_the_range_are_never_read() {
    let (file, column) = five_blocks();
    let mut it = scan_of(&column, Some(num(8)), Some(num(20)));
    let (values, read) = drain(&mut it, &file);
    assert_eq!(read, vec![0, 2, 3]);
    assert_eq!(values, ints(&[1, 2, 10, 20, 21]));
    assert!(it.is_end());
}

#[test]
fn a_block_that_overlaps_the_range_comes_whole() {
    let (file, column) = five_blocks();
    let mut it = scan_of(&column, Some(num(6)), Some(num(6)));
    let (values, read) = drain(&mut it, &file);
    assert_eq!(read, vec![0, 1]);
    assert_eq!(values, ints(&[1, 2, 5, 6, 7]));
}

#[test]
fn bounds_count_as_within_the_range() {
    let (file, column) = five_blocks();
    let mut it = scan_of(&column, Some(num(7)), Some(num(30)));
    let (values, read) = drain(&mut it, &file);
    assert_eq!(read, vec![0, 1, 2, 3, 4]);
    assert_eq!(values.len(), 10);
}

#[test]
fn an_upper_bound_alone_cuts_the_end() {
    let (file, column) = five_blocks();
    let mut it = scan_of(&column, None, Some(num(9)));
    let (values, read) = drain(&mut it, &file);
    assert_eq!(read, vec![0, 1]);
    assert_eq!(values, ints(&[1, 2, 5, 6, 7]));
}

#[test]
fn a_scan_ends_when_every_later_block_is_ruled_out() {
    let (file, column) = five_blocks();
    let mut it = scan_of(&column, Some(num(100)), None);
    let (values, read) = drain(&mut it, &file);
    assert_eq!(read, vec![0]);
    assert_eq!(values, ints(&[1, 2]));
    assert!(it.is_end());
}

#[test]
fn a_scan_without_bounds_gives_every_row_in_order() {
    let (file, column) = five_blocks();
    let mut it = scan_of(&column, None, None);
    let (values, read) = drain(&mut it, &file);
    assert_eq!(read, vec![0, 1, 2, 3, 4]);
    assert_eq!(values, ints(&[1, 2, 5, 6, 7, 10, 20, 21, 30, 35]));
    assert_eq!(values.len() as u64, column.total_rows());
}

#[test]
fn every_column_gives_as_many_values_as_the_table_has_rows() {
    let (file, table) = chickens();
    for (name, _) in table.meta().schema() {
        let mut it = build(&table, &name);
        let (values, _) = drain(&mut it, &file);
        assert_eq!(values.len() as u64, table.row_count());
    }
    let mut it = build(&table, "weight");
    let (values, _) = drain(&mut it, &file);
    assert_eq!(values[0], float(1.5));
    assert_eq!(values[11], float(4.25));
}

#[test]
fn requests_follow_the_layout_of_the_file() {
    let (_, column) = five_blocks();
    let mut it = scan_of(&column, None, Some(num(0)));
    assert_eq!(it.awaited(), Some(BlockRequest { block: 0, offset: 5, len: 8 }));
    it.supply(vec![0; 8]).unwrap();
    assert_eq!(it.awaited(), None);
    let (file, column) = five_blocks();
    let mut it = scan_of(&column, Some(num(30)), None);
    assert_eq!(it.next(), Ok(Scan::Fetch(BlockRequest { block: 0, offset: 5, len: 8 })));
    it.supply(read_at(&file, BlockRequest { block: 0, offset: 5, len: 8 })).unwrap();
    assert_eq!(it.next(), Ok(Scan::Value(num(1))));
    assert_eq!(it.next(), Ok(Scan::Value(num(2))));
    assert_eq!(it.next(), Ok(Scan::Fetch(BlockRequest { block: 4, offset: 5 + 32, len: 8 })));
}

#[test]
fn a_request_is_repeated_until_it_is_answered() {
    let (file, column) = two_blocks();
    let mut it = scan_of(&column, None, None);
    let first = it.next();
    assert_eq!(it.next(), first);
    assert_eq!(it.next(), Ok(Scan::Fetch(BlockRequest { block: 0, offset: 0, len: 8 })));
    it.supply(file[0..8].to_vec()).unwrap();
    assert_eq!(it.next(), Ok(Scan::Value(num(1))));
}

#[test]
fn a_short_read_is_refused_and_changes_nothing() {
    let (file, column) = two_blocks();
    let mut it = scan_of(&column, None, None);
    assert_eq!(it.supply(file[0..7].to_vec()), Err(at(0, 0, Error::Io { expected: 8, found: 7 })));
    assert_eq!(it.supply(file[0..9].to_vec()), Err(at(0, 0, Error::Io { expected: 8, found: 9 })));
    assert_eq!(it.next(), Ok(Scan::Fetch(BlockRequest { block: 0, offset: 0, len: 8 })));
    assert_eq!(it.supply(file[0..8].to_vec()), Ok(()));
    assert_eq!(it.next(), Ok(Scan::Value(num(1))));
}

#[test]
fn bytes_that_were_not_asked_for_are_refused() {
    let (file, column) = two_blocks();
    let mut it = scan_of(&column, None, None);
    it.supply(file[0..8].to_vec()).unwrap();
    assert_eq!(
        it.supply(file[8..16].to_vec()),
        Err(at(0, 0, Error::Io { expected: 0, found: 8 }))
    );
    assert_eq!(it.next(), Ok(Scan::Value(num(1))));
    let _ = drain(&mut it, &file);
    assert_eq!(it.supply(Vec::new()), Err(at(2, 0, Error::Io { expected: 0, found: 0 })));
    assert!(it.is_end());
}

#[test]
fn a_scan_cannot_start_without_the_first_block() {
    let stats = BlockMeta::new(1, num(0), num(0), None, None).unwrap();
    let column = ColumnMeta::new(String::from("int"), 0, 2, vec![(String::from("1"), stats)]).unwrap();
    let r = ColumnIterator::new(
        String::from("c"),
        column.clone(),
        PathBuf::from("t"),
        None,
        None,
        None,
        None,
    );
    let missing = || at(0, 0, Error::SchemaInconsistency(SchemaFault::MissingBlock(0)));
    assert_eq!(r.err(), Some(missing()));
    let r = ColumnIteratorBuilder::new(column, String::from("c"), PathBuf::from("t")).build();
    assert_eq!(r.err(), Some(missing()));
}

#[test]
fn a_missing_later_block_fails_the_scan_where_it_is_needed() {
    let stats = |n: i32| BlockMeta::new(n, num(0), num(9), None, None).unwrap();
    let column = ColumnMeta::new(String::from("int"), 0, 3, vec![(String::from("0"), stats(1)), (String::from("2"), stats(1))]).unwrap();
    let mut it = scan_of(&column, None, None);
    it.supply(vec![7, 0, 0, 0]).unwrap();
    assert_eq!(it.next(), Ok(Scan::Value(num(7))));
    let missing = || at(0, 0, Error::SchemaInconsistency(SchemaFault::MissingBlock(1)));
    assert_eq!(it.next(), Err(missing()));
    assert_eq!(it.next(), Err(missing()));
    assert!(!it.is_end());
}

#[test]
fn a_bound_of_another_type_is_refused() {
    let (_, column) = two_blocks();
    let r = ColumnIterator::new(
        String::from("c"),
        column.clone(),
        PathBuf::from("t"),
        Some(text("4")),
        None,
        None,
        None,
    );
    assert_eq!(r.err(), Some(at(0, 0, Error::SchemaInconsistency(SchemaFault::Bound))));
    let r = ColumnIterator::new(
        String::from("c"),
        column,
        PathBuf::from("t"),
        None,
        Some(float(4.0)),
        None,
        None,
    );
    assert_eq!(r.err(), Some(at(0, 0, Error::SchemaInconsistency(SchemaFault::Bound))));
}

#[test]
fn the_builder_hands_its_bounds_to_the_scan() {
    let (file, column) = five_blocks();
    let mut builder = ColumnIteratorBuilder::new(column, String::from("c"), PathBuf::from("t"));
    builder.set_min_value(num(8)).set_max_value(num(20)).set_min_len(1).set_max_len(9);
    let mut it = builder.build().unwrap();
    assert_eq!(it.column_name(), "c");
    assert_eq!(it.file_path(), &PathBuf::from("t"));
    assert_eq!(it.column_meta().num_blocks(), 5);
    let (values, read) = drain(&mut it, &file);
    assert_eq!(read, vec![0, 2, 3]);
    assert_eq!(values, ints(&[1, 2, 10, 20, 21]));
    let mut again = builder.build().unwrap();
    assert_eq!(drain(&mut again, &file).1, vec![0, 2, 3]);
}

#[test]
fn strings_are_pruned_by_their_bytes() {
    let mut file = Vec::new();
    let words = |w: &[&str]| w.iter().map(|s| text(s)).collect::<Vec<_>>();
    let column = write_column(
        &mut file,
        "str",
        &[words(&["ant", "bee"]), words(&["cat", "cow"]), words(&["eel", "emu"]), words(&["fox"])],
    );
    let mut it = scan_of(&column, Some(text("dog")), Some(text("elk")));
    let (values, read) = drain(&mut it, &file);
    assert_eq!(read, vec![0, 2]);
    assert_eq!(values, words(&["ant", "bee", "eel", "emu"]));
}

#[test]
fn floats_are_pruned_as_numbers() {
    let mut file = Vec::new();
    let nums = |w: &[f32]| w.iter().map(|x| float(*x)).collect::<Vec<_>>();
    let column = write_column(
        &mut file,
        "float",
        &[nums(&[0.5]), nums(&[-3.0, -1.0]), nums(&[-0.5, 0.25]), nums(&[2.0, 8.0])],
    );
    let mut it = scan_of(&column, Some(float(-0.75)), Some(float(1.0)));
    let (values, read) = drain(&mut it, &file);
    assert_eq!(read, vec![0, 2]);
    assert_eq!(values, nums(&[0.5, -0.5, 0.25]));
}

#[test]
fn an_empty_block_is_passed_over() {
    let mut file = Vec::new();
    let column = write_column(&mut file, "int", &[ints(&[1]), Vec::new(), ints(&[3])]);
    let mut it = scan_of(&column, None, None);
    let (values, read) = drain(&mut it, &file);
    assert_eq!(values, ints(&[1, 3]));
    assert_eq!(read, vec![0, 1, 2]);
}

#[test]
fn a_bad_string_fails_the_scan_at_its_place() {
    let mut file = Vec::new();
    let column = write_column(&mut file, "str", &[vec![text("ok"), text("bad"), text("z")]]);
    file[32 + 5] = 0xC0;
    let mut it = scan_of(&column, None, None);
    it.supply(file.clone()).unwrap();
    assert_eq!(it.next(), Ok(Scan::Value(text("ok"))));
    assert_eq!(it.next(), Err(at(0, 0, Error::Encoding { value: 1 })));
    assert_eq!(it.next(), Err(at(0, 0, Error::Encoding { value: 1 })));
    assert_eq!(it.current_block(), Some(0));
}

#[test]
fn a_failure_names_the_column_the_block_and_its_offset() {
    let mut file = vec![0u8; 10];
    let column = write_column(&mut file, "str", &[vec![text("a")], vec![text("b"), text("c")]]);
    file[10 + 32 + 32 + 1] = 0xFF;
    let mut it = ColumnIterator::new(
        String::from("sex"),
        column,
        PathBuf::from("t"),
        None,
        None,
        None,
        None,
    )
    .unwrap();
    assert_eq!(pull(&mut it, &file), Some(text("a")));
    assert_eq!(pull(&mut it, &file), Some(text("b")));
    assert_eq!(
        it.next(),
        Err(ScanError {
            column: String::from("sex"),
            block: 1,
            offset: 42,
            cause: Error::Encoding { value: 1 },
        })
    );
    assert_eq!(
        it.supply(vec![0; 3]),
        Err(ScanError {
            column: String::from("sex"),
            block: 1,
            offset: 42,
            cause: Error::Io { expected: 0, found: 3 },
        })
    );
}

#[test]
fn a_scan_knows_the_block_it_is_at() {
    let (file, column) = two_blocks();
    let mut it = scan_of(&column, None, None);
    assert_eq!(it.current_block(), Some(0));
    it.supply(file[0..8].to_vec()).unwrap();
    assert_eq!(it.current_block(), Some(0));
    assert_eq!(pull(&mut it, &file), Some(num(1)));
    assert_eq!(pull(&mut it, &file), Some(num(2)));
    assert_eq!(it.next(), Ok(Scan::Fetch(BlockRequest { block: 1, offset: 8, len: 8 })));
    assert_eq!(it.current_block(), Some(1));
    assert_eq!(it.min_len(), None);
    assert_eq!(it.max_len(), None);
    let _ = drain(&mut it, &file);
    assert_eq!(it.current_block(), None);
}
