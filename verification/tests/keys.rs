use db721::key::parse_block_index;
use db721::kind::ValueKind;

#[test]
fn keys_are_the_shortest_decimal_spellings() {
    assert_eq!(parse_block_index("0"), Some(0));
    assert_eq!(parse_block_index("7"), Some(7));
    assert_eq!(parse_block_index("10"), Some(10));
    assert_eq!(parse_block_index("2147483647"), Some(i32::MAX));
}

#[test]
fn every_index_is_found_under_its_own_spelling() {
    for i in [0, 1, 9, 10, 11, 99, 100, 12345, 1 << 20, i32::MAX - 1, i32::MAX] {
        assert_eq!(parse_block_index(&i.to_string()), Some(i));
    }
}

#[test]
fn other_strings_are_no_keys() {
    assert_eq!(parse_block_index(""), None);
    assert_eq!(parse_block_index("00"), None);
    assert_eq!(parse_block_index("01"), None);
    assert_eq!(parse_block_index("+1"), None);
    assert_eq!(parse_block_index("-1"), None);
    assert_eq!(parse_block_index(" 1"), None);
    assert_eq!(parse_block_index("1 "), None);
    assert_eq!(parse_block_index("1a"), None);
    assert_eq!(parse_block_index("a"), None);
    assert_eq!(parse_block_index("1.0"), None);
    assert_eq!(parse_block_index("\u{661}"), None);
    assert_eq!(parse_block_index("2147483648"), None);
    assert_eq!(parse_block_index("99999999999999999999999999"), None);
}

#[test]
fn three_tags_name_a_kind() {
    assert_eq!(ValueKind::parse("int"), Some(ValueKind::Int));
    assert_eq!(ValueKind::parse("float"), Some(ValueKind::Float));
    assert_eq!(ValueKind::parse("str"), Some(ValueKind::Str));
    assert_eq!(ValueKind::parse("Int"), None);
    assert_eq!(ValueKind::parse(""), None);
    assert_eq!(ValueKind::parse("string"), None);
    assert_eq!(ValueKind::parse("in"), None);
}

#[test]
fn a_kind_has_its_tag_and_width() {
    for kind in [ValueKind::Int, ValueKind::Float, ValueKind::Str] {
        assert_eq!(ValueKind::parse(kind.tag()), Some(kind));
    }
    assert_eq!(ValueKind::Int.width(), 4);
    assert_eq!(ValueKind::Float.width(), 4);
    assert_eq!(ValueKind::Str.width(), 32);
}
