use db721::value::DB721Type;
use std::cmp::Ordering;

fn float(x: f32) -> DB721Type {
    DB721Type::Float(x.to_bits())
}

fn text(s: &str) -> DB721Type {
    DB721Type::Str(String::from(s))
}

#[test]
fn test_db721type_order_compare() {
    let db721int_big = DB721Type::Integer(100);
    let db721int_small = DB721Type::Integer(99);
    assert!(db721int_big > db721int_small);

    let db721str_big = DB721Type::Str(String::from("2345"));
    let db721str_small = DB721Type::Str(String::from("1234"));
    assert!(db721str_small < db721str_big);
}

#[test]
fn test_str_truncate() {
    let mut strr = String::from("12345");
    strr.truncate(0);
    assert_eq!(strr.len(), 0);
}

#[test]
fn integers_compare_as_numbers() {
    assert_eq!(
        DB721Type::Integer(-5).partial_cmp(&DB721Type::Integer(3)),
        Some(Ordering::Less)
    );
    assert_eq!(
        DB721Type::Integer(i32::MAX).partial_cmp(&DB721Type::Integer(i32::MIN)),
        Some(Ordering::Greater)
    );
    assert_eq!(
        DB721Type::Integer(7).partial_cmp(&DB721Type::Integer(7)),
        Some(Ordering::Equal)
    );
    assert!(DB721Type::Integer(7) == DB721Type::Integer(7));
    assert!(DB721Type::Integer(7) != DB721Type::Integer(8));
}

#[test]
fn strings_compare_byte_by_byte() {
    assert!(text("") < text("a"));
    assert!(text("a") < text("ab"));
    assert!(text("ab") < text("b"));
    assert!(text("Z") < text("a"));
    assert!(text("z") < text("\u{e9}"));
    assert!(text("\u{e9}") < text("\u{4e2d}"));
    assert!(text("same") == text("same"));
    assert_eq!(text("same").partial_cmp(&text("same")), Some(Ordering::Equal));
    assert_eq!(text("b").partial_cmp(&text("ab")), Some(Ordering::Greater));
}

#[test]
fn strings_order_as_std_orders_them() {
    let words = ["", "a", "ab", "b", "FEMALE", "MALE", "\u{e9}t\u{e9}", "zz", "10", "9"];
    for a in words.iter() {
        for b in words.iter() {
            assert_eq!(text(a).partial_cmp(&text(b)), a.partial_cmp(b));
            assert_eq!(text(a) == text(b), a == b);
        }
    }
}

#[test]
fn floats_order_as_ieee_orders_them() {
    let samples = [
        0.0f32,
        -0.0,
        1.0,
        -1.0,
        1.5,
        -1.5,
        f32::MIN_POSITIVE,
        -f32::MIN_POSITIVE,
        1.0e-45,
        f32::MAX,
        f32::MIN,
        f32::INFINITY,
        f32::NEG_INFINITY,
        f32::NAN,
        -f32::NAN,
        3.25,
        1234.5,
    ];
    for a in samples.iter() {
        for b in samples.iter() {
            assert_eq!(float(*a).partial_cmp(&float(*b)), a.partial_cmp(b));
            assert_eq!(float(*a) == float(*b), a == b);
            assert_eq!(float(*a) < float(*b), a < b);
            assert_eq!(float(*a) > float(*b), a > b);
        }
    }
}

#[test]
fn a_nan_equals_nothing_and_zeros_are_equal() {
    assert!(float(f32::NAN) != float(f32::NAN));
    assert_eq!(float(f32::NAN).partial_cmp(&float(1.0)), None);
    assert!(float(0.0) == float(-0.0));
}

#[test]
fn variants_order_by_their_declaration() {
    assert!(float(1.0e30) < DB721Type::Integer(i32::MIN));
    assert!(DB721Type::Integer(i32::MAX) < text(""));
    assert!(text("") > float(f32::NAN));
    assert!(float(1.0) != DB721Type::Integer(1));
}

#[test]
fn a_clone_equals_its_source() {
    let v = text("FEMALE");
    assert!(v.clone() == v);
    let f = float(2.5);
    assert!(f.clone() == f);
}
