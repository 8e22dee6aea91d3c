use bindgen::text::{decimal_string, prefixed};

#[test]
fn decimal_of_small_and_large_numbers() {
    assert_eq!(decimal_string(0), "0");
    assert_eq!(decimal_string(7), "7");
    assert_eq!(decimal_string(10), "10");
    assert_eq!(decimal_string(1234567890), "1234567890");
    assert_eq!(decimal_string(usize::MAX), usize::MAX.to_string());
}

#[test]
fn prefixed_joins_in_order() {
    assert_eq!(prefixed("Struct_", "Point"), "Struct_Point");
    assert_eq!(prefixed("", ""), "");
}
