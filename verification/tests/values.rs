use shodan_client::{IntoParameterValue, i32_to_decimal, u32_to_decimal};

#[test]
fn unsigned_decimal_renderings_are_exact() {
    assert_eq!(u32_to_decimal(0), "0");
    assert_eq!(u32_to_decimal(7), "7");
    assert_eq!(u32_to_decimal(42), "42");
    assert_eq!(u32_to_decimal(420), "420");
    assert_eq!(u32_to_decimal(1000000), "1000000");
    assert_eq!(u32_to_decimal(u32::MAX), "4294967295");
}

#[test]
fn signed_decimal_renderings_are_exact() {
    assert_eq!(i32_to_decimal(0), "0");
    assert_eq!(i32_to_decimal(17), "17");
    assert_eq!(i32_to_decimal(-1), "-1");
    assert_eq!(i32_to_decimal(-420), "-420");
    assert_eq!(i32_to_decimal(i32::MAX), "2147483647");
    assert_eq!(i32_to_decimal(i32::MIN), "-2147483648");
}

#[test]
fn parameter_values_render_each_kind() {
    assert_eq!(42u32.into_parameter_value().0, "42");
    assert_eq!((-3i32).into_parameter_value().0, "-3");
    assert_eq!(true.into_parameter_value().0, "true");
    assert_eq!(false.into_parameter_value().0, "false");
    assert_eq!("text".into_parameter_value().0, "text");
    assert_eq!(String::from("owned").into_parameter_value().0, "owned");
}
