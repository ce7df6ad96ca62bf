use rand::Rng;
use rusuper::debugger::utils::{string_to_hex, HexOperators, HexToString, RemoveValueFromVector};

#[test]
fn test_string_to_hex() {
    for _step in 0..100 {
        let value: usize = rand::thread_rng().gen_range(0x000000..0xFFFFFF);
        let val_as_string = format!("{:#08X}", value);
        assert_eq!(value, string_to_hex(&val_as_string).unwrap());
    }
}

#[test]
#[should_panic]
fn test_invalid_string_to_hex() {
    string_to_hex("$invalid").unwrap();
}

#[test]
fn string_to_hex_markers() {
    assert_eq!(string_to_hex("$808000").unwrap(), 0x808000);
    assert_eq!(string_to_hex("0x808000").unwrap(), 0x808000);
    assert_eq!(string_to_hex("ff").unwrap(), 0xFF);
    assert_eq!(string_to_hex("$").unwrap(), 0);
    assert_eq!(string_to_hex("FFFFFFFF").unwrap(), 0xFFFF_FFFF);
    let err = string_to_hex("$invalid").unwrap_err();
    assert_eq!(err.message(), "Value passed was not a valid hexidecimal number invalid");
}

#[test]
fn hex_operators_on_texts() {
    assert!("1aF".is_hex());
    assert!(!"1g".is_hex());
    assert!("0123".is_decimal());
    assert!(!"12a".is_decimal());
    assert!(String::from("").is_hex());
    assert_eq!(String::from("$10").to_hex().unwrap(), 16);
    assert_eq!("0x10".to_hex().unwrap(), 16);
}

#[test]
fn hex_string_digits_read_back() {
    for value in [0usize, 10, 0x808000, 0xFFFFFF, 0x1234567] {
        assert_eq!(string_to_hex(&value.to_hex_string()).unwrap(), value);
    }
    assert_eq!(10usize.to_hex_string(), "00000A");
    assert_eq!(0x808000usize.to_hex_string(), "808000");
}

#[test]
fn hex_to_string_pads_to_six_digits() {
    assert_eq!(0xABusize.to_hex_string(), "0000AB");
    assert_eq!(0x1234567usize.to_hex_string(), "1234567");
}

#[test]
fn remove_value_reports_presence() {
    let mut v: Vec<usize> = vec![1, 2, 3];
    assert_eq!(v.remove_value(2), Some(2));
    assert_eq!(v, vec![1, 3]);
    assert_eq!(v.remove_value(7), None);
    assert_eq!(v, vec![1, 3]);
    let mut w: Vec<usize> = vec![5, 1, 5, 2];
    assert_eq!(w.remove_value(5), Some(5));
    assert_eq!(w, vec![1, 2]);
}
