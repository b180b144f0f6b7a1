use mythril_device::numfmt::{push_dec_u64, push_hex_u64};

#[test]
fn test_hex_rendering() {
    let mut s = String::new();
    push_hex_u64(&mut s, 0xcf8);
    assert_eq!(s, "cf8");

    let mut s = String::from("0x");
    push_hex_u64(&mut s, 0xdeadbeef);
    assert_eq!(s, "0xdeadbeef");

    let mut s = String::new();
    push_hex_u64(&mut s, 0);
    assert_eq!(s, "0");
}

#[test]
fn test_dec_rendering() {
    let mut s = String::new();
    push_dec_u64(&mut s, 1234567890);
    assert_eq!(s, "1234567890");

    let mut s = String::new();
    push_dec_u64(&mut s, 0);
    assert_eq!(s, "0");
}
