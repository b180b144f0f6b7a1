use mythril_device::request::{MemReadRequest, MemWriteRequest, PortReadRequest, PortWriteRequest};

#[test]
fn test_write_request_try_from() {
    let val = PortWriteRequest::try_from(&[0x12, 0x34, 0x56, 0x78][..]);
    assert_eq!(val.is_ok(), true);

    let val = PortWriteRequest::try_from(&[0x12, 0x34, 0x56][..]);
    assert_eq!(val.is_err(), true);

    let val = PortWriteRequest::try_from(&[0x12, 0x34, 0x56, 0x78][..]).unwrap();
    assert_eq!(val.as_u32(), 0x12345678);

    let val = PortWriteRequest::try_from(&[0x12, 0x34][..]).unwrap();
    assert_eq!(val.as_u32(), 0x1234);
}

#[test]
fn test_portio_value_read() {
    let mut val = PortReadRequest::TwoBytes([0x00, 0x00]);
    val.copy_from_u32(0x1234u32);
    assert_eq!([0x12, 0x34], val.as_slice());
    let arr: [u8; 2] = val.as_slice().try_into().unwrap();
    assert_eq!(0x1234, u16::from_be_bytes(arr));
}

#[test]
fn test_read_request_try_from_widths() {
    assert!(PortReadRequest::try_from(&[0u8; 1][..]).is_ok());
    assert!(PortReadRequest::try_from(&[0u8; 2][..]).is_ok());
    assert!(PortReadRequest::try_from(&[0u8; 3][..]).is_err());
    assert!(PortReadRequest::try_from(&[0u8; 4][..]).is_ok());
    assert!(PortReadRequest::try_from(&[0u8; 0][..]).is_err());
    assert!(PortReadRequest::try_from(&[0u8; 5][..]).is_err());
}

#[test]
fn test_try_from_error_message_names_length() {
    let err = PortWriteRequest::try_from(&[0x12, 0x34, 0x56][..]).unwrap_err();
    assert_eq!(err.message(), "Invalid slice length: 3");
}

#[test]
fn test_copy_from_u32_all_widths() {
    let mut val = PortReadRequest::OneByte([0]);
    val.copy_from_u32(0x12345678);
    assert_eq!(val.as_slice(), &[0x78]);

    let mut val = PortReadRequest::TwoBytes([0, 0]);
    val.copy_from_u32(0x12345678);
    assert_eq!(val.as_slice(), &[0x56, 0x78]);

    let mut val = PortReadRequest::FourBytes([0, 0, 0, 0]);
    val.copy_from_u32(0x12345678);
    assert_eq!(val.as_slice(), &[0x12, 0x34, 0x56, 0x78]);
}

#[test]
fn test_write_request_as_u32_zero_extends() {
    let val = PortWriteRequest::try_from(&[0xab][..]).unwrap();
    assert_eq!(val.as_u32(), 0xab);

    let val = PortWriteRequest::try_from(&[0xde, 0xad, 0xbe, 0xef][..]).unwrap();
    assert_eq!(val.as_u32(), 0xdeadbeef);
}

#[test]
fn test_width_mismatched_narrowing_fails() {
    let val = PortWriteRequest::try_from(&[0x12, 0x34][..]).unwrap();
    assert!(val.try_into_u8().is_err());
    assert_eq!(val.try_into_u16().unwrap(), 0x1234);
    assert!(val.try_into_u32().is_err());

    let val = PortWriteRequest::try_from(&[0x12][..]).unwrap();
    assert_eq!(val.try_into_u8().unwrap(), 0x12);
    assert!(val.try_into_u16().is_err());
    assert!(val.try_into_u32().is_err());

    let val = PortWriteRequest::try_from(&[0x12, 0x34, 0x56, 0x78][..]).unwrap();
    assert!(val.try_into_u8().is_err());
    assert!(val.try_into_u16().is_err());
    assert_eq!(val.try_into_u32().unwrap(), 0x12345678);
}

#[test]
fn test_round_trip_write_then_read() {
    let mut val = PortReadRequest::FourBytes([0; 4]);
    val.copy_from_u32(0xcafebabe);
    let back = PortWriteRequest::try_from(val.as_slice()).unwrap();
    assert_eq!(back.as_u32(), 0xcafebabe);
}

#[test]
fn test_as_mut_slice_writes_are_visible() {
    let mut val = PortReadRequest::TwoBytes([0, 0]);
    {
        let s = val.as_mut_slice();
        s[0] = 0xaa;
        s[1] = 0x55;
    }
    assert_eq!(val.as_slice(), &[0xaa, 0x55]);
    assert_eq!(val.len(), 2);
}

#[test]
fn test_mem_write_request() {
    let data = [1u8, 2, 3];
    let req = MemWriteRequest::new(&data);
    assert_eq!(req.as_slice(), &[1, 2, 3]);
    assert!(req.try_into_u8().is_err());

    let one = [9u8];
    let req = MemWriteRequest::new(&one);
    assert_eq!(req.try_into_u8().unwrap(), 9);
}

#[test]
fn test_mem_read_request() {
    let data = [7u8, 8];
    let req = MemReadRequest::new(&data);
    assert_eq!(req.as_slice(), &[7, 8]);
}
