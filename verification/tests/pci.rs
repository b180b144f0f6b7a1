use mythril_device::device::{DeviceMap, EmulatedDevice};
use mythril_device::memory::GuestAddressSpaceViewMut;
use mythril_device::pci::{
    PciBdf, PciRootComplex, PCI_CONFIG_ADDRESS, PCI_CONFIG_DATA, PCI_CONFIG_DATA_MAX,
};
use mythril_device::request::{PortReadRequest, PortWriteRequest};

fn define_test_view() -> GuestAddressSpaceViewMut {
    GuestAddressSpaceViewMut::new()
}

fn complex_ready_for_reg_read(reg: u8) -> PciRootComplex {
    let view = define_test_view();
    let mut complex = PciRootComplex::new();
    let addr = ((reg << 2) as u32).to_be_bytes();
    let request = PortWriteRequest::try_from(&addr[..]).unwrap();
    complex
        .on_port_write(PCI_CONFIG_ADDRESS, request, view)
        .unwrap();
    complex
}

#[test]
fn test_full_register_read() {
    let view = define_test_view();
    let mut complex = complex_ready_for_reg_read(0);
    let mut val = PortReadRequest::FourBytes([0u8; 4]);
    complex
        .on_port_read(PCI_CONFIG_DATA, &mut val, view)
        .unwrap();

    let buff: [u8; 4] = val.as_slice().try_into().unwrap();
    assert_eq!(u32::from_be_bytes(buff), 0x29c08086);
}

#[test]
fn test_half_register_read() {
    let view = define_test_view();
    let mut complex = complex_ready_for_reg_read(0);
    let mut val = PortReadRequest::TwoBytes([0u8; 2]);

    complex
        .on_port_read(PCI_CONFIG_DATA, &mut val, view)
        .unwrap();
    let buff: [u8; 2] = val.as_slice().try_into().unwrap();
    assert_eq!(u16::from_be_bytes(buff), 0x8086);

    let view = define_test_view();
    let mut val = PortReadRequest::TwoBytes([0u8; 2]);
    complex
        .on_port_read(PCI_CONFIG_DATA + 2, &mut val, view)
        .unwrap();
    let buff: [u8; 2] = val.as_slice().try_into().unwrap();
    assert_eq!(u16::from_be_bytes(buff), 0x29c0);
}

#[test]
fn test_register_byte_read() {
    let mut complex = complex_ready_for_reg_read(0);

    let expected = [0x86u8, 0x80, 0xc0, 0x29];
    for offset in 0..4u16 {
        let view = define_test_view();
        let mut val = PortReadRequest::OneByte([0u8]);
        complex
            .on_port_read(PCI_CONFIG_DATA + offset, &mut val, view)
            .unwrap();
        assert_eq!(val.as_slice(), &expected[offset as usize..offset as usize + 1]);
    }
}

#[test]
fn test_address_register_readback_asserts_enable_bit() {
    let view = define_test_view();
    let mut complex = complex_ready_for_reg_read(0);
    let mut val = PortReadRequest::FourBytes([0u8; 4]);
    complex
        .on_port_read(PCI_CONFIG_ADDRESS, &mut val, view)
        .unwrap();
    let buff: [u8; 4] = val.as_slice().try_into().unwrap();
    assert_eq!(u32::from_be_bytes(buff), 0x80000000);
}

#[test]
fn test_narrow_address_write_rejected() {
    let view = define_test_view();
    let mut complex = PciRootComplex::new();
    let request = PortWriteRequest::try_from(&[0x00u8, 0x00][..]).unwrap();
    assert!(complex
        .on_port_write(PCI_CONFIG_ADDRESS, request, view)
        .is_err());
}

#[test]
fn test_data_window_write_discarded() {
    let view = define_test_view();
    let mut complex = PciRootComplex::new();
    let request = PortWriteRequest::try_from(&[0xffu8; 4][..]).unwrap();
    assert!(complex.on_port_write(PCI_CONFIG_DATA, request, view).is_ok());
}

#[test]
fn test_unclaimed_port_read_rejected() {
    let view = define_test_view();
    let mut complex = PciRootComplex::new();
    let mut val = PortReadRequest::OneByte([0u8]);
    let err = complex.on_port_read(0xcf9, &mut val, view).unwrap_err();
    assert_eq!(err.message(), "Invalid PCI port read 0xcf9");
}

#[test]
fn test_ich9_register_read() {
    // Select bus 0, device 1, function 0: BDF 0x0008 in the address field.
    let view = define_test_view();
    let mut complex = PciRootComplex::new();
    let request = PortWriteRequest::try_from(&0x00000800u32.to_be_bytes()[..]).unwrap();
    complex
        .on_port_write(PCI_CONFIG_ADDRESS, request, view)
        .unwrap();

    let view = define_test_view();
    let mut val = PortReadRequest::FourBytes([0u8; 4]);
    complex
        .on_port_read(PCI_CONFIG_DATA, &mut val, view)
        .unwrap();
    let buff: [u8; 4] = val.as_slice().try_into().unwrap();
    assert_eq!(u32::from_be_bytes(buff), 0x29188086);
}

#[test]
fn test_absent_bdf_reads_all_ones() {
    // Select bus 0, device 2, function 0: no function answers there.
    let view = define_test_view();
    let mut complex = PciRootComplex::new();
    let request = PortWriteRequest::try_from(&0x00001000u32.to_be_bytes()[..]).unwrap();
    complex
        .on_port_write(PCI_CONFIG_ADDRESS, request, view)
        .unwrap();

    let view = define_test_view();
    let mut val = PortReadRequest::FourBytes([0u8; 4]);
    complex
        .on_port_read(PCI_CONFIG_DATA, &mut val, view)
        .unwrap();
    assert_eq!(val.as_slice(), &[0xff, 0xff, 0xff, 0xff]);

    let view = define_test_view();
    let mut val = PortReadRequest::TwoBytes([0u8; 2]);
    complex
        .on_port_read(PCI_CONFIG_DATA, &mut val, view)
        .unwrap();
    assert_eq!(val.as_slice(), &[0xff, 0xff]);

    // Every byte lane of an absent function reads as all ones.
    for offset in 0..4u16 {
        let view = define_test_view();
        let mut val = PortReadRequest::OneByte([0u8]);
        complex
            .on_port_read(PCI_CONFIG_DATA + offset, &mut val, view)
            .unwrap();
        assert_eq!(val.as_slice(), &[0xff]);
    }
}

#[test]
fn test_root_complex_in_device_map() {
    let mut map = DeviceMap::default();
    map.register_device(PciRootComplex::new()).unwrap();

    assert!(map.device_for(PCI_CONFIG_ADDRESS).is_some());
    assert!(map.device_for(PCI_CONFIG_DATA).is_some());
    assert!(map.device_for(PCI_CONFIG_DATA_MAX).is_some());
    assert!(map.device_for(0xcf9u16).is_none());

    // A dword read of the host bridge through the dispatcher.
    let view = define_test_view();
    let addr = 0u32.to_be_bytes();
    let request = PortWriteRequest::try_from(&addr[..]).unwrap();
    {
        let dev = map.device_for_mut(PCI_CONFIG_ADDRESS).unwrap();
        dev.on_port_write(PCI_CONFIG_ADDRESS, request, view).unwrap();
    }
    let view = define_test_view();
    let mut val = PortReadRequest::FourBytes([0u8; 4]);
    {
        let dev = map.device_for_mut(PCI_CONFIG_DATA).unwrap();
        dev.on_port_read(PCI_CONFIG_DATA, &mut val, view).unwrap();
    }
    let buff: [u8; 4] = val.as_slice().try_into().unwrap();
    assert_eq!(u32::from_be_bytes(buff), 0x29c08086);
}

#[test]
fn test_bdf_packing_round_trip() {
    let bdf = PciBdf::from(0x1234u16);
    assert_eq!(bdf.bus, 0x12);
    assert_eq!(bdf.device, 0x34 >> 3);
    assert_eq!(bdf.function, 0x34 & 0b111);
    assert_eq!(bdf.as_u16(), 0x1234);

    let bdf = PciBdf::from(0b1000u16);
    assert_eq!(bdf.bus, 0);
    assert_eq!(bdf.device, 1);
    assert_eq!(bdf.function, 0);
    assert_eq!(bdf.as_u16(), 8);
}
