use mythril_device::device::{
    DeviceMap, DeviceRegion, EmulatedDevice, MemIoRegion, Port, PortIoRegion,
};
use mythril_device::memory::{GuestAddressSpaceViewMut, GuestPhysAddr};
use mythril_device::request::MemWriteRequest;

// A dummy device so the tests can claim arbitrary regions.
struct DummyDevice {
    port_services: Vec<(Port, Port)>,
    mem_services: Vec<(u64, u64)>,
    hits: u32,
}

impl DummyDevice {
    fn new(port_services: Vec<(Port, Port)>) -> Self {
        Self { port_services, mem_services: Vec::new(), hits: 0 }
    }

    fn new_mem(mem_services: Vec<(u64, u64)>) -> Self {
        Self { port_services: Vec::new(), mem_services, hits: 0 }
    }
}

impl EmulatedDevice for DummyDevice {
    fn services(&self) -> Vec<DeviceRegion> {
        let mut v: Vec<DeviceRegion> = self
            .port_services
            .iter()
            .map(|&(s, e)| DeviceRegion::PortIo(PortIoRegion::new(s, e)))
            .collect();
        v.extend(self.mem_services.iter().map(|&(s, e)| {
            DeviceRegion::MemIo(MemIoRegion::new(GuestPhysAddr::new(s), GuestPhysAddr::new(e)))
        }));
        v
    }
}

fn define_test_view() -> GuestAddressSpaceViewMut {
    GuestAddressSpaceViewMut::new()
}

#[test]
fn test_memmap_write_to_portio_fails() {
    let view = define_test_view();
    let mut com = DummyDevice::new(vec![(0, 0)]);
    let addr = GuestPhysAddr::new(0);
    let data = [0u8; 4];
    let req = MemWriteRequest::new(&data);
    assert_eq!(com.on_mem_write(addr, req, view).is_err(), true);
}

#[test]
fn test_device_map() {
    let mut map = DeviceMap::default();
    let com = DummyDevice::new(vec![(0, 0)]);
    map.register_device(com).unwrap();
    let _dev = map.device_for(0u16).unwrap();

    assert_eq!(map.device_for(10u16).is_none(), true);
}

#[test]
fn test_conflicting_portio_device() {
    let mut map = DeviceMap::default();
    let com = DummyDevice::new(vec![(0, 0)]);
    map.register_device(com).unwrap();
    let com = DummyDevice::new(vec![(0, 0)]);

    assert!(map.register_device(com).is_err());
}

#[test]
fn test_fully_overlapping_portio_device() {
    // region 2 fully inside region 1
    let services = vec![(0, 10), (2, 8)];
    let dummy = DummyDevice::new(services);
    let mut map = DeviceMap::default();

    assert!(map.register_device(dummy).is_err());
}

#[test]
fn test_fully_encompassing_portio_device() {
    // region 1 fully inside region 2
    let services = vec![(2, 8), (0, 10)];
    let dummy = DummyDevice::new(services);
    let mut map = DeviceMap::default();

    assert!(map.register_device(dummy).is_err());
}

#[test]
fn test_partially_overlapping_tail_portio_device() {
    // region 1 and region 2 partially overlap at the tail of region 1 and
    // the start of region 2
    let services = vec![(0, 4), (3, 8)];
    let dummy = DummyDevice::new(services);
    let mut map = DeviceMap::default();

    assert!(map.register_device(dummy).is_err());
}

#[test]
fn test_partially_overlapping_head_portio_device() {
    // region 1 and region 2 partially overlap at the start of region 1 and
    // the tail of region 2
    let services = vec![(3, 8), (0, 4)];
    let dummy = DummyDevice::new(services);
    let mut map = DeviceMap::default();

    assert!(map.register_device(dummy).is_err());
}

#[test]
fn test_non_overlapping_portio_device() {
    // region 1 and region 2 don't overlap
    let services = vec![(0, 3), (4, 8)];
    let dummy = DummyDevice::new(services);
    let mut map = DeviceMap::default();

    assert!(map.register_device(dummy).is_ok());
}

#[test]
fn test_conflict_error_message_names_ranges() {
    let mut map = DeviceMap::default();
    map.register_device(DummyDevice::new(vec![(0xcf8, 0xcfb)])).unwrap();
    let err = map.register_device(DummyDevice::new(vec![(0xcfa, 0xcff)])).unwrap_err();
    assert_eq!(
        err.message(),
        "I/O Port already registered: 0xcfa-0xcff conflicts with existing map of 0xcf8-0xcfb"
    );
}

#[test]
fn test_mem_region_conflict_and_lookup() {
    let mut map = DeviceMap::default();
    map.register_device(DummyDevice::new_mem(vec![(0x1000, 0x1fff)])).unwrap();

    assert!(map.device_for(GuestPhysAddr::new(0x1000)).is_some());
    assert!(map.device_for(GuestPhysAddr::new(0x1fff)).is_some());
    assert!(map.device_for(GuestPhysAddr::new(0x2000)).is_none());

    let err = map
        .register_device(DummyDevice::new_mem(vec![(0x1800, 0x27ff)]))
        .unwrap_err();
    assert_eq!(
        err.message(),
        "Memory region already registered: 0x1800-0x27ff conflicts with existing map of 0x1000-0x1fff"
    );

    assert!(map.register_device(DummyDevice::new_mem(vec![(0x2000, 0x2fff)])).is_ok());
}

#[test]
fn test_adjacent_regions_are_distinct_keys() {
    let mut map = DeviceMap::default();
    map.register_device(DummyDevice::new(vec![(0, 3)])).unwrap();
    map.register_device(DummyDevice::new(vec![(4, 8)])).unwrap();

    assert!(map.device_for(3u16).is_some());
    assert!(map.device_for(4u16).is_some());
    assert!(map.device_for(9u16).is_none());
}

#[test]
fn test_device_for_mut_reaches_the_same_device() {
    let mut map = DeviceMap::default();
    map.register_device(DummyDevice::new(vec![(0x60, 0x64)])).unwrap();

    {
        let dev = map.device_for_mut(0x60u16).unwrap();
        dev.hits += 1;
    }
    {
        let dev = map.device_for_mut(0x64u16).unwrap();
        dev.hits += 1;
    }
    assert!(map.device_for_mut(0x65u16).is_none());
    assert_eq!(map.device_for(0x62u16).unwrap().hits, 2);
}

#[test]
fn test_default_handlers_not_implemented() {
    let mut dev = DummyDevice::new(vec![(0, 0)]);
    let data = [0u8; 1];
    let err = dev
        .on_mem_write(GuestPhysAddr::new(0), MemWriteRequest::new(&data), define_test_view())
        .unwrap_err();
    assert_eq!(err.message(), "MemoryMapped device does not support writing");
}
