//! A PCI host bridge / root complex: the reference device model.
//!
//! The root complex emulates the configuration-space access protocol of the
//! PC platform: a 32-bit address register at port 0xCF8 selects a function
//! and a dword register, and the four-byte data window at 0xCFC exposes the
//! selected register with byte-lane granularity.

use vstd::prelude::*;

use crate::device::{DeviceRegion, EmulatedDevice, Port, PortIoRegion};
use crate::error::Error;
use crate::memory::GuestAddressSpaceViewMut;
use crate::numfmt::{push_hex_u64, spec_hex_digits};
use crate::request::{
    lemma_be_interp_bound, spec_be_interp, spec_be_suffix, PortReadRequest, PortWriteRequest,
};

verus! {

use std::collections::BTreeMap;
use vstd::string::StringExecFns;

broadcast use vstd::std_specs::btree::group_btree_axioms, vstd::laws_cmp::group_laws_cmp;

/// The 32-bit CONFIG_ADDRESS register, accessed as a single dword.
pub const PCI_CONFIG_ADDRESS: Port = 0xcf8;

/// The first byte of the CONFIG_DATA window.
pub const PCI_CONFIG_DATA: Port = 0xcfc;

/// The last byte of the CONFIG_DATA window.
pub const PCI_CONFIG_DATA_MAX: Port = 0xcff;

/// PCI vendor identifier of Intel devices.
pub const INTEL_VENDOR_ID: u16 = 0x8086;

/// Device identifier of the P35 memory controller hub emulated as the host
/// bridge.
pub const P35_MCH_DEVICE_ID: u16 = 0x29c0;

/// Device identifier of the ICH9 south bridge.
pub const ICH9_DEVICE_ID: u16 = 0x2918;

/// A bus / device / function triple naming one PCI function.  `device` has
/// five significant bits and `function` three; the triple is bijective to a
/// 16-bit integer with layout `bus[15:8] | device[7:3] | function[2:0]`.
#[derive(Clone, Copy, PartialEq, Eq, Structural, Debug)]
pub struct PciBdf {
    pub bus: u8,
    pub device: u8,
    pub function: u8,
}

impl PciBdf {
    /// The device number fits in five bits and the function number in three.
    pub open spec fn wf(self) -> bool {
        self.device < 32 && self.function < 8
    }

    /// The packed 16-bit form `bus[15:8] | device[7:3] | function[2:0]`.
    pub open spec fn spec_as_u16(self) -> u16 {
        ((self.bus as u16) << 8) | ((self.device as u16) << 3) | (self.function as u16)
    }

    /// The triple encoded by the packed 16-bit form.
    pub open spec fn spec_from_u16(bytes: u16) -> PciBdf {
        PciBdf {
            bus: (((bytes & 0xff00) as u16) >> 8) as u8,
            device: (((bytes & 0b11111000) as u16) >> 3) as u8,
            function: ((bytes & 0b111) as u16) as u8,
        }
    }

    /// Packs the triple into its 16-bit form.
    pub fn as_u16(&self) -> (r: u16)
        ensures
            r == self.spec_as_u16(),
    {
        ((self.bus as u16) << 8) | ((self.device as u16) << 3) | (self.function as u16)
    }
}

impl From<u16> for PciBdf {
    /// Unpacks a 16-bit value into the triple it encodes.
    fn from(bytes: u16) -> (r: Self) {
        PciBdf {
            bus: ((bytes & 0xff00) >> 8) as u8,
            device: ((bytes & 0b11111000) >> 3) as u8,
            function: (bytes & 0b111) as u8,
        }
    }
}

impl vstd::std_specs::convert::FromSpecImpl<u16> for PciBdf {
    open spec fn obeys_from_spec() -> bool {
        true
    }

    open spec fn from_spec(bytes: u16) -> PciBdf {
        PciBdf::spec_from_u16(bytes)
    }
}

/// The bijection law of the packed form: every 16-bit value decodes to a
/// well-formed triple that packs back to the same value.
pub proof fn lemma_bdf_of_u16_roundtrip(bytes: u16)
    ensures
        PciBdf::spec_from_u16(bytes).wf(),
        PciBdf::spec_from_u16(bytes).spec_as_u16() == bytes,
{
    let b = PciBdf::spec_from_u16(bytes);
    assert(((((bytes & 0b11111000) as u16) >> 3) as u8) < 32) by (bit_vector);
    assert((((bytes & 0b111) as u16) as u8) < 8) by (bit_vector);
    assert(((((((bytes & 0xff00) as u16) >> 8) as u8) as u16) << 8) | ((((((bytes & 0b11111000)
        as u16) >> 3) as u8) as u16) << 3) | ((((bytes & 0b111) as u16) as u8) as u16) == bytes)
        by (bit_vector);
}

/// The bijection law of the packed form, the other way: a well-formed
/// triple survives packing and unpacking.
pub proof fn lemma_u16_of_bdf_roundtrip(b: PciBdf)
    requires
        b.wf(),
    ensures
        PciBdf::spec_from_u16(b.spec_as_u16()) == b,
{
    let bus = b.bus;
    let device = b.device;
    let function = b.function;
    let packed = b.spec_as_u16();
    assert(device < 32 && function < 8 ==> {
        let p = ((bus as u16) << 8) | ((device as u16) << 3) | (function as u16);
        &&& ((((p & 0xff00) as u16) >> 8) as u8) == bus
        &&& ((((p & 0b11111000) as u16) >> 3) as u8) == device
        &&& (((p & 0b111) as u16) as u8) == function
    }) by (bit_vector);
}

/// The 16 dword registers of the standard PCI type-0 (non-bridge) header,
/// kept as named fields and projected to a little-endian register file.
#[derive(Clone, Copy, PartialEq, Eq, Structural, Debug)]
pub struct PciNonBridgeHeader {
    pub vendor_id: u16,
    pub device_id: u16,
    pub command: u16,
    pub status: u16,
    pub revision_id: u8,
    pub prog_if: u8,
    pub subclass: u8,
    pub class: u8,
    pub cache_line_size: u8,
    pub latency_timer: u8,
    pub header_type: u8,
    pub bist: u8,
    pub bar_0: u32,
    pub bar_1: u32,
    pub bar_2: u32,
    pub bar_3: u32,
    pub bar_4: u32,
    pub bar_5: u32,
    pub cardbus_cis: u32,
    pub subsystem_vendor_id: u16,
    pub subsystem_id: u16,
    pub expansion_rom_addr: u32,
    pub capabilities: u8,
    pub interrupt_line: u8,
    pub interrupt_pin: u8,
    pub min_grant: u8,
    pub max_latency: u8,
}

impl PciNonBridgeHeader {
    /// The header with every field zero.
    pub open spec fn spec_zeroed() -> PciNonBridgeHeader {
        PciNonBridgeHeader {
            vendor_id: 0,
            device_id: 0,
            command: 0,
            status: 0,
            revision_id: 0,
            prog_if: 0,
            subclass: 0,
            class: 0,
            cache_line_size: 0,
            latency_timer: 0,
            header_type: 0,
            bist: 0,
            bar_0: 0,
            bar_1: 0,
            bar_2: 0,
            bar_3: 0,
            bar_4: 0,
            bar_5: 0,
            cardbus_cis: 0,
            subsystem_vendor_id: 0,
            subsystem_id: 0,
            expansion_rom_addr: 0,
            capabilities: 0,
            interrupt_line: 0,
            interrupt_pin: 0,
            min_grant: 0,
            max_latency: 0,
        }
    }

    /// The little-endian projection of the header as 16 dword registers:
    /// the field at byte offset `4 * register + k` occupies bits
    /// `8k + 7 .. 8k` of register `register`.
    pub open spec fn spec_register(self, register: int) -> u32 {
        if register == 0 {
            (self.vendor_id as u32) | ((self.device_id as u32) << 16)
        } else if register == 1 {
            (self.command as u32) | ((self.status as u32) << 16)
        } else if register == 2 {
            (self.revision_id as u32) | ((self.prog_if as u32) << 8) | ((self.subclass as u32)
                << 16) | ((self.class as u32) << 24)
        } else if register == 3 {
            (self.cache_line_size as u32) | ((self.latency_timer as u32) << 8) | ((
            self.header_type as u32) << 16) | ((self.bist as u32) << 24)
        } else if register == 4 {
            self.bar_0
        } else if register == 5 {
            self.bar_1
        } else if register == 6 {
            self.bar_2
        } else if register == 7 {
            self.bar_3
        } else if register == 8 {
            self.bar_4
        } else if register == 9 {
            self.bar_5
        } else if register == 10 {
            self.cardbus_cis
        } else if register == 11 {
            (self.subsystem_vendor_id as u32) | ((self.subsystem_id as u32) << 16)
        } else if register == 12 {
            self.expansion_rom_addr
        } else if register == 13 {
            self.capabilities as u32
        } else if register == 15 {
            (self.interrupt_line as u32) | ((self.interrupt_pin as u32) << 8) | ((
            self.min_grant as u32) << 16) | ((self.max_latency as u32) << 24)
        } else {
            0
        }
    }

    /// Reads one dword register of the header.
    pub fn read_register(&self, register: u8) -> (r: u32)
        requires
            register < 16,
        ensures
            r == self.spec_register(register as int),
    {
        if register == 0 {
            (self.vendor_id as u32) | ((self.device_id as u32) << 16)
        } else if register == 1 {
            (self.command as u32) | ((self.status as u32) << 16)
        } else if register == 2 {
            (self.revision_id as u32) | ((self.prog_if as u32) << 8) | ((self.subclass as u32)
                << 16) | ((self.class as u32) << 24)
        } else if register == 3 {
            (self.cache_line_size as u32) | ((self.latency_timer as u32) << 8) | ((
            self.header_type as u32) << 16) | ((self.bist as u32) << 24)
        } else if register == 4 {
            self.bar_0
        } else if register == 5 {
            self.bar_1
        } else if register == 6 {
            self.bar_2
        } else if register == 7 {
            self.bar_3
        } else if register == 8 {
            self.bar_4
        } else if register == 9 {
            self.bar_5
        } else if register == 10 {
            self.cardbus_cis
        } else if register == 11 {
            (self.subsystem_vendor_id as u32) | ((self.subsystem_id as u32) << 16)
        } else if register == 12 {
            self.expansion_rom_addr
        } else if register == 13 {
            self.capabilities as u32
        } else if register == 15 {
            (self.interrupt_line as u32) | ((self.interrupt_pin as u32) << 8) | ((
            self.min_grant as u32) << 16) | ((self.max_latency as u32) << 24)
        } else {
            0
        }
    }
}

impl Default for PciNonBridgeHeader {
    fn default() -> (r: Self)
        ensures
            r == PciNonBridgeHeader::spec_zeroed(),
    {
        PciNonBridgeHeader {
            vendor_id: 0,
            device_id: 0,
            command: 0,
            status: 0,
            revision_id: 0,
            prog_if: 0,
            subclass: 0,
            class: 0,
            cache_line_size: 0,
            latency_timer: 0,
            header_type: 0,
            bist: 0,
            bar_0: 0,
            bar_1: 0,
            bar_2: 0,
            bar_3: 0,
            bar_4: 0,
            bar_5: 0,
            cardbus_cis: 0,
            subsystem_vendor_id: 0,
            subsystem_id: 0,
            expansion_rom_addr: 0,
            capabilities: 0,
            interrupt_line: 0,
            interrupt_pin: 0,
            min_grant: 0,
            max_latency: 0,
        }
    }
}

/// A type-0 configuration space: the standard header followed by 48 dwords
/// of zero-initialized storage.
pub struct PciNonBridgeSpace {
    pub header: PciNonBridgeHeader,
    pub data: [u32; 48],
}

impl PciNonBridgeSpace {
    pub fn new(header: PciNonBridgeHeader) -> (r: Self)
        ensures
            r.header == header,
            forall|i: int| 0 <= i < 48 ==> r.data@[i] == 0,
    {
        PciNonBridgeSpace { header, data: [0u32; 48] }
    }

    /// The register file of the space: the header projection for the first
    /// 16 registers, the opaque storage afterwards.
    pub open spec fn spec_register(self, register: int) -> u32 {
        if register < 16 {
            self.header.spec_register(register)
        } else {
            self.data@[register - 16]
        }
    }
}

/// A type-1 (PCI-to-PCI bridge) configuration space, kept as opaque storage.
pub struct PciToPciBridgeSpace {
    pub data: [u32; 64],
}

/// A type-2 (PCI-to-CardBus bridge) configuration space, kept as opaque
/// storage.
pub struct PciToCardbusBridgeSpace {
    pub data: [u32; 64],
}

/// A configuration space, tagged by PCI header type.  Only type 0 is
/// emulated.
pub enum PciConfigSpace {
    Type0(PciNonBridgeSpace),
    Type1(PciToPciBridgeSpace),
    Type2(PciToCardbusBridgeSpace),
}

impl PciConfigSpace {
    /// The 64-dword register file of the space.
    pub open spec fn spec_register(self, register: int) -> u32 {
        match self {
            PciConfigSpace::Type0(space) => space.spec_register(register),
            PciConfigSpace::Type1(space) => space.data@[register],
            PciConfigSpace::Type2(space) => space.data@[register],
        }
    }

    /// Reads one dword register of the space.
    pub fn read_register(&self, register: u8) -> (r: u32)
        requires
            register < 64,
        ensures
            r == self.spec_register(register as int),
    {
        match self {
            PciConfigSpace::Type0(space) => {
                if register < 16 {
                    space.header.read_register(register)
                } else {
                    space.data[(register - 16) as usize]
                }
            },
            PciConfigSpace::Type1(space) => space.data[register as usize],
            PciConfigSpace::Type2(space) => space.data[register as usize],
        }
    }
}

/// One emulated PCI function: its identity and its configuration space.
pub struct PciDevice {
    pub config_space: PciConfigSpace,
    pub bdf: PciBdf,
}

/// The root complex: the CONFIG_ADDRESS register and the table of emulated
/// functions, keyed by packed BDF.
pub struct PciRootComplex {
    current_address: u32,
    devices: BTreeMap<u16, PciDevice>,
}

impl PciRootComplex {
    /// The stored CONFIG_ADDRESS value; bit 31 is never stored.
    pub closed spec fn spec_current_address(self) -> u32 {
        self.current_address
    }

    /// The table of emulated functions.
    pub closed spec fn spec_devices(self) -> Map<u16, PciDevice> {
        self.devices@
    }

    /// The stored address keeps only bits 30:0.
    pub open spec fn wf(self) -> bool {
        self.spec_current_address() < 0x80000000
    }

    /// The packed BDF selected by the current address: bits 23:8.
    pub open spec fn spec_selected_bdf(self) -> u16 {
        ((self.spec_current_address() & 0xffff00) >> 8) as u16
    }

    /// The dword register index selected by the current address: bits 7:2.
    pub open spec fn spec_selected_register(self) -> u8 {
        (((self.spec_current_address() & 0xff) >> 2) & 0x3f) as u8
    }

    /// The 32-bit value presented at one byte of the CONFIG_DATA window:
    /// the selected register of the selected function, shifted right so the
    /// byte lane selected by the port offset lands in the low bits — or all
    /// ones, the architectural "no device" reply, if no function answers to
    /// the selected BDF.
    pub open spec fn spec_config_read_value(self, port: u16) -> u32
        recommends
            PCI_CONFIG_DATA <= port <= PCI_CONFIG_DATA_MAX,
    {
        if self.spec_devices().contains_key(self.spec_selected_bdf()) {
            self.spec_devices()[self.spec_selected_bdf()].config_space.spec_register(
                self.spec_selected_register() as int,
            ) >> (((port - PCI_CONFIG_DATA) as u32) * 8)
        } else {
            0xffffffffu32
        }
    }

    /// Builds the root complex with its two fixed functions: the host
    /// bridge at BDF 0 and the ICH9 south bridge at BDF 8.
    pub fn new() -> (r: Self)
        ensures
            r.wf(),
            r.spec_current_address() == 0,
            r.spec_devices().dom() == set![0u16, 8u16],
            r.spec_devices()[0u16].bdf == PciBdf::spec_from_u16(0),
            r.spec_devices()[8u16].bdf == PciBdf::spec_from_u16(8),
            forall|k: int|
                0 <= k < 64 ==> r.spec_devices()[0u16].config_space.spec_register(k) == (if k == 0 {
                    0x29c08086u32
                } else {
                    0u32
                }),
            forall|k: int|
                0 <= k < 64 ==> r.spec_devices()[8u16].config_space.spec_register(k) == (if k == 0 {
                    0x29188086u32
                } else {
                    0u32
                }),
    {
        let mut devices: BTreeMap<u16, PciDevice> = BTreeMap::new();

        let mut header = PciNonBridgeHeader::default();
        header.vendor_id = INTEL_VENDOR_ID;
        header.device_id = P35_MCH_DEVICE_ID;
        let host_bridge = PciDevice {
            bdf: PciBdf::from(0x0000u16),
            config_space: PciConfigSpace::Type0(PciNonBridgeSpace::new(header)),
        };
        let key = host_bridge.bdf.as_u16();
        proof {
            lemma_bdf_of_u16_roundtrip(0);
        }
        devices.insert(key, host_bridge);

        let mut header = PciNonBridgeHeader::default();
        header.vendor_id = INTEL_VENDOR_ID;
        header.device_id = ICH9_DEVICE_ID;
        let ich9 = PciDevice {
            bdf: PciBdf::from(0b1000u16),
            config_space: PciConfigSpace::Type0(PciNonBridgeSpace::new(header)),
        };
        let key = ich9.bdf.as_u16();
        proof {
            lemma_bdf_of_u16_roundtrip(0b1000);
        }
        devices.insert(key, ich9);

        let r = PciRootComplex { current_address: 0, devices };
        proof {
            assert(r.spec_devices().dom() =~= set![0u16, 8u16]);
            assert(((0x8086u16 as u32) | ((0x29c0u16 as u32) << 16)) == 0x29c08086u32)
                by (bit_vector);
            assert(((0x8086u16 as u32) | ((0x2918u16 as u32) << 16)) == 0x29188086u32)
                by (bit_vector);
            assert(((0u16 as u32) | ((0u16 as u32) << 16)) == 0u32) by (bit_vector);
            assert(((0u8 as u32) | ((0u8 as u32) << 8) | ((0u8 as u32) << 16) | ((0u8 as u32)
                << 24)) == 0u32) by (bit_vector);
            assert forall|k: int| 0 <= k < 64 implies r.spec_devices()[0u16].config_space
                .spec_register(k) == (if k == 0 { 0x29c08086u32 } else { 0u32 }) by {}
            assert forall|k: int| 0 <= k < 64 implies r.spec_devices()[8u16].config_space
                .spec_register(k) == (if k == 0 { 0x29188086u32 } else { 0u32 }) by {}
        }
        r
    }
}

/// Message for a read from a port inside the claimed set that the decoder
/// does not recognize.
pub open spec fn spec_invalid_pci_port_message(port: u16) -> Seq<char> {
    "Invalid PCI port read 0x"@ + spec_hex_digits(port as nat)
}

fn invalid_pci_port_message(port: u16) -> (r: String)
    ensures
        r@ == spec_invalid_pci_port_message(port),
{
    let mut s = String::from_str("Invalid PCI port read 0x");
    push_hex_u64(&mut s, port as u64);
    s
}

impl EmulatedDevice for PciRootComplex {
    /// The root complex claims the CONFIG_ADDRESS register and the four
    /// bytes of the CONFIG_DATA window.
    open spec fn services_spec(&self) -> Seq<DeviceRegion> {
        seq![
            DeviceRegion::PortIo(PortIoRegion { start: PCI_CONFIG_ADDRESS, end: PCI_CONFIG_ADDRESS }),
            DeviceRegion::PortIo(PortIoRegion { start: PCI_CONFIG_DATA, end: PCI_CONFIG_DATA_MAX }),
        ]
    }

    fn services(&self) -> (r: Vec<DeviceRegion>) {
        let mut v: Vec<DeviceRegion> = Vec::new();
        v.push(DeviceRegion::PortIo(PortIoRegion::new(PCI_CONFIG_ADDRESS, PCI_CONFIG_ADDRESS)));
        v.push(DeviceRegion::PortIo(PortIoRegion::new(PCI_CONFIG_DATA, PCI_CONFIG_DATA_MAX)));
        proof {
            assert(v@ =~= self.services_spec());
        }
        v
    }

    /// A read of CONFIG_ADDRESS returns the stored address with the enable
    /// bit asserted; a read of the CONFIG_DATA window returns the selected
    /// byte lanes of the selected register, width-sliced big-endian; any
    /// other port is rejected.
    fn on_port_read(
        &mut self,
        port: Port,
        val: &mut PortReadRequest,
        _space: GuestAddressSpaceViewMut,
    ) -> (r: Result<(), Error>)
        ensures
            *final(self) == *old(self),
            port == PCI_CONFIG_ADDRESS ==> r is Ok && final(val)@ == spec_be_suffix(
                0x80000000u32 | old(self).spec_current_address(),
                old(val)@.len(),
            ),
            PCI_CONFIG_DATA <= port <= PCI_CONFIG_DATA_MAX ==> r is Ok && final(val)@
                == spec_be_suffix(old(self).spec_config_read_value(port), old(val)@.len()),
            !(port == PCI_CONFIG_ADDRESS || (PCI_CONFIG_DATA <= port <= PCI_CONFIG_DATA_MAX))
                ==> r is Err && r->Err_0 is InvalidValue && *final(val) == *old(val)
                && r->Err_0->InvalidValue_0@ == spec_invalid_pci_port_message(port),
    {
        if port == PCI_CONFIG_ADDRESS {
            let addr = 0x80000000u32 | self.current_address;
            val.copy_from_u32(addr);
            Ok(())
        } else if PCI_CONFIG_DATA <= port && port <= PCI_CONFIG_DATA_MAX {
            let bdf = ((self.current_address & 0xffff00) >> 8) as u16;
            let register = (((self.current_address & 0xff) >> 2) & 0x3f) as u8;
            let offset = (port - PCI_CONFIG_DATA) as u32;
            proof {
                let ca = self.current_address;
                assert((((ca & 0xff) >> 2) & 0x3f) < 64) by (bit_vector);
            }
            match self.devices.get(&bdf) {
                Some(device) => {
                    let res = device.config_space.read_register(register) >> (offset * 8);
                    val.copy_from_u32(res);
                },
                None => {
                    let res = 0xffffffffu32;
                    val.copy_from_u32(res);
                },
            }
            Ok(())
        } else {
            Err(Error::InvalidValue(invalid_pci_port_message(port)))
        }
    }

    /// A full-width write to CONFIG_ADDRESS stores the value with the
    /// enable bit masked off; a narrower write there is rejected; writes to
    /// any other claimed port are discarded.
    fn on_port_write(
        &mut self,
        port: Port,
        val: PortWriteRequest,
        _space: GuestAddressSpaceViewMut,
    ) -> (r: Result<(), Error>)
        ensures
            final(self).spec_devices() == old(self).spec_devices(),
            port == PCI_CONFIG_ADDRESS && val is FourBytes ==> r is Ok
                && final(self).spec_current_address() == ((spec_be_interp(val@) as u32)
                & 0x7fffffff),
            port == PCI_CONFIG_ADDRESS && !(val is FourBytes) ==> r is Err
                && r->Err_0 is InvalidValue && *final(self) == *old(self),
            port != PCI_CONFIG_ADDRESS ==> r is Ok && *final(self) == *old(self),
            old(self).wf() ==> final(self).wf(),
    {
        if port == PCI_CONFIG_ADDRESS {
            match val.try_into_u32() {
                Ok(addr) => {
                    self.current_address = addr & 0x7fffffff;
                    proof {
                        lemma_be_interp_bound(val@);
                        let a = addr;
                        assert((a & 0x7fffffff) < 0x80000000u32) by (bit_vector);
                    }
                    Ok(())
                },
                Err(e) => Err(e),
            }
        } else {
            Ok(())
        }
    }
}

} // verus!
