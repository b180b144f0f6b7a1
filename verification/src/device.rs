//! The range-keyed dispatcher that routes guest I/O to emulated devices.
//!
//! Devices claim inclusive ranges of the port and guest-physical address
//! spaces.  The dispatcher keeps one registry per space and maintains the
//! invariant that no two registered ranges overlap, so every access is owned
//! by at most one device.

use vstd::prelude::*;

use crate::error::Error;
use crate::memory::{GuestAddressSpaceViewMut, GuestPhysAddr};
use crate::numfmt::{push_hex_u64, spec_hex_digits};
use crate::request::{MemReadRequest, MemWriteRequest, PortReadRequest, PortWriteRequest};

verus! {

use core::cmp::Ordering;
use vstd::string::StringExecFns;

/// A legacy x86 I/O port number.
pub type Port = u16;

/// An inclusive range of I/O ports claimed by a device.
#[derive(Clone, Copy, PartialEq, Eq, Structural, Debug)]
pub struct PortIoRegion {
    pub start: Port,
    pub end: Port,
}

/// An inclusive range of guest-physical addresses claimed by a device.
#[derive(Clone, Copy, PartialEq, Eq, Structural, Debug)]
pub struct MemIoRegion {
    pub start: GuestPhysAddr,
    pub end: GuestPhysAddr,
}

impl PortIoRegion {
    /// A range is well-formed when it is non-empty.
    pub open spec fn wf(self) -> bool {
        self.start <= self.end
    }

    /// Whether the port lies inside the range.
    pub open spec fn spec_contains(self, p: Port) -> bool {
        self.start <= p && p <= self.end
    }

    /// Whether two inclusive ranges share at least one port.
    pub open spec fn spec_overlaps(self, other: Self) -> bool {
        self.start <= other.end && other.start <= self.end
    }

    pub fn new(start: Port, end: Port) -> (r: Self)
        ensures
            r.start == start,
            r.end == end,
    {
        PortIoRegion { start, end }
    }

    /// The overlap-coalescing comparison: two ranges are `Equal` exactly when
    /// they overlap, so a registry of unique keys rejects an insertion
    /// exactly when the offered range conflicts with a stored one.
    pub fn cmp(&self, other: &Self) -> (r: Ordering)
        ensures
            r == Ordering::Less <==> self.end < other.start,
            r == Ordering::Greater <==> (!(self.end < other.start) && other.end < self.start),
            r == Ordering::Equal <==> self.spec_overlaps(*other),
    {
        if self.end < other.start {
            Ordering::Less
        } else if other.end < self.start {
            Ordering::Greater
        } else {
            Ordering::Equal
        }
    }
}

impl MemIoRegion {
    /// A range is well-formed when it is non-empty.
    pub open spec fn wf(self) -> bool {
        self.start.0 <= self.end.0
    }

    /// Whether the address lies inside the range.
    pub open spec fn spec_contains(self, a: GuestPhysAddr) -> bool {
        self.start.0 <= a.0 && a.0 <= self.end.0
    }

    /// Whether two inclusive ranges share at least one address.
    pub open spec fn spec_overlaps(self, other: Self) -> bool {
        self.start.0 <= other.end.0 && other.start.0 <= self.end.0
    }

    pub fn new(start: GuestPhysAddr, end: GuestPhysAddr) -> (r: Self)
        ensures
            r.start == start,
            r.end == end,
    {
        MemIoRegion { start, end }
    }

    /// The overlap-coalescing comparison over the address space.
    pub fn cmp(&self, other: &Self) -> (r: Ordering)
        ensures
            r == Ordering::Less <==> self.end.0 < other.start.0,
            r == Ordering::Greater <==> (!(self.end.0 < other.start.0) && other.end.0
                < self.start.0),
            r == Ordering::Equal <==> self.spec_overlaps(*other),
    {
        if self.end.0 < other.start.0 {
            Ordering::Less
        } else if other.end.0 < self.start.0 {
            Ordering::Greater
        } else {
            Ordering::Equal
        }
    }
}

/// A contiguous region in one of the two I/O spaces, produced by a device to
/// declare what it claims.
#[derive(Clone, Copy, PartialEq, Eq, Structural, Debug)]
pub enum DeviceRegion {
    PortIo(PortIoRegion),
    MemIo(MemIoRegion),
}

impl DeviceRegion {
    pub open spec fn wf(self) -> bool {
        match self {
            DeviceRegion::PortIo(r) => r.wf(),
            DeviceRegion::MemIo(r) => r.wf(),
        }
    }
}

/// What a single I/O transaction addresses: a port or a guest-physical
/// address.
#[derive(Clone, Copy, PartialEq, Eq, Structural, Debug)]
pub enum IoLocation {
    PortAddress(Port),
    MemAddress(GuestPhysAddr),
}

/// Values that can select a device in a [`DeviceMap`]: port numbers and
/// guest-physical addresses.
pub trait DeviceInteraction: Sized {
    /// The location this value addresses.
    spec fn location_spec(self) -> IoLocation;

    /// Returns the location this value addresses.
    fn location(self) -> (r: IoLocation)
        ensures
            r == self.location_spec(),
    ;
}

impl DeviceInteraction for u16 {
    open spec fn location_spec(self) -> IoLocation {
        IoLocation::PortAddress(self)
    }

    fn location(self) -> (r: IoLocation) {
        IoLocation::PortAddress(self)
    }
}

impl DeviceInteraction for GuestPhysAddr {
    open spec fn location_spec(self) -> IoLocation {
        IoLocation::MemAddress(self)
    }

    fn location(self) -> (r: IoLocation) {
        IoLocation::MemAddress(self)
    }
}

/// The capability set a device model implements: a declaration of the
/// regions it claims, and four fallible handlers, each defaulting to a
/// `NotImplemented` failure.
pub trait EmulatedDevice: Sized {
    /// The regions this device claims; a stable set.  A verified device
    /// model overrides this to state its claims; the default — no claims —
    /// lets device models outside the proofs implement only `services`.
    open spec fn services_spec(&self) -> Seq<DeviceRegion> {
        Seq::empty()
    }

    /// Declares the regions the device claims.
    fn services(&self) -> (r: Vec<DeviceRegion>)
        ensures
            r@ == self.services_spec(),
    ;

    fn on_mem_read(
        &mut self,
        _addr: GuestPhysAddr,
        _data: MemReadRequest<'_>,
        _space: GuestAddressSpaceViewMut,
    ) -> (r: Result<(), Error>)
        default_ensures
            *final(self) == *old(self),
            r is Err && r->Err_0 is NotImplemented,
    {
        Err(Error::NotImplemented(String::from_str("MemoryMapped device does not support reading")))
    }

    fn on_mem_write(
        &mut self,
        _addr: GuestPhysAddr,
        _data: MemWriteRequest<'_>,
        _space: GuestAddressSpaceViewMut,
    ) -> (r: Result<(), Error>)
        default_ensures
            *final(self) == *old(self),
            r is Err && r->Err_0 is NotImplemented,
    {
        Err(Error::NotImplemented(String::from_str("MemoryMapped device does not support writing")))
    }

    fn on_port_read(
        &mut self,
        _port: Port,
        _val: &mut PortReadRequest,
        _space: GuestAddressSpaceViewMut,
    ) -> (r: Result<(), Error>)
        default_ensures
            *final(self) == *old(self),
            *final(_val) == *old(_val),
            r is Err && r->Err_0 is NotImplemented,
    {
        Err(Error::NotImplemented(String::from_str("PortIo device does not support reading")))
    }

    fn on_port_write(
        &mut self,
        _port: Port,
        _val: PortWriteRequest,
        _space: GuestAddressSpaceViewMut,
    ) -> (r: Result<(), Error>)
        default_ensures
            *final(self) == *old(self),
            r is Err && r->Err_0 is NotImplemented,
    {
        Err(Error::NotImplemented(String::from_str("PortIo device does not support writing")))
    }
}

/// A registry for looking up emulated devices by port or guest-physical
/// address.
///
/// Devices live in an arena; each registered region keys the index of its
/// owning device, so a device claiming regions in both spaces is reachable
/// from both registries without shared ownership.
pub struct DeviceMap<D> {
    devices: Vec<D>,
    portio_map: Vec<(PortIoRegion, usize)>,
    memio_map: Vec<(MemIoRegion, usize)>,
}

impl<D> DeviceMap<D> {
    /// The registered devices, in registration order.
    pub closed spec fn spec_devices(self) -> Seq<D> {
        self.devices@
    }

    /// The port-space registry: each claimed range with its owner's index.
    pub closed spec fn spec_portio(self) -> Seq<(PortIoRegion, usize)> {
        self.portio_map@
    }

    /// The memory-space registry: each claimed range with its owner's index.
    pub closed spec fn spec_memio(self) -> Seq<(MemIoRegion, usize)> {
        self.memio_map@
    }

    /// The port ranges stored, in insertion order.
    pub open spec fn spec_port_keys(self) -> Seq<PortIoRegion> {
        self.spec_portio().map_values(|e: (PortIoRegion, usize)| e.0)
    }

    /// The memory ranges stored, in insertion order.
    pub open spec fn spec_mem_keys(self) -> Seq<MemIoRegion> {
        self.spec_memio().map_values(|e: (MemIoRegion, usize)| e.0)
    }

    /// The first declared region of `regions` that would collide if the
    /// regions were inserted into this map in order, if any.
    pub open spec fn spec_first_conflict(self, regions: Seq<DeviceRegion>) -> Option<int> {
        first_conflict_from(self.spec_port_keys(), self.spec_mem_keys(), regions, 0)
    }

    /// The uniqueness law of point lookup: under the no-overlap invariant,
    /// at most one stored port range matches a given port (a singleton probe
    /// compares `Equal` to a stored key exactly when the key contains the
    /// port), so the device owning an access is unambiguous.
    pub proof fn lemma_at_most_one_port_match(self, p: Port)
        requires
            self.wf(),
        ensures
            forall|i: int, j: int|
                0 <= i < self.spec_portio().len() && 0 <= j < self.spec_portio().len() && (
                #[trigger] self.spec_portio()[i]).0.spec_contains(p) && (
                #[trigger] self.spec_portio()[j]).0.spec_contains(p) ==> i == j,
    {
    }

    /// The uniqueness law of point lookup in the memory space.
    pub proof fn lemma_at_most_one_mem_match(self, a: GuestPhysAddr)
        requires
            self.wf(),
        ensures
            forall|i: int, j: int|
                0 <= i < self.spec_memio().len() && 0 <= j < self.spec_memio().len() && (
                #[trigger] self.spec_memio()[i]).0.spec_contains(a) && (
                #[trigger] self.spec_memio()[j]).0.spec_contains(a) ==> i == j,
    {
    }

    /// The invariant of the dispatcher: all stored ranges are well-formed,
    /// no two ranges of the same space overlap, and every range keys a live
    /// device.
    pub open spec fn wf(self) -> bool {
        &&& forall|i: int|
            0 <= i < self.spec_portio().len() ==> (#[trigger] self.spec_portio()[i]).0.wf() && (
            self.spec_portio()[i].1 as int) < self.spec_devices().len()
        &&& forall|i: int, j: int|
            0 <= i < self.spec_portio().len() && 0 <= j < self.spec_portio().len() && i != j
                ==> !(#[trigger] self.spec_portio()[i]).0.spec_overlaps(
                (#[trigger] self.spec_portio()[j]).0)
        &&& forall|i: int|
            0 <= i < self.spec_memio().len() ==> (#[trigger] self.spec_memio()[i]).0.wf() && (
            self.spec_memio()[i].1 as int) < self.spec_devices().len()
        &&& forall|i: int, j: int|
            0 <= i < self.spec_memio().len() && 0 <= j < self.spec_memio().len() && i != j ==> !(
            #[trigger] self.spec_memio()[i]).0.spec_overlaps((#[trigger] self.spec_memio()[j]).0)
    }
}

/// A stored range matches a lookup probe `[p, p]` under the
/// overlap-coalescing order exactly when it contains `p`.
pub proof fn lemma_singleton_port_probe(k: PortIoRegion, p: Port)
    ensures
        k.spec_overlaps(PortIoRegion { start: p, end: p }) <==> k.spec_contains(p),
{
}

/// A stored range matches a lookup probe `[a, a]` under the
/// overlap-coalescing order exactly when it contains `a`.
pub proof fn lemma_singleton_mem_probe(k: MemIoRegion, a: GuestPhysAddr)
    ensures
        k.spec_overlaps(MemIoRegion { start: a, end: a }) <==> k.spec_contains(a),
{
}

/// The port ranges among the first `n` declared regions, in order.
pub open spec fn port_regions_upto(regions: Seq<DeviceRegion>, n: int) -> Seq<PortIoRegion>
    decreases n,
{
    if n <= 0 {
        Seq::empty()
    } else {
        match regions[n - 1] {
            DeviceRegion::PortIo(r) => port_regions_upto(regions, n - 1).push(r),
            DeviceRegion::MemIo(_) => port_regions_upto(regions, n - 1),
        }
    }
}

/// The memory ranges among the first `n` declared regions, in order.
pub open spec fn mem_regions_upto(regions: Seq<DeviceRegion>, n: int) -> Seq<MemIoRegion>
    decreases n,
{
    if n <= 0 {
        Seq::empty()
    } else {
        match regions[n - 1] {
            DeviceRegion::PortIo(_) => mem_regions_upto(regions, n - 1),
            DeviceRegion::MemIo(r) => mem_regions_upto(regions, n - 1).push(r),
        }
    }
}

/// The registry entries produced by the first `n` declared regions of the
/// device stored at `idx`.
pub open spec fn port_entries_upto(regions: Seq<DeviceRegion>, n: int, idx: usize) -> Seq<
    (PortIoRegion, usize),
> {
    port_regions_upto(regions, n).map_values(|r: PortIoRegion| (r, idx))
}

/// The registry entries produced by the first `n` declared regions of the
/// device stored at `idx`.
pub open spec fn mem_entries_upto(regions: Seq<DeviceRegion>, n: int, idx: usize) -> Seq<
    (MemIoRegion, usize),
> {
    mem_regions_upto(regions, n).map_values(|r: MemIoRegion| (r, idx))
}

/// Whether some stored port range overlaps the offered one.
pub open spec fn has_port_overlap(keys: Seq<PortIoRegion>, r: PortIoRegion) -> bool {
    exists|i: int| 0 <= i < keys.len() && (#[trigger] keys[i]).spec_overlaps(r)
}

/// Whether some stored memory range overlaps the offered one.
pub open spec fn has_mem_overlap(keys: Seq<MemIoRegion>, r: MemIoRegion) -> bool {
    exists|i: int| 0 <= i < keys.len() && (#[trigger] keys[i]).spec_overlaps(r)
}

/// Whether the `i`-th declared region collides, given the port and memory
/// ranges stored before registration began and the regions already inserted
/// by the same registration.
pub open spec fn reg_conflict_at(
    pk: Seq<PortIoRegion>,
    mk: Seq<MemIoRegion>,
    regions: Seq<DeviceRegion>,
    i: int,
) -> bool {
    match regions[i] {
        DeviceRegion::PortIo(r) => has_port_overlap(pk + port_regions_upto(regions, i), r),
        DeviceRegion::MemIo(r) => has_mem_overlap(mk + mem_regions_upto(regions, i), r),
    }
}

/// The first index at or after `i` whose declared region collides, if any.
pub open spec fn first_conflict_from(
    pk: Seq<PortIoRegion>,
    mk: Seq<MemIoRegion>,
    regions: Seq<DeviceRegion>,
    i: int,
) -> Option<int>
    decreases regions.len() - i,
{
    if i >= regions.len() {
        None
    } else if reg_conflict_at(pk, mk, regions, i) {
        Some(i)
    } else {
        first_conflict_from(pk, mk, regions, i + 1)
    }
}

proof fn lemma_first_conflict_some(
    pk: Seq<PortIoRegion>,
    mk: Seq<MemIoRegion>,
    regions: Seq<DeviceRegion>,
    s: int,
    i: int,
)
    requires
        0 <= s <= i < regions.len(),
        reg_conflict_at(pk, mk, regions, i),
        forall|j: int| s <= j < i ==> !reg_conflict_at(pk, mk, regions, j),
    ensures
        first_conflict_from(pk, mk, regions, s) == Some(i),
    decreases i - s,
{
    if s < i {
        lemma_first_conflict_some(pk, mk, regions, s + 1, i);
    }
}

proof fn lemma_first_conflict_none(
    pk: Seq<PortIoRegion>,
    mk: Seq<MemIoRegion>,
    regions: Seq<DeviceRegion>,
    s: int,
)
    requires
        0 <= s,
        forall|j: int| s <= j < regions.len() ==> !reg_conflict_at(pk, mk, regions, j),
    ensures
        first_conflict_from(pk, mk, regions, s) is None,
    decreases regions.len() - s,
{
    if s < regions.len() {
        lemma_first_conflict_none(pk, mk, regions, s + 1);
    }
}

/// Whether two declared regions are free of conflict: regions of different
/// spaces never conflict, regions of one space conflict when they overlap.
pub open spec fn regions_disjoint(a: DeviceRegion, b: DeviceRegion) -> bool {
    match (a, b) {
        (DeviceRegion::PortIo(x), DeviceRegion::PortIo(y)) => !x.spec_overlaps(y),
        (DeviceRegion::MemIo(x), DeviceRegion::MemIo(y)) => !x.spec_overlaps(y),
        _ => true,
    }
}

/// Whether no two declared regions of the same space overlap.
pub open spec fn regions_pairwise_disjoint(regions: Seq<DeviceRegion>) -> bool {
    forall|i: int, j: int|
        0 <= i < j < regions.len() ==> regions_disjoint(
            #[trigger] regions[i],
            #[trigger] regions[j],
        )
}

proof fn lemma_port_upto_membership(regions: Seq<DeviceRegion>, n: int)
    requires
        0 <= n <= regions.len(),
    ensures
        forall|t: int|
            0 <= t < port_regions_upto(regions, n).len() ==> exists|j: int|
                0 <= j < n && regions[j] == DeviceRegion::PortIo(
                    #[trigger] port_regions_upto(regions, n)[t],
                ),
        forall|j: int|
            0 <= j < n && (#[trigger] regions[j]) is PortIo ==> exists|t: int|
                0 <= t < port_regions_upto(regions, n).len() && port_regions_upto(regions, n)[t]
                    == regions[j]->PortIo_0,
    decreases n,
{
    if n > 0 {
        lemma_port_upto_membership(regions, n - 1);
        let prev = port_regions_upto(regions, n - 1);
        let cur = port_regions_upto(regions, n);
        match regions[n - 1] {
            DeviceRegion::PortIo(r) => {
                assert(cur == prev.push(r));
                assert(forall|t: int| 0 <= t < prev.len() ==> cur[t] == prev[t]);
                assert(cur[cur.len() - 1] == r);
            },
            DeviceRegion::MemIo(_) => {
                assert(cur == prev);
            },
        }
    }
}

proof fn lemma_mem_upto_membership(regions: Seq<DeviceRegion>, n: int)
    requires
        0 <= n <= regions.len(),
    ensures
        forall|t: int|
            0 <= t < mem_regions_upto(regions, n).len() ==> exists|j: int|
                0 <= j < n && regions[j] == DeviceRegion::MemIo(
                    #[trigger] mem_regions_upto(regions, n)[t],
                ),
        forall|j: int|
            0 <= j < n && (#[trigger] regions[j]) is MemIo ==> exists|t: int|
                0 <= t < mem_regions_upto(regions, n).len() && mem_regions_upto(regions, n)[t]
                    == regions[j]->MemIo_0,
    decreases n,
{
    if n > 0 {
        lemma_mem_upto_membership(regions, n - 1);
        let prev = mem_regions_upto(regions, n - 1);
        let cur = mem_regions_upto(regions, n);
        match regions[n - 1] {
            DeviceRegion::MemIo(r) => {
                assert(cur == prev.push(r));
                assert(forall|t: int| 0 <= t < prev.len() ==> cur[t] == prev[t]);
                assert(cur[cur.len() - 1] == r);
            },
            DeviceRegion::PortIo(_) => {
                assert(cur == prev);
            },
        }
    }
}

proof fn lemma_fc_none_implies_no_conflict(
    pk: Seq<PortIoRegion>,
    mk: Seq<MemIoRegion>,
    regions: Seq<DeviceRegion>,
    s: int,
)
    requires
        0 <= s,
        first_conflict_from(pk, mk, regions, s) is None,
    ensures
        forall|j: int| s <= j < regions.len() ==> !reg_conflict_at(pk, mk, regions, j),
    decreases regions.len() - s,
{
    if s < regions.len() {
        lemma_fc_none_implies_no_conflict(pk, mk, regions, s + 1);
    }
}

/// The law behind conflict detection on a fresh dispatcher: registering a
/// region list into an empty map runs into a conflict exactly when two of
/// the declared regions of the same space overlap.  Together with
/// `register_device`'s contract this says that, for a device registered into
/// an empty `DeviceMap`, `register_device` returns `Ok` if and only if its
/// declared regions are pairwise disjoint.
pub proof fn lemma_empty_register_iff_disjoint(regions: Seq<DeviceRegion>)
    ensures
        first_conflict_from(Seq::empty(), Seq::empty(), regions, 0) is None
            <==> regions_pairwise_disjoint(regions),
{
    let pk = Seq::<PortIoRegion>::empty();
    let mk = Seq::<MemIoRegion>::empty();
    if regions_pairwise_disjoint(regions) {
        assert forall|i: int| 0 <= i < regions.len() implies !reg_conflict_at(
            pk,
            mk,
            regions,
            i,
        ) by {
            lemma_port_upto_membership(regions, i);
            lemma_mem_upto_membership(regions, i);
            match regions[i] {
                DeviceRegion::PortIo(r) => {
                    let keys = pk + port_regions_upto(regions, i);
                    assert(keys =~= port_regions_upto(regions, i));
                    if reg_conflict_at(pk, mk, regions, i) {
                        let t = choose|t: int|
                            0 <= t < keys.len() && (#[trigger] keys[t]).spec_overlaps(r);
                        let j = choose|j: int|
                            0 <= j < i && regions[j] == DeviceRegion::PortIo(
                                #[trigger] port_regions_upto(regions, i)[t],
                            );
                        assert(regions_disjoint(regions[j], regions[i]));
                    }
                },
                DeviceRegion::MemIo(r) => {
                    let keys = mk + mem_regions_upto(regions, i);
                    assert(keys =~= mem_regions_upto(regions, i));
                    if reg_conflict_at(pk, mk, regions, i) {
                        let t = choose|t: int|
                            0 <= t < keys.len() && (#[trigger] keys[t]).spec_overlaps(r);
                        let j = choose|j: int|
                            0 <= j < i && regions[j] == DeviceRegion::MemIo(
                                #[trigger] mem_regions_upto(regions, i)[t],
                            );
                        assert(regions_disjoint(regions[j], regions[i]));
                    }
                },
            }
        }
        lemma_first_conflict_none(pk, mk, regions, 0);
    }
    if first_conflict_from(pk, mk, regions, 0) is None {
        lemma_fc_none_implies_no_conflict(pk, mk, regions, 0);
        assert forall|i: int, j: int| 0 <= i < j < regions.len() implies regions_disjoint(
            #[trigger] regions[i],
            #[trigger] regions[j],
        ) by {
            lemma_port_upto_membership(regions, j);
            lemma_mem_upto_membership(regions, j);
            assert(!reg_conflict_at(pk, mk, regions, j));
            match (regions[i], regions[j]) {
                (DeviceRegion::PortIo(a), DeviceRegion::PortIo(b)) => {
                    if a.spec_overlaps(b) {
                        let t = choose|t: int|
                            0 <= t < port_regions_upto(regions, j).len() && port_regions_upto(
                                regions,
                                j,
                            )[t] == regions[i]->PortIo_0;
                        let keys = pk + port_regions_upto(regions, j);
                        assert(keys =~= port_regions_upto(regions, j));
                        assert(keys[t].spec_overlaps(b));
                        assert(has_port_overlap(keys, b));
                    }
                },
                (DeviceRegion::MemIo(a), DeviceRegion::MemIo(b)) => {
                    if a.spec_overlaps(b) {
                        let t = choose|t: int|
                            0 <= t < mem_regions_upto(regions, j).len() && mem_regions_upto(
                                regions,
                                j,
                            )[t] == regions[i]->MemIo_0;
                        let keys = mk + mem_regions_upto(regions, j);
                        assert(keys =~= mem_regions_upto(regions, j));
                        assert(keys[t].spec_overlaps(b));
                        assert(has_mem_overlap(keys, b));
                    }
                },
                _ => {},
            }
        }
    }
}

impl<D> DeviceMap<D> {
    /// The registration law on a fresh dispatcher: `register_device` on an
    /// empty map finds no conflict — and so, by its contract, returns `Ok` —
    /// exactly when no two of the device's declared regions of the same
    /// space overlap.
    pub proof fn lemma_register_into_empty_iff_disjoint(self, regions: Seq<DeviceRegion>)
        requires
            self.spec_portio().len() == 0,
            self.spec_memio().len() == 0,
        ensures
            self.spec_first_conflict(regions) is None <==> regions_pairwise_disjoint(regions),
    {
        assert(self.spec_port_keys() =~= Seq::<PortIoRegion>::empty());
        assert(self.spec_mem_keys() =~= Seq::<MemIoRegion>::empty());
        lemma_empty_register_iff_disjoint(regions);
    }
}

/// Message for a port-space registration conflict, naming both ranges in
/// hexadecimal.
pub open spec fn spec_port_conflict_message(new: PortIoRegion, existing: PortIoRegion) -> Seq<
    char,
> {
    "I/O Port already registered: 0x"@ + spec_hex_digits(new.start as nat) + "-0x"@
        + spec_hex_digits(new.end as nat) + " conflicts with existing map of 0x"@
        + spec_hex_digits(existing.start as nat) + "-0x"@ + spec_hex_digits(existing.end as nat)
}

/// Message for a memory-space registration conflict, naming both ranges in
/// hexadecimal.
pub open spec fn spec_mem_conflict_message(new: MemIoRegion, existing: MemIoRegion) -> Seq<char> {
    "Memory region already registered: 0x"@ + spec_hex_digits(new.start.0 as nat) + "-0x"@
        + spec_hex_digits(new.end.0 as nat) + " conflicts with existing map of 0x"@
        + spec_hex_digits(existing.start.0 as nat) + "-0x"@ + spec_hex_digits(
        existing.end.0 as nat)
}

fn port_conflict_message(new: PortIoRegion, existing: PortIoRegion) -> (r: String)
    ensures
        r@ == spec_port_conflict_message(new, existing),
{
    let mut s = String::from_str("I/O Port already registered: 0x");
    push_hex_u64(&mut s, new.start as u64);
    s.append("-0x");
    push_hex_u64(&mut s, new.end as u64);
    s.append(" conflicts with existing map of 0x");
    push_hex_u64(&mut s, existing.start as u64);
    s.append("-0x");
    push_hex_u64(&mut s, existing.end as u64);
    proof {
        assert(s@ =~= spec_port_conflict_message(new, existing));
    }
    s
}

fn mem_conflict_message(new: MemIoRegion, existing: MemIoRegion) -> (r: String)
    ensures
        r@ == spec_mem_conflict_message(new, existing),
{
    let mut s = String::from_str("Memory region already registered: 0x");
    push_hex_u64(&mut s, new.start.0);
    s.append("-0x");
    push_hex_u64(&mut s, new.end.0);
    s.append(" conflicts with existing map of 0x");
    push_hex_u64(&mut s, existing.start.0);
    s.append("-0x");
    push_hex_u64(&mut s, existing.end.0);
    proof {
        assert(s@ =~= spec_mem_conflict_message(new, existing));
    }
    s
}

/// Scans a registry for an entry whose range overlaps `r`.
fn find_port_conflict(entries: &Vec<(PortIoRegion, usize)>, r: PortIoRegion) -> (res: Option<
    usize,
>)
    ensures
        match res {
            Some(j) => (j as int) < entries@.len() && entries@[j as int].0.spec_overlaps(r),
            None => forall|k: int|
                0 <= k < entries@.len() ==> !(#[trigger] entries@[k]).0.spec_overlaps(r),
        },
{
    let mut i: usize = 0;
    while i < entries.len()
        invariant
            i <= entries@.len(),
            forall|k: int| 0 <= k < i ==> !(#[trigger] entries@[k]).0.spec_overlaps(r),
        decreases entries@.len() - i,
    {
        let key = entries[i].0;
        match key.cmp(&r) {
            Ordering::Equal => {
                return Some(i);
            },
            _ => {},
        }
        i += 1;
    }
    None
}

/// Scans a registry for an entry whose range overlaps `r`.
fn find_mem_conflict(entries: &Vec<(MemIoRegion, usize)>, r: MemIoRegion) -> (res: Option<usize>)
    ensures
        match res {
            Some(j) => (j as int) < entries@.len() && entries@[j as int].0.spec_overlaps(r),
            None => forall|k: int|
                0 <= k < entries@.len() ==> !(#[trigger] entries@[k]).0.spec_overlaps(r),
        },
{
    let mut i: usize = 0;
    while i < entries.len()
        invariant
            i <= entries@.len(),
            forall|k: int| 0 <= k < i ==> !(#[trigger] entries@[k]).0.spec_overlaps(r),
        decreases entries@.len() - i,
    {
        let key = entries[i].0;
        match key.cmp(&r) {
            Ordering::Equal => {
                return Some(i);
            },
            _ => {},
        }
        i += 1;
    }
    None
}

/// Scans a registry for the entry whose range contains the port, by
/// comparing each stored key with the singleton range `[p, p]`.
fn find_port_entry(entries: &Vec<(PortIoRegion, usize)>, p: Port) -> (res: Option<usize>)
    ensures
        match res {
            Some(j) => (j as int) < entries@.len() && entries@[j as int].0.spec_contains(p),
            None => forall|k: int|
                0 <= k < entries@.len() ==> !(#[trigger] entries@[k]).0.spec_contains(p),
        },
{
    let probe = PortIoRegion::new(p, p);
    let mut i: usize = 0;
    while i < entries.len()
        invariant
            probe.start == p && probe.end == p,
            i <= entries@.len(),
            forall|k: int| 0 <= k < i ==> !(#[trigger] entries@[k]).0.spec_contains(p),
        decreases entries@.len() - i,
    {
        let key = entries[i].0;
        match key.cmp(&probe) {
            Ordering::Equal => {
                return Some(i);
            },
            _ => {},
        }
        i += 1;
    }
    None
}

/// Scans a registry for the entry whose range contains the address.
fn find_mem_entry(entries: &Vec<(MemIoRegion, usize)>, a: GuestPhysAddr) -> (res: Option<usize>)
    ensures
        match res {
            Some(j) => (j as int) < entries@.len() && entries@[j as int].0.spec_contains(a),
            None => forall|k: int|
                0 <= k < entries@.len() ==> !(#[trigger] entries@[k]).0.spec_contains(a),
        },
{
    let probe = MemIoRegion::new(a, a);
    let mut i: usize = 0;
    while i < entries.len()
        invariant
            probe.start == a && probe.end == a,
            i <= entries@.len(),
            forall|k: int| 0 <= k < i ==> !(#[trigger] entries@[k]).0.spec_contains(a),
        decreases entries@.len() - i,
    {
        let key = entries[i].0;
        match key.cmp(&probe) {
            Ordering::Equal => {
                return Some(i);
            },
            _ => {},
        }
        i += 1;
    }
    None
}

impl<D> Default for DeviceMap<D> {
    /// An empty dispatcher.
    fn default() -> (r: Self)
        ensures
            r.spec_devices().len() == 0,
            r.spec_portio().len() == 0,
            r.spec_memio().len() == 0,
            r.wf(),
    {
        DeviceMap { devices: Vec::new(), portio_map: Vec::new(), memio_map: Vec::new() }
    }
}

impl<D: EmulatedDevice> DeviceMap<D> {
    /// Moves `dev` into the map and inserts one registry entry per region it
    /// declares, in declaration order.  The first region that overlaps an
    /// already-stored range — including a range inserted earlier by this same
    /// call — aborts the call with `InvalidDevice`; regions inserted before
    /// the conflict are not rolled back, matching the registration semantics
    /// the rest of the system is built on.
    pub fn register_device(&mut self, dev: D) -> (r: Result<(), Error>)
        requires
            old(self).wf(),
            forall|i: int|
                0 <= i < dev.services_spec().len() ==> (#[trigger] dev.services_spec()[i]).wf(),
        ensures
            final(self).wf(),
            final(self).spec_devices() == old(self).spec_devices().push(dev),
            ({
                let regions = dev.services_spec();
                let idx = old(self).spec_devices().len() as usize;
                match old(self).spec_first_conflict(regions) {
                    None => {
                        &&& r is Ok
                        &&& final(self).spec_portio() == old(self).spec_portio()
                            + port_entries_upto(regions, regions.len() as int, idx)
                        &&& final(self).spec_memio() == old(self).spec_memio() + mem_entries_upto(
                            regions,
                            regions.len() as int,
                            idx,
                        )
                    },
                    Some(k) => {
                        &&& r is Err
                        &&& r->Err_0 is InvalidDevice
                        &&& final(self).spec_portio() == old(self).spec_portio()
                            + port_entries_upto(regions, k, idx)
                        &&& final(self).spec_memio() == old(self).spec_memio() + mem_entries_upto(
                            regions,
                            k,
                            idx,
                        )
                        &&& match regions[k] {
                            DeviceRegion::PortIo(rg) => exists|j: int|
                                0 <= j < final(self).spec_portio().len()
                                && (#[trigger] final(self).spec_portio()[j]).0.spec_overlaps(rg)
                                && r->Err_0->InvalidDevice_0@ == spec_port_conflict_message(
                                    rg,
                                    final(self).spec_portio()[j].0,
                                ),
                            DeviceRegion::MemIo(rg) => exists|j: int|
                                0 <= j < final(self).spec_memio().len()
                                && (#[trigger] final(self).spec_memio()[j]).0.spec_overlaps(rg)
                                && r->Err_0->InvalidDevice_0@ == spec_mem_conflict_message(
                                    rg,
                                    final(self).spec_memio()[j].0,
                                ),
                        }
                    },
                }
            }),
    {
        let ghost regions = dev.services_spec();
        let ghost pk0 = self.spec_port_keys();
        let ghost mk0 = self.spec_mem_keys();
        let services = dev.services();
        let idx = self.devices.len();
        self.devices.push(dev);
        let mut i: usize = 0;
        while i < services.len()
            invariant
                i <= services@.len(),
                services@ == regions,
                regions == dev.services_spec(),
                forall|n: int| 0 <= n < regions.len() ==> (#[trigger] regions[n]).wf(),
                idx == old(self).spec_devices().len(),
                pk0 == old(self).spec_port_keys(),
                mk0 == old(self).spec_mem_keys(),
                old(self).wf(),
                self.spec_devices() == old(self).spec_devices().push(dev),
                self.spec_portio() == old(self).spec_portio() + port_entries_upto(
                    regions,
                    i as int,
                    idx,
                ),
                self.spec_memio() == old(self).spec_memio() + mem_entries_upto(
                    regions,
                    i as int,
                    idx,
                ),
                forall|j: int| 0 <= j < i ==> !reg_conflict_at(pk0, mk0, regions, j),
                self.wf(),
            decreases services@.len() - i,
        {
            let region = services[i];
            proof {
                assert(self.spec_port_keys() =~= pk0 + port_regions_upto(regions, i as int));
                assert(self.spec_mem_keys() =~= mk0 + mem_regions_upto(regions, i as int));
            }
            match region {
                DeviceRegion::PortIo(rg) => {
                    match find_port_conflict(&self.portio_map, rg) {
                        Some(j) => {
                            let existing = self.portio_map[j].0;
                            proof {
                                let keys = pk0 + port_regions_upto(regions, i as int);
                                assert(keys[j as int].spec_overlaps(rg));
                                assert(reg_conflict_at(pk0, mk0, regions, i as int));
                                lemma_first_conflict_some(pk0, mk0, regions, 0, i as int);
                            }
                            return Err(Error::InvalidDevice(port_conflict_message(rg, existing)));
                        },
                        None => {
                            self.portio_map.push((rg, idx));
                            proof {
                                assert(!reg_conflict_at(pk0, mk0, regions, i as int));
                                assert(self.spec_portio() =~= old(self).spec_portio()
                                    + port_entries_upto(regions, i as int + 1, idx));
                            }
                        },
                    }
                },
                DeviceRegion::MemIo(rg) => {
                    match find_mem_conflict(&self.memio_map, rg) {
                        Some(j) => {
                            let existing = self.memio_map[j].0;
                            proof {
                                let keys = mk0 + mem_regions_upto(regions, i as int);
                                assert(keys[j as int].spec_overlaps(rg));
                                assert(reg_conflict_at(pk0, mk0, regions, i as int));
                                lemma_first_conflict_some(pk0, mk0, regions, 0, i as int);
                            }
                            return Err(Error::InvalidDevice(mem_conflict_message(rg, existing)));
                        },
                        None => {
                            self.memio_map.push((rg, idx));
                            proof {
                                assert(!reg_conflict_at(pk0, mk0, regions, i as int));
                                assert(self.spec_memio() =~= old(self).spec_memio()
                                    + mem_entries_upto(regions, i as int + 1, idx));
                            }
                        },
                    }
                },
            }
            i += 1;
        }
        proof {
            lemma_first_conflict_none(pk0, mk0, regions, 0);
        }
        Ok(())
    }

    /// Finds the device responsible for handling an interaction: the unique
    /// registered device whose claimed range contains the port or address.
    pub fn device_for<I: DeviceInteraction>(&self, op: I) -> (r: Option<&D>)
        requires
            self.wf(),
        ensures
            ({
                match op.location_spec() {
                    IoLocation::PortAddress(p) => {
                        &&& (r is Some <==> exists|j: int|
                            0 <= j < self.spec_portio().len() && (
                            #[trigger] self.spec_portio()[j]).0.spec_contains(p))
                        &&& (r matches Some(d) ==> exists|j: int|
                            0 <= j < self.spec_portio().len() && (
                            #[trigger] self.spec_portio()[j]).0.spec_contains(p) && *d
                                == self.spec_devices()[self.spec_portio()[j].1 as int])
                    },
                    IoLocation::MemAddress(a) => {
                        &&& (r is Some <==> exists|j: int|
                            0 <= j < self.spec_memio().len() && (
                            #[trigger] self.spec_memio()[j]).0.spec_contains(a))
                        &&& (r matches Some(d) ==> exists|j: int|
                            0 <= j < self.spec_memio().len() && (
                            #[trigger] self.spec_memio()[j]).0.spec_contains(a) && *d
                                == self.spec_devices()[self.spec_memio()[j].1 as int])
                    },
                }
            }),
    {
        match op.location() {
            IoLocation::PortAddress(p) => {
                match find_port_entry(&self.portio_map, p) {
                    Some(j) => {
                        let di = self.portio_map[j].1;
                        Some(&self.devices[di])
                    },
                    None => None,
                }
            },
            IoLocation::MemAddress(a) => {
                match find_mem_entry(&self.memio_map, a) {
                    Some(j) => {
                        let di = self.memio_map[j].1;
                        Some(&self.devices[di])
                    },
                    None => None,
                }
            },
        }
    }

    /// Finds the device responsible for handling an interaction, mutably.
    /// The registries are untouched; at most the found device's slot changes,
    /// to whatever the caller writes through the returned reference.
    pub fn device_for_mut<I: DeviceInteraction>(&mut self, op: I) -> (r: Option<&mut D>)
        requires
            old(self).wf(),
        ensures
            final(self).spec_portio() == old(self).spec_portio(),
            final(self).spec_memio() == old(self).spec_memio(),
            final(self).wf(),
            r is None ==> final(self).spec_devices() == old(self).spec_devices(),
            ({
                match op.location_spec() {
                    IoLocation::PortAddress(p) => {
                        &&& (r is Some <==> exists|j: int|
                            0 <= j < old(self).spec_portio().len() && (#[trigger] old(
                            self,
                        ).spec_portio()[j]).0.spec_contains(p))
                        &&& (r matches Some(d) ==> exists|j: int|
                            0 <= j < old(self).spec_portio().len() && (#[trigger] old(
                            self,
                        ).spec_portio()[j]).0.spec_contains(p) && *d == old(self).spec_devices()[old(
                            self,
                        ).spec_portio()[j].1 as int] && final(self).spec_devices() == old(
                            self,
                        ).spec_devices().update(old(self).spec_portio()[j].1 as int, *final(d)))
                    },
                    IoLocation::MemAddress(a) => {
                        &&& (r is Some <==> exists|j: int|
                            0 <= j < old(self).spec_memio().len() && (#[trigger] old(
                            self,
                        ).spec_memio()[j]).0.spec_contains(a))
                        &&& (r matches Some(d) ==> exists|j: int|
                            0 <= j < old(self).spec_memio().len() && (#[trigger] old(
                            self,
                        ).spec_memio()[j]).0.spec_contains(a) && *d == old(self).spec_devices()[old(
                            self,
                        ).spec_memio()[j].1 as int] && final(self).spec_devices() == old(
                            self,
                        ).spec_devices().update(old(self).spec_memio()[j].1 as int, *final(d)))
                    },
                }
            }),
    {
        match op.location() {
            IoLocation::PortAddress(p) => {
                match find_port_entry(&self.portio_map, p) {
                    Some(j) => {
                        let di = self.portio_map[j].1;
                        Some(&mut self.devices[di])
                    },
                    None => None,
                }
            },
            IoLocation::MemAddress(a) => {
                match find_mem_entry(&self.memio_map, a) {
                    Some(j) => {
                        let di = self.memio_map[j].1;
                        Some(&mut self.devices[di])
                    },
                    None => None,
                }
            },
        }
    }
}

} // verus!
