//! IO-agnostic memory mapping interfaces.
//!
//! A mapping can reside within coherent memory, or within IO memory. This module
//! keeps track of where a mapping is and how large it is, and turns accesses by
//! address into accesses by offset from the start of the mapping.

use crate::error::{Error, EINVAL};
use vstd::prelude::*;

verus! {

/// Where a mapping is.
#[derive(Clone, Copy, Debug, PartialEq, Eq, Structural)]
pub enum MapAddress {
    /// In IO memory.
    Iomem(usize),
    /// In coherent memory.
    System(usize),
}

/// The width of an access.
#[derive(Clone, Copy, Debug, PartialEq, Eq, Structural)]
pub enum Width {
    /// 8 bits.
    U8,
    /// 16 bits.
    U16,
    /// 32 bits.
    U32,
    /// 64 bits.
    U64,
}

impl Width {
    /// The number of bytes.
    pub open spec fn bytes(self) -> int {
        match self {
            Width::U8 => 1,
            Width::U16 => 2,
            Width::U32 => 4,
            Width::U64 => 8,
        }
    }
}

/// A value that is written.
#[derive(Clone, Copy, Debug, PartialEq, Eq, Structural)]
pub enum Word {
    /// 8 bits.
    U8(u8),
    /// 16 bits.
    U16(u16),
    /// 32 bits.
    U32(u32),
    /// 64 bits.
    U64(u64),
}

/// One access to a mapping.
#[derive(Clone, Copy, Debug, PartialEq, Eq, Structural)]
pub enum MapAccess {
    /// Reads a value of the given width.
    Read {
        /// The mapping.
        map: MapAddress,
        /// The offset from the start of the mapping.
        offset: usize,
        /// The width.
        width: Width,
    },
    /// Writes a value.
    Write {
        /// The mapping.
        map: MapAddress,
        /// The offset from the start of the mapping.
        offset: usize,
        /// The value.
        value: Word,
    },
}

/// Raw unsized representation of a mapping.
///
/// It does not know the size of the mapping, so it cannot check an access.
/// `SIZE` is the size that is known when the program is compiled.
pub struct RawIoSysMap<const SIZE: usize> {
    map: MapAddress,
}

impl<const SIZE: usize> RawIoSysMap<SIZE> {
    /// Where the mapping is.
    pub closed spec fn map(self) -> MapAddress {
        self.map
    }

    /// The address of the mapping, in IO memory or not.
    pub open spec fn start(self) -> usize {
        match self.map() {
            MapAddress::Iomem(vaddr) => vaddr,
            MapAddress::System(vaddr) => vaddr,
        }
    }

    /// How far `address` is from the start of the mapping.
    pub open spec fn offset_of(self, address: usize) -> usize {
        (address - self.start()) as usize
    }

    /// Converts from a raw mapping.
    pub fn from_raw(val: MapAddress) -> (res: Self)
        ensures
            res.map() == val,
    {
        RawIoSysMap { map: val }
    }

    /// Returns whether the mapping is within IO memory space or not.
    pub fn is_iomem(&self) -> (res: bool)
        ensures
            res == (self.map() is Iomem),
    {
        match self.map {
            MapAddress::Iomem(_) => true,
            MapAddress::System(_) => false,
        }
    }

    /// Converts to a reference to the raw mapping.
    pub fn as_raw(&self) -> (res: &MapAddress)
        ensures
            *res == self.map(),
    {
        &self.map
    }

    /// Converts to a mutable reference to the raw mapping.
    pub fn as_raw_mut(&mut self) -> (res: &mut MapAddress)
        ensures
            *res == old(self).map(),
            final(self).map() == *final(res),
    {
        &mut self.map
    }

    /// Returns the address pointed to by this mapping.
    ///
    /// Note that this address is not guaranteed to be valid, and may or may not
    /// reside in I/O memory.
    pub fn addr(&self) -> (res: usize)
        ensures
            res == self.start(),
    {
        match self.map {
            MapAddress::Iomem(vaddr) => vaddr,
            MapAddress::System(vaddr) => vaddr,
        }
    }

    /// The access that reads at `address`.
    pub fn io_read(&self, address: usize, width: Width) -> (res: MapAccess)
        requires
            self.start() <= address,
        ensures
            res == (MapAccess::Read {
                map: self.map(),
                offset: self.offset_of(address),
                width,
            }),
    {
        let offset: usize = address - self.addr();
        MapAccess::Read { map: self.map, offset, width }
    }

    /// The access that writes at `address`.
    pub fn io_write(&self, value: Word, address: usize) -> (res: MapAccess)
        requires
            self.start() <= address,
        ensures
            res == (MapAccess::Write {
                map: self.map(),
                offset: self.offset_of(address),
                value,
            }),
    {
        let offset: usize = address - self.addr();
        MapAccess::Write { map: self.map, offset, value }
    }
}

impl<const SIZE: usize> Clone for RawIoSysMap<SIZE> {
    fn clone(&self) -> (res: Self)
        ensures
            res == *self,
    {
        RawIoSysMap { map: self.map }
    }
}

/// A sized version of a [`RawIoSysMap`].
///
/// This type includes the runtime size of the mapping, which is at least `SIZE`,
/// and can be used for checked I/O operations.
pub struct IoSysMapRef<const SIZE: usize> {
    raw_map: RawIoSysMap<SIZE>,
    size: usize,
}

impl<const SIZE: usize> IoSysMapRef<SIZE> {
    /// The size that was known when the program was compiled is not larger than
    /// the runtime size.
    #[verifier::type_invariant]
    spec fn sized(self) -> bool {
        SIZE <= self.size
    }

    /// The mapping.
    pub closed spec fn raw(self) -> RawIoSysMap<SIZE> {
        self.raw_map
    }

    /// The number of bytes in the mapping.
    pub closed spec fn len(self) -> usize {
        self.size
    }

    /// Creates a new [`IoSysMapRef`] from a [`RawIoSysMap`] of `size` bytes.
    ///
    /// Fails with `EINVAL` if the mapping is smaller than `SIZE`.
    pub fn new(map: RawIoSysMap<SIZE>, size: usize) -> (res: Result<Self, Error>)
        ensures
            res is Err <==> size < SIZE,
            res matches Err(e) ==> e.code() == EINVAL,
            res matches Ok(map_ref) ==> map_ref.raw() == map && map_ref.len() == size,
    {
        if size < SIZE {
            return Err(Error::from_errno(EINVAL));
        }
        Ok(IoSysMapRef { raw_map: map, size })
    }

    /// Returns whether the mapping is within IO memory space or not.
    pub fn is_iomem(&self) -> (res: bool)
        ensures
            res == (self.raw().map() is Iomem),
    {
        self.raw_map.is_iomem()
    }

    /// Returns the address pointed to by this mapping.
    ///
    /// Note that this address is not guaranteed to be valid, and may or may not
    /// reside in I/O memory.
    pub fn addr(&self) -> (res: usize)
        ensures
            res == self.raw().start(),
    {
        self.raw_map.addr()
    }

    /// The number of bytes in the mapping, which is at least [`Self::min_size`].
    pub fn maxsize(&self) -> (res: usize)
        ensures
            res == self.len(),
            res >= SIZE,
    {
        proof {
            use_type_invariant(self);
        }
        self.size
    }

    /// The number of bytes that every mapping of this type has.
    pub fn min_size() -> (res: usize)
        ensures
            res == SIZE,
    {
        SIZE
    }

    /// The access that reads at `address`.
    pub fn io_read(&self, address: usize, width: Width) -> (res: MapAccess)
        requires
            self.raw().start() <= address,
        ensures
            res == (MapAccess::Read {
                map: self.raw().map(),
                offset: self.raw().offset_of(address),
                width,
            }),
    {
        self.raw_map.io_read(address, width)
    }

    /// The access that writes at `address`.
    pub fn io_write(&self, value: Word, address: usize) -> (res: MapAccess)
        requires
            self.raw().start() <= address,
        ensures
            res == (MapAccess::Write {
                map: self.raw().map(),
                offset: self.raw().offset_of(address),
                value,
            }),
    {
        self.raw_map.io_write(value, address)
    }
}

impl<const SIZE: usize> Clone for IoSysMapRef<SIZE> {
    fn clone(&self) -> (res: Self)
        ensures
            res == *self,
    {
        proof {
            use_type_invariant(self);
        }
        IoSysMapRef { raw_map: self.raw_map.clone(), size: self.size }
    }
}

/// An access by address and one by offset reach the same byte, and an access
/// that lies in the mapping by its address lies in it by its offset.
pub proof fn law_offset_stays_in_mapping<const SIZE: usize>(
    map: IoSysMapRef<SIZE>,
    address: usize,
    width: Width,
)
    requires
        map.raw().start() <= address,
        address + width.bytes() <= map.raw().start() + map.len(),
    ensures
        map.raw().start() + map.raw().offset_of(address) == address,
        map.raw().offset_of(address) + width.bytes() <= map.len(),
{
}

/// The address of a mapping is the one that it was made with, in IO memory or not, and
/// an access that far behind it has that offset.
pub proof fn law_mapping_starts_at_its_address<const SIZE: usize>(
    map: RawIoSysMap<SIZE>,
    offset: usize,
)
    requires
        map.start() + offset <= usize::MAX,
    ensures
        map.map() matches MapAddress::Iomem(vaddr) ==> map.start() == vaddr,
        map.map() matches MapAddress::System(vaddr) ==> map.start() == vaddr,
        map.offset_of((map.start() + offset) as usize) == offset,
{
}

/// Accesses at different addresses have different offsets, as far apart.
pub proof fn law_offsets_are_as_far_apart<const SIZE: usize>(
    map: RawIoSysMap<SIZE>,
    a: usize,
    b: usize,
)
    requires
        map.start() <= a <= b,
    ensures
        map.offset_of(b) - map.offset_of(a) == b - a,
{
}

/// An access of so many bits takes an eighth of that in bytes.
pub proof fn law_width_in_bytes()
    ensures
        Width::U8.bytes() * 8 == 8,
        Width::U16.bytes() * 8 == 16,
        Width::U32.bytes() * 8 == 32,
        Width::U64.bytes() * 8 == 64,
{
}

/// What the calls of a mapping say and do: it is where it was made, in IO memory or not,
/// it is refused exactly if it is smaller than it is declared to be, and an access is to
/// that mapping, as far behind its start as the address is, with the width or the value
/// that was given.
pub proof fn law_calls_of_a_mapping<const SIZE: usize>()
    ensures
        forall|val: MapAddress, res: RawIoSysMap<SIZE>| #[trigger]
            call_ensures(RawIoSysMap::<SIZE>::from_raw, (val,), res) ==> res.map() == val,
        forall|map: RawIoSysMap<SIZE>, res: bool| #[trigger]
            call_ensures(RawIoSysMap::<SIZE>::is_iomem, (&map,), res) ==> (res <==> map.map()
                is Iomem),
        forall|map: RawIoSysMap<SIZE>, res: usize| #[trigger]
            call_ensures(RawIoSysMap::<SIZE>::addr, (&map,), res) ==> match map.map() {
                MapAddress::Iomem(vaddr) => res == vaddr,
                MapAddress::System(vaddr) => res == vaddr,
            },
        forall|map: RawIoSysMap<SIZE>, address: usize, width: Width, res: MapAccess|
            map.start() <= address && #[trigger] call_ensures(
                RawIoSysMap::<SIZE>::io_read,
                (&map, address, width),
                res,
            ) ==> (res matches MapAccess::Read { map: at, offset, width: w } && at == map.map()
                && map.start() + offset == address && w == width),
        forall|map: RawIoSysMap<SIZE>, value: Word, address: usize, res: MapAccess|
            map.start() <= address && #[trigger] call_ensures(
                RawIoSysMap::<SIZE>::io_write,
                (&map, value, address),
                res,
            ) ==> (res matches MapAccess::Write { map: at, offset, value: v } && at == map.map()
                && map.start() + offset == address && v == value),
        forall|map: RawIoSysMap<SIZE>, size: usize, res: Result<IoSysMapRef<SIZE>, Error>|
            #[trigger] call_ensures(IoSysMapRef::<SIZE>::new, (map, size), res) ==> {
                &&& res is Ok <==> SIZE <= size
                &&& res matches Err(e) ==> e.code() == -22
                &&& res matches Ok(r) ==> r.raw() == map && r.len() == size
            },
        forall|map: IoSysMapRef<SIZE>, res: bool| #[trigger]
            call_ensures(IoSysMapRef::<SIZE>::is_iomem, (&map,), res) ==> (res
                <==> map.raw().map() is Iomem),
        forall|map: IoSysMapRef<SIZE>, res: usize| #[trigger]
            call_ensures(IoSysMapRef::<SIZE>::addr, (&map,), res) ==> res == map.raw().start(),
        forall|map: IoSysMapRef<SIZE>, res: usize| #[trigger]
            call_ensures(IoSysMapRef::<SIZE>::maxsize, (&map,), res) ==> res == map.len() && res
                >= SIZE,
        forall|res: usize| #[trigger]
            call_ensures(IoSysMapRef::<SIZE>::min_size, (), res) ==> res == SIZE,
        forall|map: IoSysMapRef<SIZE>, address: usize, width: Width, res: MapAccess|
            map.raw().start() <= address && #[trigger] call_ensures(
                IoSysMapRef::<SIZE>::io_read,
                (&map, address, width),
                res,
            ) ==> (res matches MapAccess::Read { map: at, offset, width: w } && at
                == map.raw().map() && map.raw().start() + offset == address && w == width),
        forall|map: IoSysMapRef<SIZE>, value: Word, address: usize, res: MapAccess|
            map.raw().start() <= address && #[trigger] call_ensures(
                IoSysMapRef::<SIZE>::io_write,
                (&map, value, address),
                res,
            ) ==> (res matches MapAccess::Write { map: at, offset, value: v } && at
                == map.raw().map() && map.raw().start() + offset == address && v == value),
{
}

} // verus!
