//! GEM buffer object management for the Tyr driver.
//!
//! This module says which buffer objects (BOs) are to be created with shmem
//! backing, how they are mapped into a VM, and what is to be unmapped when they
//! go away.

use crate::error::Error;
use core::ops::Range;
use vstd::prelude::*;

verus! {

/// Tyr's data in a GEM object.
#[derive(Clone, Copy, Debug, PartialEq, Eq, Structural)]
pub struct BoData {
    /// The flags that it was created with.
    pub flags: u32,
}

/// The arguments for creating [`BoData`].
#[derive(Clone, Copy, Debug, PartialEq, Eq, Structural)]
pub struct BoCreateArgs {
    /// The flags.
    pub flags: u32,
}

impl BoData {
    /// Creates the data of a new GEM object.
    pub fn new(args: BoCreateArgs) -> (res: Self)
        ensures
            res.flags == args.flags,
    {
        BoData { flags: args.flags }
    }
}

/// A request for a shmem-backed GEM object.
#[derive(Clone, Copy, Debug, PartialEq, Eq, Structural)]
pub struct ObjectRequest {
    /// The size in bytes.
    pub size: usize,
    /// Whether the object is mapped write-combined.
    pub map_wc: bool,
    /// Whether the object shares the reservation of a parent object.
    pub shared_resv: bool,
    /// The arguments for Tyr's data.
    pub args: BoCreateArgs,
}

impl ObjectRequest {
    /// The request for an object of `size` bytes that Tyr owns: mapped
    /// write-combined, with a reservation of its own and no flags.
    pub open spec fn owned(size: usize) -> Self {
        ObjectRequest { size, map_wc: true, shared_resv: false, args: BoCreateArgs { flags: 0 } }
    }

    /// The request for an object of `size` bytes that Tyr owns.
    fn new(size: usize) -> (res: Self)
        ensures
            res == ObjectRequest::owned(size),
    {
        ObjectRequest { size, map_wc: true, shared_resv: false, args: BoCreateArgs { flags: 0 } }
    }
}

/// The request for a dummy GEM object that serves as the root of a GPUVM.
pub fn new_dummy_object() -> (res: ObjectRequest)
    ensures
        res == ObjectRequest::owned(4096),
{
    ObjectRequest::new(4096)
}

/// A range of GPU virtual addresses.
#[derive(Clone, Copy, Debug, PartialEq, Eq, Structural)]
pub struct VaSpan {
    /// The first address.
    pub va: u64,
    /// The number of bytes.
    pub size: u64,
}

/// A request to map a part of a buffer object.
#[derive(Clone, Copy, Debug, PartialEq, Eq, Structural)]
pub struct MapRequest {
    /// Where in the object the part starts.
    pub bo_offset: u64,
    /// Where it is mapped.
    pub span: VaSpan,
    /// The flags of the mapping.
    pub flags: u32,
}

/// A kernel-owned buffer object on its way: first the object is created, and
/// then it is mapped.
pub struct KernelBoPlan {
    span: VaSpan,
    flags: u32,
}

/// A kernel-owned buffer object that is created and not mapped yet.
pub struct UnmappedBo<B> {
    bo: B,
    span: VaSpan,
    flags: u32,
}

/// A buffer object that is owned and managed by Tyr rather than userspace.
pub struct KernelBo<B> {
    bo: B,
    va_range: Range<u64>,
}

impl KernelBoPlan {
    /// Where the object will be mapped.
    pub closed spec fn span(self) -> VaSpan {
        self.span
    }

    /// The flags of the mapping.
    pub closed spec fn map_flags(self) -> u32 {
        self.flags
    }

    /// The request for the object.
    pub fn object(&self) -> (res: ObjectRequest)
        ensures
            res == ObjectRequest::owned(self.span().size as usize),
    {
        ObjectRequest::new(self.span.size as usize)
    }

    /// Goes on with the object that was created, or stops with the error.
    pub fn created<B>(self, bo: Result<B, Error>) -> (res: Result<UnmappedBo<B>, Error>)
        ensures
            match bo {
                Ok(bo) => res matches Ok(unmapped) && unmapped.object() == bo && unmapped.span()
                    == self.span() && unmapped.map_flags() == self.map_flags(),
                Err(e) => res matches Err(f) && f == e,
            },
    {
        match bo {
            Ok(bo) => Ok(UnmappedBo { bo, span: self.span, flags: self.flags }),
            Err(e) => Err(e),
        }
    }
}

impl<B> UnmappedBo<B> {
    /// The object.
    pub closed spec fn object(self) -> B {
        self.bo
    }

    /// Where the object will be mapped.
    pub closed spec fn span(self) -> VaSpan {
        self.span
    }

    /// The flags of the mapping.
    pub closed spec fn map_flags(self) -> u32 {
        self.flags
    }

    /// The request for the mapping: the whole object, from its start.
    pub open spec fn map_request(self) -> MapRequest {
        MapRequest { bo_offset: 0, span: self.span(), flags: self.map_flags() }
    }

    /// The object once it is mapped.
    pub closed spec fn recorded(self) -> KernelBo<B> {
        KernelBo {
            bo: self.bo,
            va_range: Range { start: self.span.va, end: (self.span.va + self.span.size) as u64 },
        }
    }

    /// The object.
    pub fn bo(&self) -> (res: &B)
        ensures
            *res == self.object(),
    {
        &self.bo
    }

    /// The request for the mapping: the whole object, from its start.
    pub fn map_bo_range(&self) -> (res: MapRequest)
        ensures
            res == self.map_request(),
    {
        MapRequest { bo_offset: 0, span: self.span, flags: self.flags }
    }

    /// Records the mapping, or stops with the error.
    pub fn mapped(self, result: Result<(), Error>) -> (res: Result<KernelBo<B>, Error>)
        requires
            result is Ok ==> self.span().va + self.span().size <= u64::MAX,
        ensures
            match result {
                Ok(_) => res matches Ok(bo) && bo == self.recorded() && bo.object()
                    == self.object() && bo.range() == self.span() && bo.wf(),
                Err(e) => res matches Err(f) && f == e,
            },
    {
        match result {
            Ok(()) => Ok(
                KernelBo {
                    bo: self.bo,
                    va_range: self.span.va..self.span.va + self.span.size,
                },
            ),
            Err(e) => Err(e),
        }
    }
}

impl<B> KernelBo<B> {
    /// The object.
    pub closed spec fn object(self) -> B {
        self.bo
    }

    /// Where the object is mapped.
    pub closed spec fn range(self) -> VaSpan {
        VaSpan {
            va: self.va_range.start,
            size: (self.va_range.end - self.va_range.start) as u64,
        }
    }

    /// The end of the range does not come before its start.
    pub closed spec fn wf(self) -> bool {
        self.va_range.start <= self.va_range.end
    }

    /// Plans a new kernel-owned buffer object of `size` bytes that is mapped
    /// into GPU VA space at `va`.
    pub fn new(size: u64, va: u64, flags: u32) -> (res: KernelBoPlan)
        ensures
            res.span() == (VaSpan { va, size }),
            res.map_flags() == flags,
    {
        KernelBoPlan { span: VaSpan { va, size }, flags }
    }

    /// The object.
    pub fn bo(&self) -> (res: &B)
        ensures
            *res == self.object(),
    {
        &self.bo
    }

    /// What is to be unmapped when the object goes away: what was mapped
    /// when it was created. An error of that is reported and has no other effect.
    pub fn unmap_range(&self) -> (res: VaSpan)
        requires
            self.wf(),
        ensures
            res == self.range(),
    {
        let va: u64 = self.va_range.start;
        let size: u64 = self.va_range.end - self.va_range.start;
        VaSpan { va, size }
    }
}

/// What is unmapped when an object goes away is what was mapped when it was
/// created, to the byte.
pub proof fn law_unmaps_what_was_mapped<B>(unmapped: UnmappedBo<B>)
    requires
        unmapped.span().va + unmapped.span().size <= u64::MAX,
    ensures
        unmapped.recorded().wf(),
        unmapped.recorded().object() == unmapped.object(),
        unmapped.recorded().range() == unmapped.map_request().span,
{
}

/// An object that Tyr owns is as large as it was asked for, mapped write-combined, has
/// a reservation of its own and no flags; requests for different sizes differ.
pub proof fn law_owned_object_has_its_size(size: usize, other: usize)
    ensures
        ObjectRequest::owned(size).size == size,
        ObjectRequest::owned(size).map_wc,
        !ObjectRequest::owned(size).shared_resv,
        ObjectRequest::owned(size).args.flags == 0,
        ObjectRequest::owned(size) == ObjectRequest::owned(other) <==> size == other,
{
}

/// What is mapped of an object starts with its first byte, goes where it was planned to
/// go, byte by byte, and has the flags that it was planned with.
pub proof fn law_maps_the_whole_object<B>(unmapped: UnmappedBo<B>)
    ensures
        unmapped.map_request().bo_offset == 0,
        unmapped.map_request().span.va == unmapped.span().va,
        unmapped.map_request().span.size == unmapped.span().size,
        unmapped.map_request().flags == unmapped.map_flags(),
        unmapped.span().va + unmapped.span().size <= u64::MAX ==> {
            &&& unmapped.recorded().range().va == unmapped.span().va
            &&& unmapped.recorded().range().size == unmapped.span().size
        },
{
}

/// A kernel-owned object on its way, call by call: the object is asked for with the size
/// that was planned, it is mapped from its first byte to where it was planned to go, with
/// the flags that were planned, and what is unmapped in the end is that very range. An
/// error of a step is handed on.
pub proof fn law_calls_of_a_kernel_bo<B>(size: u64, va: u64, flags: u32)
    ensures
        forall|plan: KernelBoPlan| #[trigger]
            call_ensures(KernelBo::<B>::new, (size, va, flags), plan) ==> plan.span().va == va
                && plan.span().size == size && plan.map_flags() == flags,
        forall|plan: KernelBoPlan, res: ObjectRequest| #[trigger]
            call_ensures(KernelBoPlan::object, (&plan,), res) ==> {
                &&& plan.span().size <= usize::MAX ==> res.size == plan.span().size
                &&& res.map_wc && !res.shared_resv && res.args.flags == 0
            },
        forall|plan: KernelBoPlan, bo: Result<B, Error>, res: Result<UnmappedBo<B>, Error>|
            #[trigger] call_ensures(KernelBoPlan::created::<B>, (plan, bo), res) ==> match bo {
                Ok(b) => res matches Ok(unmapped) && unmapped.object() == b && unmapped.span()
                    == plan.span() && unmapped.map_flags() == plan.map_flags(),
                Err(e) => res matches Err(f) && f == e,
            },
        forall|unmapped: UnmappedBo<B>, res: MapRequest| #[trigger]
            call_ensures(UnmappedBo::<B>::map_bo_range, (&unmapped,), res) ==> res.bo_offset == 0
                && res.span == unmapped.span() && res.flags == unmapped.map_flags(),
        forall|unmapped: UnmappedBo<B>, result: Result<(), Error>, res: Result<KernelBo<B>, Error>|
            #[trigger] call_ensures(UnmappedBo::<B>::mapped, (unmapped, result), res)
                ==> match result {
                Ok(_) => res matches Ok(bo) && bo.object() == unmapped.object() && bo.range()
                    == unmapped.span(),
                Err(e) => res matches Err(f) && f == e,
            },
        forall|bo: KernelBo<B>, res: VaSpan| #[trigger]
            call_ensures(KernelBo::<B>::unmap_range, (&bo,), res) ==> res == bo.range(),
        forall|res: ObjectRequest| #[trigger]
            call_ensures(new_dummy_object, (), res) ==> res.size == 4096 && res.map_wc
                && !res.shared_resv && res.args.flags == 0,
        forall|args: BoCreateArgs, res: BoData| #[trigger]
            call_ensures(BoData::new, (args,), res) ==> res.flags == args.flags,
{
}

} // verus!
