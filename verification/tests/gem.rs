//! Buffer objects.

use drm_tyr::error::{Error, EBUSY, ENOMEM};
use drm_tyr::tyr::gem::{
    new_dummy_object, BoCreateArgs, BoData, KernelBo, MapRequest, ObjectRequest, VaSpan,
};

fn owned(size: usize) -> ObjectRequest {
    ObjectRequest { size, map_wc: true, shared_resv: false, args: BoCreateArgs { flags: 0 } }
}

#[test]
fn dummy_object_is_one_page() {
    assert_eq!(new_dummy_object(), owned(4096));
}

#[test]
fn data_keeps_its_flags() {
    assert_eq!(BoData::new(BoCreateArgs { flags: 5 }), BoData { flags: 5 });
}

#[test]
fn kernel_bo_unmaps_what_it_mapped() {
    let plan = KernelBo::<&str>::new(0x3000, 0x1_0000_0000, 9);
    assert_eq!(plan.object(), owned(0x3000));
    let unmapped = plan.created(Ok("object")).ok().unwrap();
    assert_eq!(*unmapped.bo(), "object");
    let span = VaSpan { va: 0x1_0000_0000, size: 0x3000 };
    assert_eq!(unmapped.map_bo_range(), MapRequest { bo_offset: 0, span, flags: 9 });
    let bo = unmapped.mapped(Ok(())).ok().unwrap();
    assert_eq!(*bo.bo(), "object");
    assert_eq!(bo.unmap_range(), span);
}

#[test]
fn kernel_bo_reports_the_step_that_failed() {
    let plan = KernelBo::<u8>::new(0x1000, 0, 0);
    let failed = plan.created(Err::<u8, Error>(Error::from_errno(ENOMEM)));
    assert_eq!(failed.err().map(|e| e.to_errno()), Some(ENOMEM));
    let plan = KernelBo::<u8>::new(0x1000, 0, 0);
    let failed = plan.created(Ok(1u8)).ok().unwrap().mapped(Err(Error::from_errno(EBUSY)));
    assert_eq!(failed.err().map(|e| e.to_errno()), Some(EBUSY));
}

#[test]
fn kernel_bo_may_end_at_the_top() {
    let plan = KernelBo::<u8>::new(0x1000, u64::MAX - 0x1000, 0);
    let bo = plan.created(Ok(1u8)).ok().unwrap().mapped(Ok(())).ok().unwrap();
    assert_eq!(bo.unmap_range(), VaSpan { va: u64::MAX - 0x1000, size: 0x1000 });
}

#[test]
fn range_past_the_top_may_be_refused_by_a_step() {
    let plan = KernelBo::<u8>::new(0x2000, u64::MAX - 0x1000, 0);
    assert_eq!(plan.object(), owned(0x2000));
    let failed = plan.created(Ok(1u8)).ok().unwrap().mapped(Err(Error::from_errno(EBUSY)));
    assert_eq!(failed.err().map(|e| e.to_errno()), Some(EBUSY));
}
