//! Error numbers.

use drm_tyr::error::{to_result, Error, EBUSY, EINVAL, MAX_ERRNO};

#[test]
fn error_numbers_are_kept_in_range() {
    assert_eq!(Error::from_errno(EBUSY).to_errno(), EBUSY);
    assert_eq!(Error::from_errno(-MAX_ERRNO).to_errno(), -4095);
    assert_eq!(Error::from_errno(-MAX_ERRNO - 1).to_errno(), EINVAL);
    assert_eq!(Error::from_errno(0).to_errno(), EINVAL);
    assert_eq!(Error::from_errno(1).to_errno(), EINVAL);
}

#[test]
fn results_carry_negative_numbers() {
    assert!(to_result(0).is_ok());
    assert!(to_result(1).is_ok());
    assert_eq!(to_result(EBUSY), Err(Error::from_errno(EBUSY)));
    assert_eq!(to_result(i32::MIN), Err(Error::from_errno(EINVAL)));
}
