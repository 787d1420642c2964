//! Error numbers and the results that carry them.

use vstd::prelude::*;

verus! {

/// The largest magnitude that an error number can have.
pub const MAX_ERRNO: i32 = 4095;

/// A negative error number, between `-MAX_ERRNO` and `-1`.
#[derive(Clone, Copy, Debug, PartialEq, Eq, Structural)]
pub struct Error {
    errno: i32,
}

/// Interrupted by a signal.
pub const EINTR: i32 = -4;

/// Out of memory.
pub const ENOMEM: i32 = -12;

/// Device or resource busy.
pub const EBUSY: i32 = -16;

/// No such device.
pub const ENODEV: i32 = -19;

/// Invalid argument.
pub const EINVAL: i32 = -22;

/// Resource deadlock would occur.
pub const EDEADLK: i32 = -35;

/// Timer expired.
pub const ETIMEDOUT: i32 = -110;

/// Operation already in progress.
pub const EALREADY: i32 = -114;

/// Whether `errno` is a number that an [`Error`] can hold.
pub open spec fn is_errno(errno: int) -> bool {
    -MAX_ERRNO <= errno < 0
}

/// The number that an [`Error`] made from `errno` holds: `errno` itself where
/// it is an error number, and `EINVAL` otherwise.
pub open spec fn errno_or_einval(errno: int) -> int {
    if is_errno(errno) {
        errno
    } else {
        EINVAL as int
    }
}

impl Error {
    #[verifier::type_invariant]
    spec fn in_range(self) -> bool {
        is_errno(self.errno as int)
    }

    /// The error number.
    pub closed spec fn code(self) -> int {
        self.errno as int
    }

    /// Makes an error from an error number. A number out of range becomes
    /// `EINVAL`.
    pub fn from_errno(errno: i32) -> (res: Self)
        ensures
            res.code() == errno_or_einval(errno as int),
    {
        if errno < -MAX_ERRNO || errno >= 0 {
            Error { errno: EINVAL }
        } else {
            Error { errno }
        }
    }

    /// The error number.
    pub fn to_errno(self) -> (res: i32)
        ensures
            res == self.code(),
            is_errno(res as int),
    {
        proof {
            use_type_invariant(self);
        }
        self.errno
    }

    /// Two errors with one number are one error.
    pub proof fn law_code_identifies(a: Self, b: Self)
        requires
            a.code() == b.code(),
        ensures
            a == b,
    {
    }
}

/// Reads the integer that a kernel function returned: a negative one is an
/// error number, any other is success.
pub fn to_result(ret: i32) -> (res: Result<(), Error>)
    ensures
        res is Ok <==> ret >= 0,
        res matches Err(e) ==> e.code() == errno_or_einval(ret as int),
{
    if ret < 0 {
        Err(Error::from_errno(ret))
    } else {
        Ok(())
    }
}

/// An error holds the number that it was made from, if that is between -4095 and -1,
/// and otherwise -22; so numbers in that range are told apart by their errors.
pub proof fn law_error_keeps_its_number(errno: int, other: int)
    ensures
        -4095 <= errno < 0 ==> errno_or_einval(errno) == errno,
        errno < -4095 || errno >= 0 ==> errno_or_einval(errno) == -22,
        -4095 <= errno_or_einval(errno) < 0,
        -4095 <= errno < 0 && -4095 <= other < 0 && errno_or_einval(errno) == errno_or_einval(
            other,
        ) ==> errno == other,
        is_errno(errno) <==> -4095 <= errno < 0,
{
}

/// The error numbers are those that the kernel has for what they stand for.
pub proof fn law_error_numbers_are_those_of_the_kernel()
    ensures
        EINTR == -4,
        ENOMEM == -12,
        EBUSY == -16,
        ENODEV == -19,
        EINVAL == -22,
        EDEADLK == -35,
        ETIMEDOUT == -110,
        EALREADY == -114,
        MAX_ERRNO == 4095,
{
}

/// What the calls on error numbers come to: an error that is made from an error number
/// gives that number back, and `-22` for any other; a returned integer is an error
/// exactly if it is negative.
pub proof fn law_calls_on_error_numbers()
    ensures
        forall|errno: i32, e: Error, res: i32|
            #[trigger] call_ensures(Error::from_errno, (errno,), e) && #[trigger] call_ensures(
                Error::to_errno,
                (e,),
                res,
            ) ==> res == if -4095 <= errno < 0 {
                errno as int
            } else {
                -22
            },
        forall|ret: i32, res: Result<(), Error>| #[trigger]
            call_ensures(to_result, (ret,), res) ==> {
                &&& res is Ok <==> ret >= 0
                &&& res matches Err(e) ==> e.code() == if -4095 <= ret {
                    ret as int
                } else {
                    -22
                }
            },
{
}

} // verus!
