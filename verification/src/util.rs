//! Return codes of the operating system.

use vstd::prelude::*;

verus! {

/// `std::io::Error::last_os_error`: the error that the operating system last
/// reported to this thread, by its number.
///
/// Which number that is depends on what this thread has done. An error that was
/// made this way always has one.
#[verifier::external_body]
fn last_os_error() -> (code: Option<i32>)
    ensures
        code is Some,
{
    std::io::Error::last_os_error().raw_os_error()
}

/// What a return code amounts to, `os_error` being the error that the operating
/// system has reported: a negative one stands for that error.
pub open spec fn spec_cvt(return_code: i32, os_error: i32) -> Result<i32, i32> {
    if return_code < 0 {
        Err(os_error)
    } else {
        Ok(return_code)
    }
}

/// Converts a C-style return code and the error that goes with it.
pub fn cvt_with(return_code: i32, os_error: i32) -> (result: Result<i32, i32>)
    ensures
        result == spec_cvt(return_code, os_error),
{
    if return_code < 0 {
        Err(os_error)
    } else {
        Ok(return_code)
    }
}

/// Converts a C-style return code into a result.
///
/// The error is the one that the operating system last reported to this thread.
pub fn cvt(return_code: i32) -> (result: Result<i32, i32>)
    ensures
        return_code >= 0 ==> result == Ok::<i32, i32>(return_code),
        return_code < 0 ==> result is Err,
        exists|os_error: i32| result == #[trigger] spec_cvt(return_code, os_error),
{
    if return_code < 0 {
        let code: i32 = last_os_error().unwrap();
        cvt_with(return_code, code)
    } else {
        assert(spec_cvt(return_code, 0) == Ok::<i32, i32>(return_code));
        Ok(return_code)
    }
}

} // verus!
