//! What MinHook's return codes mean.
use crate::hooks;
use crate::text::push_decimal;
use vstd::prelude::*;

verus! {

/// The calls that succeeded.
pub open spec fn status_ok(code: i32) -> bool {
    code == 0
}

/// Success is 0; any other code is an error.
pub fn status(code: i32) -> (r: Result<(), String>)
    ensures
        r is Ok <==> status_ok(code),
        r is Err ==> r->Err_0@ == "MinHook status "@ + hooks::signed_decimal(code as int),
{
    if code == 0 {
        return Ok(());
    }
    let mut error = "MinHook status ".to_owned();
    if code < 0 {
        error.append("-");
        push_decimal(&mut error, (0 - code as i64) as u64);
    } else {
        push_decimal(&mut error, code as u64);
    }
    assert(error@ =~= "MinHook status "@ + hooks::signed_decimal(code as int));
    Err(error)
}

/// The initializations that succeeded.
pub open spec fn initialize_ok(code: i32) -> bool {
    code == 0 || code == 1
}

/// Initializing a library that is initialized already is no error.
pub fn initialize(code: i32) -> (r: Result<(), String>)
    ensures
        r is Ok <==> initialize_ok(code),
        r is Err ==> r->Err_0@ == "MinHook status "@ + hooks::signed_decimal(code as int),
{
    if code == 1 {
        Ok(())
    } else {
        status(code)
    }
}

} // verus!
