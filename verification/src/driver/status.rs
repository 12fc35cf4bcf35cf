//! System status numbers.

use vstd::prelude::*;

verus! {

pub const STATUS_SUCCESS: i32 = 0;

pub const STATUS_ACCESS_DENIED: i32 = -1_073_741_790;

pub const STATUS_INVALID_PARAMETER: i32 = -1_073_741_811;

pub const STATUS_NO_MEMORY: i32 = -1_073_741_801;

pub const STATUS_NOT_SUPPORTED: i32 = -1_073_741_637;

pub const STATUS_OBJECT_NAME_NOT_FOUND: i32 = -1_073_741_772;

/// The configuration of a device is not there.
pub const STATUS_CONFIGURATION_NOT_FOUND: i32 = -1_073_741_776;

pub const STATUS_UNSUCCESSFUL: i32 = -1_073_741_823;

pub const ERROR_FILE_NOT_FOUND: u32 = 2;

pub const ERROR_PATH_NOT_FOUND: u32 = 3;

pub const ERROR_ACCESS_DENIED: u32 = 5;

pub const ERROR_NOT_ENOUGH_MEMORY: u32 = 8;

pub const ERROR_OUTOFMEMORY: u32 = 14;

/// The status that stands for a system error number.
pub open spec fn spec_error_status(error: u32) -> i32 {
    if error == ERROR_ACCESS_DENIED {
        STATUS_ACCESS_DENIED
    } else if error == ERROR_FILE_NOT_FOUND || error == ERROR_PATH_NOT_FOUND {
        STATUS_OBJECT_NAME_NOT_FOUND
    } else if error == ERROR_NOT_ENOUGH_MEMORY || error == ERROR_OUTOFMEMORY {
        STATUS_NO_MEMORY
    } else {
        STATUS_UNSUCCESSFUL
    }
}

pub fn error_status(error: u32) -> (status: i32)
    ensures
        status == spec_error_status(error),
{
    match error {
        ERROR_ACCESS_DENIED => STATUS_ACCESS_DENIED,
        ERROR_FILE_NOT_FOUND | ERROR_PATH_NOT_FOUND => STATUS_OBJECT_NAME_NOT_FOUND,
        ERROR_NOT_ENOUGH_MEMORY | ERROR_OUTOFMEMORY => STATUS_NO_MEMORY,
        _ => STATUS_UNSUCCESSFUL,
    }
}

/// What an error of the system is to the driver: a refusal, something that is
/// not there, memory that is short, and a failure in all other cases.
pub proof fn law_error_statuses(error: u32)
    ensures
        error == 5 ==> spec_error_status(error) == -1_073_741_790,
        error == 2 || error == 3 ==> spec_error_status(error) == -1_073_741_772,
        error == 8 || error == 14 ==> spec_error_status(error) == -1_073_741_801,
        error != 2 && error != 3 && error != 5 && error != 8 && error != 14 ==> spec_error_status(
            error,
        ) == -1_073_741_823,
{
}

} // verus!
