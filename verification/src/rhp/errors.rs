//! RHPv2 error codes and the errno values that they stand for.

use vstd::prelude::*;

use crate::errno::{
    EACCES, EADDRINUSE, EADDRNOTAVAIL, EAFNOSUPPORT, EBADF, EHOSTUNREACH, EINVAL, EIO, ENOTCONN,
    EOPNOTSUPP,
};

verus! {

/// The errno that stands for an RHP error code.
pub open spec fn errno_of(errcode: int) -> i32 {
    if errcode == 0 {
        0
    } else if errcode == 3 {
        EBADF
    } else if errcode == 6 {
        EADDRNOTAVAIL
    } else if errcode == 7 || errcode == 12 {
        EINVAL
    } else if errcode == 8 {
        EAFNOSUPPORT
    } else if errcode == 9 {
        EADDRINUSE
    } else if errcode == 14 {
        EACCES
    } else if errcode == 15 {
        EHOSTUNREACH
    } else if errcode == 16 {
        EOPNOTSUPP
    } else if errcode == 17 {
        ENOTCONN
    } else {
        EIO
    }
}

/// The name of an RHP error code.
pub open spec fn name_of(errcode: int) -> Seq<char> {
    if errcode == 0 {
        "Ok"@
    } else if errcode == 3 {
        "Invalid handle"@
    } else if errcode == 6 {
        "Invalid local address"@
    } else if errcode == 7 {
        "Invalid remote address"@
    } else if errcode == 8 {
        "Bad or missing family"@
    } else if errcode == 9 {
        "Duplicate socket"@
    } else if errcode == 12 {
        "Bad parameter"@
    } else if errcode == 14 {
        "Unauthorised"@
    } else if errcode == 15 {
        "No route"@
    } else if errcode == 16 {
        "Operation not supported"@
    } else if errcode == 17 {
        "Not connected"@
    } else {
        "Unspecified"@
    }
}

/// Maps an RHPv2 error code to an errno. Codes that are not listed map to `EIO`;
/// 0 (Ok) maps to 0.
pub fn errcode_to_errno(errcode: i64) -> (r: i32)
    ensures
        r == errno_of(errcode as int),
{
    match errcode {
        0 => 0,
        3 => EBADF,
        6 => EADDRNOTAVAIL,
        7 => EINVAL,
        8 => EAFNOSUPPORT,
        9 => EADDRINUSE,
        14 => EACCES,
        15 => EHOSTUNREACH,
        16 => EOPNOTSUPP,
        17 => ENOTCONN,
        12 => EINVAL,
        _ => EIO,
    }
}

/// A readable name for the common codes, for diagnostics.
pub fn errcode_name(errcode: i64) -> (r: &'static str)
    ensures
        r@ == name_of(errcode as int),
{
    match errcode {
        0 => "Ok",
        3 => "Invalid handle",
        6 => "Invalid local address",
        7 => "Invalid remote address",
        8 => "Bad or missing family",
        9 => "Duplicate socket",
        12 => "Bad parameter",
        14 => "Unauthorised",
        15 => "No route",
        16 => "Operation not supported",
        17 => "Not connected",
        _ => "Unspecified",
    }
}

/// Only the code 0 maps to the errno 0: an error never looks like success.
pub proof fn law_errors_stay_errors(errcode: int)
    ensures
        errno_of(errcode) == 0 <==> errcode == 0,
        errno_of(errcode) >= 0,
{
}

} // verus!
