//! Linux errno values, as on x86, x86-64, Arm, AArch64, RISC-V, PowerPC, s390x,
//! LoongArch, m68k and C-SKY.
//!
//! MIPS and SPARC number some of them otherwise. They are not supported: the shared
//! objects compare these values with those of the target, and do not build there.

use vstd::prelude::*;

verus! {

pub const EIO: i32 = 5;
pub const EBADF: i32 = 9;
pub const EAGAIN: i32 = 11;
pub const EACCES: i32 = 13;
pub const EINVAL: i32 = 22;
pub const ENFILE: i32 = 23;
pub const EDESTADDRREQ: i32 = 89;
pub const EOPNOTSUPP: i32 = 95;
pub const EAFNOSUPPORT: i32 = 97;
pub const EADDRINUSE: i32 = 98;
pub const EADDRNOTAVAIL: i32 = 99;
pub const ECONNABORTED: i32 = 103;
pub const ECONNRESET: i32 = 104;
pub const ENOTCONN: i32 = 107;
pub const ETIMEDOUT: i32 = 110;
pub const ECONNREFUSED: i32 = 111;
pub const EHOSTUNREACH: i32 = 113;
pub const EINPROGRESS: i32 = 115;

} // verus!
