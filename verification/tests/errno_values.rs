//! The errno values and option numbers are those of the system.

use pdn_ax25::errno;
use pdn_ax25::interpose::addr::{AF_AX25, SOCK_DGRAM, SOCK_SEQPACKET};
use pdn_ax25::interpose::state::{SOCK_CLOEXEC, SOCK_NONBLOCK, SOL_SOCKET, SO_ERROR};

#[test]
fn errno_values_are_those_of_the_system() {
    let table = [
        (errno::EIO, libc::EIO),
        (errno::EBADF, libc::EBADF),
        (errno::EAGAIN, libc::EAGAIN),
        (errno::EACCES, libc::EACCES),
        (errno::EINVAL, libc::EINVAL),
        (errno::ENFILE, libc::ENFILE),
        (errno::EDESTADDRREQ, libc::EDESTADDRREQ),
        (errno::EOPNOTSUPP, libc::EOPNOTSUPP),
        (errno::EAFNOSUPPORT, libc::EAFNOSUPPORT),
        (errno::EADDRINUSE, libc::EADDRINUSE),
        (errno::EADDRNOTAVAIL, libc::EADDRNOTAVAIL),
        (errno::ECONNABORTED, libc::ECONNABORTED),
        (errno::ECONNRESET, libc::ECONNRESET),
        (errno::ENOTCONN, libc::ENOTCONN),
        (errno::ETIMEDOUT, libc::ETIMEDOUT),
        (errno::ECONNREFUSED, libc::ECONNREFUSED),
        (errno::EHOSTUNREACH, libc::EHOSTUNREACH),
        (errno::EINPROGRESS, libc::EINPROGRESS),
    ];
    for (ours, system) in table {
        assert_eq!(ours, system);
    }
}

#[test]
fn socket_numbers_are_those_of_the_system() {
    assert_eq!(AF_AX25, libc::AF_AX25);
    assert_eq!(SOCK_SEQPACKET, libc::SOCK_SEQPACKET);
    assert_eq!(SOCK_DGRAM, libc::SOCK_DGRAM);
    assert_eq!(SOCK_CLOEXEC, libc::SOCK_CLOEXEC);
    assert_eq!(SOCK_NONBLOCK, libc::SOCK_NONBLOCK);
    assert_eq!(SOL_SOCKET, libc::SOL_SOCKET);
    assert_eq!(SO_ERROR, libc::SO_ERROR);
}
