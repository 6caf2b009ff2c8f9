//! What the server has from the host's C library, by way of the nix crate.

use vstd::prelude::*;

verus! {

/// The host's numbers for open flags and errors. They differ from one
/// architecture to the next.
#[derive(Clone, Copy, PartialEq, Eq, Structural, Debug)]
pub struct HostConstants {
    pub o_nofollow: i32,
    pub o_excl: i32,
    pub o_nonblock: i32,
    pub o_sync: i32,
    pub o_direct: i32,
    pub o_directory: i32,
    pub o_largefile: i32,
    pub o_noatime: i32,
    pub ebadf: i32,
    pub enoent: i32,
    pub enotsup: i32,
}

impl HostConstants {
    /// Error numbers are positive.
    pub open spec fn wf(self) -> bool {
        &&& self.ebadf > 0
        &&& self.enoent > 0
        &&& self.enotsup > 0
    }
}

/// Reads the constants of `nix::libc` for the host that the library is built for.
/// Claimed of them is only that the error numbers are positive: the values
/// themselves depend on the architecture.
#[verifier::external_body]
pub(crate) fn host_constants() -> (r: HostConstants)
    ensures
        r.wf(),
{
    HostConstants {
        o_nofollow: nix::libc::O_NOFOLLOW,
        o_excl: nix::libc::O_EXCL,
        o_nonblock: nix::libc::O_NONBLOCK,
        o_sync: nix::libc::O_SYNC,
        o_direct: nix::libc::O_DIRECT,
        o_directory: nix::libc::O_DIRECTORY,
        o_largefile: nix::libc::O_LARGEFILE,
        o_noatime: nix::libc::O_NOATIME,
        ebadf: nix::libc::EBADF,
        enoent: nix::libc::ENOENT,
        enotsup: nix::libc::ENOTSUP,
    }
}

/// Calls `nix::sys::stat::Mode::from_bits` and takes the bits of the mode it gives.
/// It accepts the nine permission bits and the set-user-id, set-group-id and
/// sticky bits, in any combination, and refuses a number with any other bit set.
#[verifier::external_body]
pub(crate) fn mode_from_bits(bits: u32) -> (r: Option<u32>)
    ensures
        r == (if bits <= 0o7777 {
            Some(bits)
        } else {
            None
        }),
{
    match nix::sys::stat::Mode::from_bits(bits) {
        Some(mode) => Some(mode.bits()),
        None => None,
    }
}

} // verus!
