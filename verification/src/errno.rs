//! Error numbers, and how a system call's outcome is put into a register.
use vstd::prelude::*;

verus! {

/// The error conditions that the kernel reports to user programs.
#[derive(Clone, Copy, Debug, PartialEq, Eq, Structural)]
pub enum Errno {
    EPERM,
    ENOENT,
    E2BIG,
    EBADF,
    EAGAIN,
    ENOMEM,
    EFAULT,
    EEXIST,
    EINVAL,
    ENOMSG,
}

/// What a system call gives back: a value for the return register, or an error.
pub type SysResult = Result<usize, Errno>;

/// What a file operation gives back.
pub type VfsResult<T> = Result<T, Errno>;

impl Errno {
    /// Another name for the error of an operation that would have to wait.
    pub const EWOULDBLOCK: Errno = Errno::EAGAIN;

    /// The number that the Linux ABI gives to the error.
    pub open spec fn number(self) -> i32 {
        match self {
            Errno::EPERM => 1,
            Errno::ENOENT => 2,
            Errno::E2BIG => 7,
            Errno::EBADF => 9,
            Errno::EAGAIN => 11,
            Errno::ENOMEM => 12,
            Errno::EFAULT => 14,
            Errno::EEXIST => 17,
            Errno::EINVAL => 22,
            Errno::ENOMSG => 42,
        }
    }

    /// The error's number.
    pub fn into_raw(self) -> (r: i32)
        ensures
            r == self.number(),
            0 < r < 4096,
    {
        raw_number(self)
    }
}

/// `syscalls::Errno::into_raw` on the constant of the same name: the number that the
/// crate's table gives to the error.
#[verifier::external_body]
fn raw_number(e: Errno) -> (r: i32)
    ensures
        r == e.number(),
{
    match e {
        Errno::EPERM => syscalls::Errno::EPERM.into_raw(),
        Errno::ENOENT => syscalls::Errno::ENOENT.into_raw(),
        Errno::E2BIG => syscalls::Errno::E2BIG.into_raw(),
        Errno::EBADF => syscalls::Errno::EBADF.into_raw(),
        Errno::EAGAIN => syscalls::Errno::EAGAIN.into_raw(),
        Errno::ENOMEM => syscalls::Errno::ENOMEM.into_raw(),
        Errno::EFAULT => syscalls::Errno::EFAULT.into_raw(),
        Errno::EEXIST => syscalls::Errno::EEXIST.into_raw(),
        Errno::EINVAL => syscalls::Errno::EINVAL.into_raw(),
        Errno::ENOMSG => syscalls::Errno::ENOMSG.into_raw(),
    }
}

/// The register value of a system call's outcome: the value itself, or the error's
/// number taken from zero in two's complement.
pub open spec fn encoded(result: SysResult) -> int {
    match result {
        Ok(value) => value as int,
        Err(e) => usize::MAX + 1 - e.number(),
    }
}

/// Puts a system call's outcome into the shape of the return register.
pub fn encode_result(result: SysResult) -> (r: usize)
    ensures
        r == encoded(result),
{
    match result {
        Ok(value) => value,
        Err(e) => {
            let raw: i32 = e.into_raw();
            usize::MAX - (raw as usize - 1)
        },
    }
}

/// Values below the error window and errors never share a register value.
pub proof fn law_encoding_separates_errors(value: usize, e: Errno)
    requires
        value <= usize::MAX - 4095,
    ensures
        encoded(Ok(value)) != encoded(Err(e)),
{
}

/// An error in the return register is the negative of its number in two's complement: it and the
/// number add up to nothing in the width of the register. A value is there as it is.
pub proof fn law_errors_are_negative_numbers(e: Errno, value: usize)
    ensures
        encoded(Err(e)) + e.number() == usize::MAX + 1,
        encoded(Ok(value)) == value,
        Errno::EPERM.number() == 1 && Errno::ENOENT.number() == 2 && Errno::E2BIG.number() == 7
            && Errno::EBADF.number() == 9 && Errno::EAGAIN.number() == 11 && Errno::ENOMEM.number()
            == 12 && Errno::EFAULT.number() == 14 && Errno::EEXIST.number() == 17
            && Errno::EINVAL.number() == 22 && Errno::ENOMSG.number() == 42,
        Errno::EWOULDBLOCK == Errno::EAGAIN,
{
}

} // verus!
