//! The numbers and records of the file system calls.
use vstd::prelude::*;

verus! {

/// Stands for the working directory where a call takes an open directory.
pub const AT_CWD: isize = -100;

/// The commands of `fcntl`.
#[derive(Clone, Copy, Debug, PartialEq, Eq, Structural)]
pub enum FcntlCmd {
    /// Duplicate a file descriptor.
    DUPFD,
    /// Get the close-on-exec flag.
    GETFD,
    /// Set or clear the close-on-exec flag.
    SETFD,
    /// Get the status flags.
    GETFL,
    /// Set the status flags.
    SETFL,
    /// Get record locking information.
    GETLK,
    /// Set record locking information without waiting.
    SETLK,
    /// Set record locking information, waiting if need be.
    SETLKW,
    /// Duplicate a file descriptor and set the close-on-exec flag.
    DUPFDCLOEXEC,
}

impl FcntlCmd {
    /// The number of the command.
    pub open spec fn number(self) -> int {
        match self {
            FcntlCmd::DUPFD => 0,
            FcntlCmd::GETFD => 1,
            FcntlCmd::SETFD => 2,
            FcntlCmd::GETFL => 3,
            FcntlCmd::SETFL => 4,
            FcntlCmd::GETLK => 5,
            FcntlCmd::SETLK => 6,
            FcntlCmd::SETLKW => 7,
            FcntlCmd::DUPFDCLOEXEC => 0x406,
        }
    }

    /// The command with the number.
    pub fn from_usize(n: usize) -> (r: Option<FcntlCmd>)
        ensures
            r matches Some(cmd) ==> cmd.number() == n,
            r is None ==> forall|cmd: FcntlCmd| #[trigger] cmd.number() != n,
    {
        match n {
            0 => Some(FcntlCmd::DUPFD),
            1 => Some(FcntlCmd::GETFD),
            2 => Some(FcntlCmd::SETFD),
            3 => Some(FcntlCmd::GETFL),
            4 => Some(FcntlCmd::SETFL),
            5 => Some(FcntlCmd::GETLK),
            6 => Some(FcntlCmd::SETLK),
            7 => Some(FcntlCmd::SETLKW),
            0x406 => Some(FcntlCmd::DUPFDCLOEXEC),
            _ => None,
        }
    }
}

/// The operations of `futex`.
#[derive(Clone, Copy, Debug, PartialEq, Eq, Structural)]
pub enum FutexFlags {
    Wait,
    Wake,
    Fd,
    Requeue,
    CmpRequeue,
    WakeOp,
    LockPi,
    UnlockPi,
    TrylockPi,
    WaitBitset,
}

impl FutexFlags {
    /// The number of the operation.
    pub open spec fn number(self) -> int {
        match self {
            FutexFlags::Wait => 0,
            FutexFlags::Wake => 1,
            FutexFlags::Fd => 2,
            FutexFlags::Requeue => 3,
            FutexFlags::CmpRequeue => 4,
            FutexFlags::WakeOp => 5,
            FutexFlags::LockPi => 6,
            FutexFlags::UnlockPi => 7,
            FutexFlags::TrylockPi => 8,
            FutexFlags::WaitBitset => 9,
        }
    }

    /// The operation with the number.
    pub fn from_usize(n: usize) -> (r: Option<FutexFlags>)
        ensures
            r matches Some(op) ==> op.number() == n,
            r is None ==> forall|op: FutexFlags| #[trigger] op.number() != n,
    {
        match n {
            0 => Some(FutexFlags::Wait),
            1 => Some(FutexFlags::Wake),
            2 => Some(FutexFlags::Fd),
            3 => Some(FutexFlags::Requeue),
            4 => Some(FutexFlags::CmpRequeue),
            5 => Some(FutexFlags::WakeOp),
            6 => Some(FutexFlags::LockPi),
            7 => Some(FutexFlags::UnlockPi),
            8 => Some(FutexFlags::TrylockPi),
            9 => Some(FutexFlags::WaitBitset),
            _ => None,
        }
    }
}

/// A piece of user memory.
#[derive(Clone, Copy, Debug, PartialEq, Eq, Structural)]
pub struct IoVec {
    pub base: usize,
    pub len: usize,
}

/// File metadata as the C library of the 64-bit LoongArch ABI expects it.
#[derive(Clone, Copy, Debug, Default)]
pub struct KStat {
    pub st_dev: u64,
    pub st_ino: u64,
    pub st_mode: u32,
    pub st_nlink: u32,
    pub st_uid: u32,
    pub st_gid: u32,
    pub st_rdev: u64,
    pub __pad: u64,
    pub st_size: u64,
    pub st_blksize: u32,
    pub __pad2: u32,
    pub st_blocks: u64,
    pub st_atime_sec: i64,
    pub st_atime_nsec: i64,
    pub st_mtime_sec: i64,
    pub st_mtime_nsec: i64,
    pub st_ctime_sec: i64,
    pub st_ctime_nsec: i64,
    pub __unused: [u32; 2],
}

pub const AT_STATX_SYNC_TYPE: u32 = 0x6000;

pub const AT_STATX_SYNC_AS_STAT: u32 = 0x0000;

pub const AT_STATX_FORCE_SYNC: u32 = 0x2000;

pub const AT_STATX_DONT_SYNC: u32 = 0x4000;

pub const STATX_TYPE: u32 = 0x00000001;

pub const STATX_MODE: u32 = 0x00000002;

pub const STATX_NLINK: u32 = 0x00000004;

pub const STATX_UID: u32 = 0x00000008;

pub const STATX_GID: u32 = 0x00000010;

pub const STATX_ATIME: u32 = 0x00000020;

pub const STATX_MTIME: u32 = 0x00000040;

pub const STATX_CTIME: u32 = 0x00000080;

pub const STATX_INO: u32 = 0x00000100;

pub const STATX_SIZE: u32 = 0x00000200;

pub const STATX_BLOCKS: u32 = 0x00000400;

pub const STATX_BASIC_STATS: u32 = 0x000007ff;

pub const STATX_BTIME: u32 = 0x00000800;

pub const STATX_ALL: u32 = 0x00000fff;

/// A timestamp of `statx`.
#[derive(Clone, Copy, Debug, Default, PartialEq, Eq, Structural)]
pub struct StatxTimestamp {
    pub tv_sec: i64,
    pub tv_nsec: u32,
    pub __reserved: u32,
}

/// File metadata as `statx` reports it.
#[derive(Clone, Copy, Debug, Default)]
pub struct Statx {
    /// Which fields are valid.
    pub stx_mask: u32,
    pub stx_blksize: u32,
    pub stx_attributes: u64,
    pub stx_nlink: u32,
    pub stx_uid: u32,
    pub stx_gid: u32,
    pub stx_mode: u16,
    pub __spare0: [u16; 1],
    pub stx_ino: u64,
    pub stx_size: u64,
    /// How many blocks of 512 bytes the file takes.
    pub stx_blocks: u64,
    pub stx_attributes_mask: u64,
    pub stx_atime: StatxTimestamp,
    pub stx_btime: StatxTimestamp,
    pub stx_ctime: StatxTimestamp,
    pub stx_mtime: StatxTimestamp,
    pub stx_rdev_major: u32,
    pub stx_rdev_minor: u32,
    pub stx_dev_major: u32,
    pub stx_dev_minor: u32,
    pub __spare2: [u64; 14],
}

/// The basic bits of the `statx` mask are those of the single fields, and the birth time makes
/// them all.
pub proof fn law_statx_masks()
    ensures
        STATX_BASIC_STATS == STATX_TYPE | STATX_MODE | STATX_NLINK | STATX_UID | STATX_GID
            | STATX_ATIME | STATX_MTIME | STATX_CTIME | STATX_INO | STATX_SIZE | STATX_BLOCKS,
        STATX_ALL == STATX_BASIC_STATS | STATX_BTIME,
        AT_STATX_SYNC_TYPE == AT_STATX_FORCE_SYNC | AT_STATX_DONT_SYNC,
{
    assert(0x7ffu32 == 0x1u32 | 0x2u32 | 0x4u32 | 0x8u32 | 0x10u32 | 0x20u32 | 0x40u32 | 0x80u32
        | 0x100u32 | 0x200u32 | 0x400u32) by (bit_vector);
    assert(0xfffu32 == 0x7ffu32 | 0x800u32) by (bit_vector);
    assert(0x6000u32 == 0x2000u32 | 0x4000u32) by (bit_vector);
}

/// Different commands and operations have different numbers.
pub proof fn law_numbers_are_distinct(a: FcntlCmd, b: FcntlCmd, p: FutexFlags, q: FutexFlags)
    ensures
        a.number() == b.number() ==> a == b,
        p.number() == q.number() ==> p == q,
{
}

/// Commands and operations have the numbers of Linux.
pub proof fn law_numbers_of_commands()
    ensures
        FcntlCmd::DUPFD.number() == 0 && FcntlCmd::GETFD.number() == 1 && FcntlCmd::SETFD.number()
            == 2 && FcntlCmd::GETFL.number() == 3 && FcntlCmd::SETFL.number() == 4
            && FcntlCmd::GETLK.number() == 5 && FcntlCmd::SETLK.number() == 6
            && FcntlCmd::SETLKW.number() == 7 && FcntlCmd::DUPFDCLOEXEC.number() == 1030,
        FutexFlags::Wait.number() == 0 && FutexFlags::Wake.number() == 1 && FutexFlags::Fd.number()
            == 2 && FutexFlags::Requeue.number() == 3 && FutexFlags::CmpRequeue.number() == 4
            && FutexFlags::WakeOp.number() == 5 && FutexFlags::LockPi.number() == 6
            && FutexFlags::UnlockPi.number() == 7 && FutexFlags::TrylockPi.number() == 8
            && FutexFlags::WaitBitset.number() == 9,
        AT_CWD == -100,
        STATX_TYPE == 1 && STATX_MODE == 2 && STATX_NLINK == 4 && STATX_UID == 8 && STATX_GID == 16
            && STATX_ATIME == 32 && STATX_MTIME == 64 && STATX_CTIME == 128 && STATX_INO == 256
            && STATX_SIZE == 512 && STATX_BLOCKS == 1024 && STATX_BTIME == 2048,
{
}

} // verus!
