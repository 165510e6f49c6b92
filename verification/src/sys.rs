//! System calls about the system and the process as a whole.
use vstd::prelude::*;
use vstd::string::StringSliceAdditionalSpecFns;

use crate::errno::{Errno, SysResult};
use crate::task::{
    ProcessControlBlock, ThreadControlBlock, TrapFrame, UserTask, RLIMIT_NOFILE,
};
use crate::user::UserTaskContainer;
use crate::usermem::UserWrite;
use crate::vfs::overwrite;

verus! {

/// The names of the system, in fields of fixed size.
pub struct UTSname {
    pub sysname: [u8; 65],
    pub nodename: [u8; 65],
    pub release: [u8; 65],
    pub version: [u8; 65],
    pub machine: [u8; 65],
    pub domainname: [u8; 65],
}

/// A limit on a resource: the value that holds, and the largest that can be set.
#[derive(Clone, Copy, Debug, PartialEq, Eq, Structural)]
pub struct Rlimit {
    pub curr: usize,
    pub max: usize,
}

/// The limit on the size of the stack.
pub const RLIMIT_STACK: usize = 3;

/// The limit on the size of core files.
pub const RLIMIT_CORE: usize = 4;

/// The state of the generator of random bytes.
#[derive(Clone, Copy, Debug, PartialEq, Eq, Structural)]
pub struct RandomState {
    pub seed: u64,
}

/// The seed with which the generator starts.
pub const RANDOM_SEED: u64 = 0xdead_beef_cafe_babe;

/// The factor from one seed to the next.
pub const RANDOM_FACTOR: u64 = 0x5851_f42d_4c95_7f2d;

impl RandomState {
    /// A generator that has given nothing yet.
    pub fn new() -> (r: RandomState)
        ensures
            r.seed == RANDOM_SEED,
    {
        RandomState { seed: RANDOM_SEED }
    }
}

/// The seed after `n` steps.
pub open spec fn seed_after(seed: u64, n: nat) -> u64
    decreases n,
{
    if n == 0 {
        seed
    } else {
        (seed_after(seed, (n - 1) as nat) * RANDOM_FACTOR % 0x1_0000_0000_0000_0000) as u64
    }
}

/// The first `n` bytes that the generator gives.
pub open spec fn random_bytes(seed: u64, n: nat) -> Seq<u8> {
    Seq::new(n, |i: int| (seed_after(seed, (i + 1) as nat) >> 33) as u8)
}

/// The codes of `arch_prctl`.
#[derive(Clone, Copy, Debug, PartialEq, Eq, Structural)]
pub enum ArchPrctlCode {
    ARCH_SET_GS,
    ARCH_SET_FS,
    ARCH_GET_FS,
    ARCH_GET_GS,
}

impl ArchPrctlCode {
    /// The number of the code.
    pub open spec fn number(self) -> int {
        match self {
            ArchPrctlCode::ARCH_SET_GS => 0x1001,
            ArchPrctlCode::ARCH_SET_FS => 0x1002,
            ArchPrctlCode::ARCH_GET_FS => 0x1003,
            ArchPrctlCode::ARCH_GET_GS => 0x1004,
        }
    }

    /// The code with the number.
    pub fn from_usize(n: usize) -> (r: Option<ArchPrctlCode>)
        ensures
            r matches Some(code) ==> code.number() == n,
            r is None ==> forall|code: ArchPrctlCode| #[trigger] code.number() != n,
    {
        match n {
            0x1001 => Some(ArchPrctlCode::ARCH_SET_GS),
            0x1002 => Some(ArchPrctlCode::ARCH_SET_FS),
            0x1003 => Some(ArchPrctlCode::ARCH_GET_FS),
            0x1004 => Some(ArchPrctlCode::ARCH_GET_GS),
            _ => None,
        }
    }
}

pub const MEMBARRIER_CMD_QUERY: usize = 0;

pub const MEMBARRIER_CMD_GLOBAL: usize = 1;

pub const MEMBARRIER_CMD_GLOBAL_EXPEDITED: usize = 2;

pub const MEMBARRIER_CMD_REGISTER_GLOBAL_EXPEDITED: usize = 3;

pub const MEMBARRIER_CMD_PRIVATE_EXPEDITED: usize = 4;

pub const MEMBARRIER_CMD_REGISTER_PRIVATE_EXPEDITED: usize = 5;

pub const MEMBARRIER_CMD_PRIVATE_EXPEDITED_SYNC_CORE: usize = 6;

pub const MEMBARRIER_CMD_REGISTER_PRIVATE_EXPEDITED_SYNC_CORE: usize = 7;

pub const MEMBARRIER_CMD_PRIVATE_EXPEDITED_RSEQ: usize = 8;

pub const MEMBARRIER_CMD_REGISTER_PRIVATE_EXPEDITED_RSEQ: usize = 9;

/// The commands that only register a process.
pub open spec fn registers(cmd: usize) -> bool {
    cmd == MEMBARRIER_CMD_REGISTER_GLOBAL_EXPEDITED || cmd
        == MEMBARRIER_CMD_REGISTER_PRIVATE_EXPEDITED || cmd
        == MEMBARRIER_CMD_REGISTER_PRIVATE_EXPEDITED_SYNC_CORE || cmd
        == MEMBARRIER_CMD_REGISTER_PRIVATE_EXPEDITED_RSEQ
}

/// The set of supported commands: one bit for each from 1 to 9.
pub const MEMBARRIER_SUPPORTED: usize = 0x3fe;

pub const PR_SET_PDEATHSIG: usize = 1;

pub const PR_GET_PDEATHSIG: usize = 2;

pub const PR_GET_DUMPABLE: usize = 3;

pub const PR_SET_DUMPABLE: usize = 4;

pub const PR_SET_NAME: usize = 15;

pub const PR_GET_NAME: usize = 16;

/// Puts a text into the front of a field and leaves the rest of the field alone.
fn put_name(field: &mut [u8; 65], text: &str)
    requires
        text.spec_bytes().len() <= 65,
    ensures
        final(field)@ == overwrite(old(field)@, 0, text.spec_bytes()),
{
    let bytes: &[u8] = text.as_bytes();
    let ghost before = field@;
    let mut i: usize = 0;
    while i < bytes.len()
        invariant
            bytes@.len() <= 65,
            i <= bytes@.len(),
            field@ == overwrite(before, 0, bytes@.take(i as int)),
            before.len() == 65,
        decreases bytes@.len() - i,
    {
        field[i] = bytes[i];
        i = i + 1;
        assert(field@ =~= overwrite(before, 0, bytes@.take(i as int)));
    }
    assert(bytes@.take(i as int) =~= bytes@);
    assert(field@ =~= overwrite(before, 0, bytes@));
}

/// A full memory fence: `std::sync::atomic::fence`. It orders memory accesses and has no result.
#[verifier::external_body]
fn memory_fence() {
    std::sync::atomic::fence(std::sync::atomic::Ordering::SeqCst)
}

/// The answer to a memory barrier command, and whether a fence comes with it.
pub fn membarrier_effect(cmd: usize) -> (r: (SysResult, bool))
    ensures
        r.0 == Ok::<usize, Errno>(
            if cmd == MEMBARRIER_CMD_QUERY {
                MEMBARRIER_SUPPORTED
            } else {
                0
            },
        ),
        r.1 == (cmd != MEMBARRIER_CMD_QUERY && !registers(cmd)),
{
    match cmd {
        MEMBARRIER_CMD_QUERY => {
            let supported: usize = (1usize << 1usize) | (1usize << 2usize) | (1usize << 3usize) | (
            1usize << 4usize) | (1usize << 5usize) | (1usize << 6usize) | (1usize << 7usize) | (
            1usize << 8usize) | (1usize << 9usize);
            assert((1usize << 1usize) | (1usize << 2usize) | (1usize << 3usize) | (1usize
                << 4usize) | (1usize << 5usize) | (1usize << 6usize) | (1usize << 7usize) | (1usize
                << 8usize) | (1usize << 9usize) == 0x3feusize) by (bit_vector);
            (Ok(supported), false)
        },
        MEMBARRIER_CMD_GLOBAL => (Ok(0), true),
        MEMBARRIER_CMD_GLOBAL_EXPEDITED => (Ok(0), true),
        MEMBARRIER_CMD_REGISTER_GLOBAL_EXPEDITED => (Ok(0), false),
        MEMBARRIER_CMD_PRIVATE_EXPEDITED => (Ok(0), true),
        MEMBARRIER_CMD_REGISTER_PRIVATE_EXPEDITED => (Ok(0), false),
        MEMBARRIER_CMD_PRIVATE_EXPEDITED_SYNC_CORE => (Ok(0), true),
        MEMBARRIER_CMD_REGISTER_PRIVATE_EXPEDITED_SYNC_CORE => (Ok(0), false),
        MEMBARRIER_CMD_PRIVATE_EXPEDITED_RSEQ => (Ok(0), true),
        MEMBARRIER_CMD_REGISTER_PRIVATE_EXPEDITED_RSEQ => (Ok(0), false),
        16 => (Ok(0), true),
        _ => (Ok(0), true),
    }
}

/// The limits after a limit has been set, and the limit that is then reported. A limit that was
/// never set for core files is infinite.
pub open spec fn limits_changed(
    before: Seq<usize>,
    after: Seq<usize>,
    resource: usize,
    new_limit: Option<Rlimit>,
    old_wanted: bool,
    reported: Option<Rlimit>,
) -> bool {
    let known = resource == RLIMIT_STACK || resource == RLIMIT_CORE || resource == RLIMIT_NOFILE;
    let roomy = if resource == RLIMIT_CORE && before.len() <= RLIMIT_CORE {
        before + Seq::new((8 - before.len()) as nat, |i: int| 0usize)
    } else {
        before
    };
    let value = if resource == RLIMIT_CORE && after.len() <= RLIMIT_CORE {
        usize::MAX
    } else {
        after[resource as int]
    };
    &&& after == (if known && new_limit is Some {
        roomy.update(resource as int, new_limit->0.max)
    } else {
        before
    })
    &&& reported == (if known && old_wanted {
        Some(Rlimit { curr: value, max: value })
    } else {
        None
    })
}

impl UserTaskContainer {
    /// Fills in the names of the system, over what was there.
    pub fn sys_uname(&self, uts: &mut UTSname) -> (r: SysResult)
        ensures
            r == Ok::<usize, Errno>(0),
            final(uts).sysname@ == overwrite(old(uts).sysname@, 0, "Linux".spec_bytes()),
            final(uts).nodename@ == overwrite(old(uts).nodename@, 0, "debian".spec_bytes()),
            final(uts).release@ == overwrite(
                old(uts).release@,
                0,
                "5.10.0-7-riscv64".spec_bytes(),
            ),
            final(uts).version@ == overwrite(
                old(uts).version@,
                0,
                "#1 SMP Debian 5.10.40-1 (2021-05-28)".spec_bytes(),
            ),
            final(uts).machine@ == overwrite(old(uts).machine@, 0, "riscv qemu".spec_bytes()),
            final(uts).domainname@ == old(uts).domainname@,
    {
        proof {
            reveal_strlit("Linux");
            reveal_strlit("debian");
            reveal_strlit("5.10.0-7-riscv64");
            reveal_strlit("#1 SMP Debian 5.10.40-1 (2021-05-28)");
            reveal_strlit("riscv qemu");
            reveal_strlit("");
            assert(vstd::string::is_ascii("Linux"));
            assert(vstd::string::is_ascii("debian"));
            assert(vstd::string::is_ascii("5.10.0-7-riscv64"));
            assert(vstd::string::is_ascii("#1 SMP Debian 5.10.40-1 (2021-05-28)"));
            assert(vstd::string::is_ascii("riscv qemu"));
            assert(vstd::string::is_ascii(""));
        }
        put_name(&mut uts.sysname, "Linux");
        put_name(&mut uts.nodename, "debian");
        put_name(&mut uts.release, "5.10.0-7-riscv64");
        put_name(&mut uts.version, "#1 SMP Debian 5.10.40-1 (2021-05-28)");
        put_name(&mut uts.machine, "riscv qemu");
        put_name(&mut uts.domainname, "");
        assert(uts.domainname@ =~= old(uts).domainname@);
        Ok(0)
    }

    /// Sets and reads a limit. `new_limit` is the limit to be set, if the program gives one, and
    /// `old_wanted` tells whether it wants to know the limit that then holds; that limit comes back
    /// with the outcome.
    pub fn sys_prlimit64(
        &self,
        pcb: &mut ProcessControlBlock,
        _pid: usize,
        resource: usize,
        new_limit: Option<Rlimit>,
        old_wanted: bool,
    ) -> (r: (SysResult, Option<Rlimit>))
        requires
            (resource == RLIMIT_STACK || resource == RLIMIT_NOFILE) && (new_limit is Some
                || old_wanted) ==> resource < old(pcb).rlimits@.len(),
        ensures
            r.0 == Ok::<usize, Errno>(0),
            *final(pcb) == (ProcessControlBlock { rlimits: final(pcb).rlimits, ..*old(pcb) }),
            limits_changed(
                old(pcb).rlimits@,
                final(pcb).rlimits@,
                resource,
                new_limit,
                old_wanted,
                r.1,
            ),
    {
        let ghost before = pcb.rlimits@;
        let mut reported: Option<Rlimit> = None;
        match resource {
            RLIMIT_STACK | RLIMIT_NOFILE => {
                if let Some(limit) = new_limit {
                    pcb.rlimits[resource] = limit.max;
                    assert(pcb.rlimits@ =~= before.update(resource as int, limit.max));
                }
                if old_wanted {
                    let value: usize = pcb.rlimits[resource];
                    reported = Some(Rlimit { curr: value, max: value });
                }
            },
            RLIMIT_CORE => {
                if let Some(limit) = new_limit {
                    if pcb.rlimits.len() <= RLIMIT_CORE {
                        pcb.rlimits.resize(8, 0);
                        assert(pcb.rlimits@ =~= before + Seq::new(
                            (8 - before.len()) as nat,
                            |i: int| 0usize,
                        ));
                    }
                    let ghost roomy = pcb.rlimits@;
                    pcb.rlimits[RLIMIT_CORE] = limit.max;
                    assert(pcb.rlimits@ =~= roomy.update(RLIMIT_CORE as int, limit.max));
                }
                if old_wanted {
                    let value: usize = if pcb.rlimits.len() <= RLIMIT_CORE {
                        usize::MAX
                    } else {
                        pcb.rlimits[RLIMIT_CORE]
                    };
                    reported = Some(Rlimit { curr: value, max: value });
                }
            },
            _ => {},
        }
        (Ok(0), reported)
    }

    /// Everyone is root.
    pub fn sys_geteuid(&self) -> (r: SysResult)
        ensures
            r == Ok::<usize, Errno>(0),
    {
        Ok(0)
    }

    /// Everyone is in the group of root.
    pub fn sys_getegid(&self) -> (r: SysResult)
        ensures
            r == Ok::<usize, Errno>(0),
    {
        Ok(0)
    }

    /// Everyone is in the group of root.
    pub fn sys_getgid(&self) -> (r: SysResult)
        ensures
            r == Ok::<usize, Errno>(0),
    {
        Ok(0)
    }

    /// Everyone is root.
    pub fn sys_getuid(&self) -> (r: SysResult)
        ensures
            r == Ok::<usize, Errno>(0),
    {
        Ok(0)
    }

    /// There is one process group.
    pub fn sys_getpgid(&self) -> (r: SysResult)
        ensures
            r == Ok::<usize, Errno>(0),
    {
        Ok(0)
    }

    /// Accepted without effect.
    pub fn sys_setpgid(&self, _pid: usize, _pgid: usize) -> (r: SysResult)
        ensures
            r == Ok::<usize, Errno>(0),
    {
        Ok(0)
    }

    /// Accepted without effect.
    pub fn sys_setuid(&self, _uid: usize) -> (r: SysResult)
        ensures
            r == Ok::<usize, Errno>(0),
    {
        Ok(0)
    }

    /// Accepted without effect.
    pub fn sys_setgid(&self, _gid: usize) -> (r: SysResult)
        ensures
            r == Ok::<usize, Errno>(0),
    {
        Ok(0)
    }

    /// Writes to the kernel log. `text` is what the program points to, if the pointer can be used;
    /// it comes back as what is to be printed.
    pub fn sys_klogctl(&self, _log_type: usize, text: Option<String>, _len: usize) -> (r: (
        SysResult,
        Option<String>,
    ))
        ensures
            r.0 == Ok::<usize, Errno>(0),
            r.1 == text,
    {
        (Ok(0), text)
    }

    /// Tells about the system: all that is stored is a three, if the pointer can be used.
    pub fn sys_info(&self, meminfo: usize, valid: bool) -> (r: (SysResult, Option<UserWrite>))
        ensures
            r.0 == Ok::<usize, Errno>(0),
            valid <==> r.1 is Some,
            r.1 matches Some(store) ==> store.addr == meminfo && store.bytes@ == seq![3u8],
    {
        if valid {
            let mut bytes: Vec<u8> = Vec::new();
            bytes.push(3);
            assert(bytes@ =~= seq![3u8]);
            (Ok(0), Some(UserWrite { addr: meminfo, bytes }))
        } else {
            (Ok(0), None)
        }
    }

    /// Accepted without effect.
    pub fn sys_sched_getparam(&self, _pid: usize, _param: usize) -> (r: SysResult)
        ensures
            r == Ok::<usize, Errno>(0),
    {
        Ok(0)
    }

    /// Accepted without effect.
    pub fn sys_sched_setscheduler(&self, _pid: usize, _policy: usize, _param: usize) -> (r:
        SysResult)
        ensures
            r == Ok::<usize, Errno>(0),
    {
        Ok(0)
    }

    /// Gives random bytes, which come back with the outcome.
    pub fn sys_getrandom(&self, rng: &mut RandomState, buf_len: usize, _flags: usize) -> (r: (
        SysResult,
        Vec<u8>,
    ))
        ensures
            r.0 == Ok::<usize, Errno>(buf_len),
            r.1@ == random_bytes(old(rng).seed, buf_len as nat),
            final(rng).seed == seed_after(old(rng).seed, buf_len as nat),
    {
        let ghost start = rng.seed;
        let mut out: Vec<u8> = Vec::new();
        let mut i: usize = 0;
        while i < buf_len
            invariant
                i <= buf_len,
                rng.seed == seed_after(start, i as nat),
                out@ == random_bytes(start, i as nat),
            decreases buf_len - i,
        {
            rng.seed = rng.seed.wrapping_mul(RANDOM_FACTOR);
            assert(rng.seed == seed_after(start, (i + 1) as nat));
            out.push((rng.seed >> 33) as u8);
            i = i + 1;
            assert(out@ =~= random_bytes(start, i as nat));
        }
        (Ok(buf_len), out)
    }

    /// Sets the register for thread-local storage. The other codes are not permitted.
    pub fn sys_arch_prctl(&mut self, code: usize, addr: usize) -> (r: SysResult)
        ensures
            r == (if code == ArchPrctlCode::ARCH_SET_FS.number() {
                Ok::<usize, Errno>(0)
            } else if exists|c: ArchPrctlCode| #[trigger] c.number() == code {
                Err(Errno::EPERM)
            } else {
                Err(Errno::EINVAL)
            }),
            *final(self) == (if code == ArchPrctlCode::ARCH_SET_FS.number() {
                UserTaskContainer {
                    task: UserTask {
                        tcb: ThreadControlBlock {
                            cx: TrapFrame { tls: addr, ..old(self).task.tcb.cx },
                            ..old(self).task.tcb
                        },
                        ..old(self).task
                    },
                    ..*old(self)
                }
            } else {
                *old(self)
            }),
    {
        match ArchPrctlCode::from_usize(code) {
            None => Err(Errno::EINVAL),
            Some(ArchPrctlCode::ARCH_SET_FS) => {
                self.task.tcb.cx.tls = addr;
                Ok(0)
            },
            Some(c) => {
                assert(c.number() == code);
                Err(Errno::EPERM)
            },
        }
    }

    /// Carries out a memory barrier command. Commands that are not known act as a barrier.
    pub fn sys_membarrier(&self, cmd: usize, _flags: usize, _cpu_id: usize) -> (r: SysResult)
        ensures
            r == Ok::<usize, Errno>(
                if cmd == MEMBARRIER_CMD_QUERY {
                    MEMBARRIER_SUPPORTED
                } else {
                    0
                },
            ),
    {
        let (result, fence) = membarrier_effect(cmd);
        if fence {
            memory_fence();
        }
        result
    }

    /// The session of a process: its own identifier, where zero stands for the caller.
    pub fn sys_getsid(&self, pid: usize) -> (r: SysResult)
        ensures
            r == Ok::<usize, Errno>(
                if pid == 0 {
                    self.tid
                } else {
                    pid
                },
            ),
    {
        if pid == 0 {
            Ok(self.tid)
        } else {
            Ok(pid)
        }
    }

    /// Process options: every process can be dumped, all else is accepted without effect.
    pub fn sys_prctl(
        &self,
        option: usize,
        _arg2: usize,
        _arg3: usize,
        _arg4: usize,
        _arg5: usize,
    ) -> (r: SysResult)
        ensures
            r == Ok::<usize, Errno>(
                if option == PR_GET_DUMPABLE {
                    1
                } else {
                    0
                },
            ),
    {
        match option {
            PR_SET_PDEATHSIG => Ok(0),
            PR_GET_PDEATHSIG => Ok(0),
            PR_SET_DUMPABLE => Ok(0),
            PR_GET_DUMPABLE => Ok(1),
            PR_SET_NAME => Ok(0),
            PR_GET_NAME => Ok(0),
            _ => Ok(0),
        }
    }

    /// Makes a device file: accepted without effect where the path can be read.
    pub fn sys_mknod(&self, path: Option<&str>, _mode: usize, _dev: usize) -> (r: SysResult)
        ensures
            r == (if path is Some {
                Ok::<usize, Errno>(0)
            } else {
                Err(Errno::EINVAL)
            }),
    {
        match path {
            Some(_) => Ok(0),
            None => Err(Errno::EINVAL),
        }
    }

    /// Makes a device file below a directory: accepted without effect where the path can be read.
    pub fn sys_mknodat(&self, _dirfd: usize, path: Option<&str>, _mode: usize, _dev: usize) -> (r:
        SysResult)
        ensures
            r == (if path is Some {
                Ok::<usize, Errno>(0)
            } else {
                Err(Errno::EINVAL)
            }),
    {
        match path {
            Some(_) => Ok(0),
            None => Err(Errno::EINVAL),
        }
    }
}

/// A limit that was set is the limit that is reported, and no other limit is affected.
pub proof fn law_limit_round_trip(
    before: Seq<usize>,
    after: Seq<usize>,
    resource: usize,
    limit: Rlimit,
    reported: Option<Rlimit>,
    other: int,
)
    requires
        resource == RLIMIT_STACK || resource == RLIMIT_CORE || resource == RLIMIT_NOFILE,
        resource == RLIMIT_CORE || resource < before.len(),
        limits_changed(before, after, resource, Some(limit), true, reported),
        0 <= other < before.len(),
        other != resource,
    ensures
        reported == Some(Rlimit { curr: limit.max, max: limit.max }),
        after[other] == before[other],
{
}

/// Asking for random bytes in two portions gives the same bytes as asking for them at once.
pub proof fn law_random_portions(seed: u64, a: nat, b: nat)
    ensures
        random_bytes(seed, a) + random_bytes(seed_after(seed, a), b) == random_bytes(seed, a + b),
        seed_after(seed_after(seed, a), b) == seed_after(seed, a + b),
{
    lemma_seed_split(seed, a, b);
    assert forall|i: int| 0 <= i < b implies #[trigger] random_bytes(
        seed_after(seed, a),
        b,
    )[i] == random_bytes(seed, a + b)[a + i] by {
        lemma_seed_split(seed, a, (i + 1) as nat);
    }
    assert(random_bytes(seed, a) + random_bytes(seed_after(seed, a), b) =~= random_bytes(
        seed,
        a + b,
    ));
}

proof fn lemma_seed_split(seed: u64, a: nat, b: nat)
    ensures
        seed_after(seed_after(seed, a), b) == seed_after(seed, a + b),
    decreases b,
{
    if b > 0 {
        lemma_seed_split(seed, a, (b - 1) as nat);
    }
}

/// Each seed is the one before times a fixed factor, cut to 64 bits, and each random byte is bits 33
/// to 40 of its seed.
pub proof fn law_random_bytes_follow_the_seed(seed: u64, n: nat)
    requires
        n > 0,
    ensures
        seed_after(seed, 0) == seed,
        seed_after(seed, n) == (seed_after(seed, (n - 1) as nat) * 0x5851_f42d_4c95_7f2d)
            % 0x1_0000_0000_0000_0000,
        random_bytes(seed, n).len() == n,
        random_bytes(seed, n)[n - 1] == seed_after(seed, n) / 0x2_0000_0000 % 256,
        RANDOM_SEED == 0xdead_beef_cafe_babe,
{
    let s = seed_after(seed, n);
    assert((s >> 33u64) as u8 == s / 0x2_0000_0000u64 % 256u64) by (bit_vector);
}

/// Only the limits on the stack, on core files and on open files can be set and read. What is set is
/// the largest value of the new limit. All other limits stay. Nothing is set where no limit is given,
/// and nothing is reported where nobody asks. A limit on core files that there is no place for is
/// infinite until it is set.
pub proof fn law_limits(
    before: Seq<usize>,
    after: Seq<usize>,
    resource: usize,
    new_limit: Option<Rlimit>,
    old_wanted: bool,
    reported: Option<Rlimit>,
    other: int,
)
    requires
        limits_changed(before, after, resource, new_limit, old_wanted, reported),
        (resource == 3 || resource == 7) && (new_limit is Some || old_wanted) ==> resource
            < before.len(),
        0 <= other < before.len(),
        other != resource,
    ensures
        after[other] == before[other],
        resource != 3 && resource != 4 && resource != 7 ==> after == before && reported is None,
        new_limit is None ==> after == before,
        !old_wanted ==> reported is None,
        (resource == 3 || resource == 4 || resource == 7) && new_limit is Some ==> after.len()
            > resource && after[resource as int] == new_limit->0.max,
        (resource == 3 || resource == 4 || resource == 7) && old_wanted ==> {
            &&& reported is Some
            &&& reported->0.curr == reported->0.max
            &&& resource < after.len() ==> reported->0.curr == after[resource as int]
            &&& resource >= after.len() ==> reported->0.curr == usize::MAX
        },
        before.len() > 4 || resource != 4 || new_limit is None ==> after.len() == before.len(),
        before.len() <= 4 && resource == 4 && new_limit is Some ==> after.len() == 8 && after[7]
            == 0,
{
}

/// The numbers of codes, commands and options are those of Linux. Commands that only register a
/// process have odd numbers from 3 to 9.
pub proof fn law_numbers_of_system_calls(cmd: usize)
    ensures
        ArchPrctlCode::ARCH_SET_GS.number() == 0x1001,
        ArchPrctlCode::ARCH_SET_FS.number() == 0x1002,
        ArchPrctlCode::ARCH_GET_FS.number() == 0x1003,
        ArchPrctlCode::ARCH_GET_GS.number() == 0x1004,
        registers(cmd) <==> 3 <= cmd <= 9 && cmd % 2 == 1,
        MEMBARRIER_CMD_QUERY == 0 && MEMBARRIER_SUPPORTED == 1022,
        MEMBARRIER_CMD_GLOBAL == 1 && MEMBARRIER_CMD_GLOBAL_EXPEDITED == 2,
        PR_SET_PDEATHSIG == 1 && PR_GET_PDEATHSIG == 2 && PR_GET_DUMPABLE == 3 && PR_SET_DUMPABLE
            == 4 && PR_SET_NAME == 15 && PR_GET_NAME == 16,
        RLIMIT_STACK == 3 && RLIMIT_CORE == 4 && RLIMIT_NOFILE == 7,
{
}

} // verus!
