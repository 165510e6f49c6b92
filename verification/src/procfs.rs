//! The files under `/proc` whose text is fixed.
use vstd::prelude::*;
use vstd::string::StringSliceAdditionalSpecFns;

use crate::errno::{Errno, VfsResult};
use crate::vfs::{
    min_int, overwrite, read_content, read_length, Stat, StatMode, MODE_CHAR,
};

verus! {

/// The text of `/proc/cpuinfo`.
pub const CPUINFO: &'static str = "processor	: 0
vendor_id	: MonkeyOS
cpu family	: 0
model		: 0
model name	: MonkeyOS Virtual CPU
stepping	: 0
microcode	: 0x1
cpu MHz		: 1000.000
cache size	: 256 KB
physical id	: 0
siblings	: 1
core id		: 0
cpu cores	: 1
apicid		: 0
initial apicid	: 0
fpu		: yes
fpu_exception	: yes
cpuid level	: 1
wp		: yes
flags		: fpu de pse tsc msr pae mce cx8 apic sep mtrr pge mca cmov pat pse36 clflush mmx fxsr sse sse2
bogomips	: 2000.00
clflush size	: 64
cache_alignment	: 64
address sizes	: 32 bits physical, 32 bits virtual
power management:

";

/// The text of `/proc/meminfo`.
pub const MEMINFO: &'static str = "MemTotal:        8388608 kB
MemFree:         4194304 kB
MemAvailable:    6291456 kB
Buffers:           65536 kB
Cached:          1048576 kB
SwapCached:            0 kB
Active:          2097152 kB
Inactive:         524288 kB
Active(anon):    1572864 kB
Inactive(anon):   262144 kB
Active(file):     524288 kB
Inactive(file):   262144 kB
Unevictable:           0 kB
Mlocked:               0 kB
SwapTotal:             0 kB
SwapFree:              0 kB
Dirty:                 0 kB
Writeback:             0 kB
AnonPages:       1572864 kB
Mapped:           262144 kB
Shmem:             65536 kB
KReclaimable:     131072 kB
Slab:             262144 kB
SReclaimable:     131072 kB
SUnreclaim:       131072 kB
KernelStack:       16384 kB
PageTables:        32768 kB
NFS_Unstable:          0 kB
Bounce:                0 kB
WritebackTmp:          0 kB
CommitLimit:     4194304 kB
Committed_AS:    2097152 kB
VmallocTotal:   34359738367 kB
VmallocUsed:      131072 kB
VmallocChunk:          0 kB
Percpu:            65536 kB
HardwareCorrupted:     0 kB
AnonHugePages:         0 kB
ShmemHugePages:        0 kB
ShmemPmdMapped:        0 kB
FileHugePages:         0 kB
FilePmdMapped:         0 kB
HugePages_Total:       0
HugePages_Free:        0
HugePages_Rsvd:        0
HugePages_Surp:        0
Hugepagesize:       2048 kB
Hugetlb:               0 kB
DirectMap4k:     2097152 kB
DirectMap2M:     6291456 kB
DirectMap1G:           0 kB
";

/// The text of `/proc/version`.
pub const VERSION: &'static str = "Linux version 5.10.0-7-riscv64 (MonkeyOS) (gcc version 9.4.0) #1 SMP PREEMPT Mon Jan 1 00:00:00 UTC 2024\n";

/// `/proc/cpuinfo`.
#[derive(Clone, Copy, Debug, PartialEq, Eq, Structural)]
pub struct CpuInfo {}

/// `/proc/meminfo`.
#[derive(Clone, Copy, Debug, PartialEq, Eq, Structural)]
pub struct MemInfo {}

/// `/proc/version`.
#[derive(Clone, Copy, Debug, PartialEq, Eq, Structural)]
pub struct Version {}

/// A read at `offset` has filled the front of the buffer with as much of the contents as there
/// is, or as fits, and left the rest of the buffer alone.
pub open spec fn content_read(
    content: Seq<u8>,
    offset: usize,
    before: Seq<u8>,
    after: Seq<u8>,
    result: VfsResult<usize>,
) -> bool {
    let n = read_length(content, offset as int, before.len() as int);
    let start = min_int(offset as int, content.len() as int);
    &&& result == Ok::<usize, Errno>(n as usize)
    &&& after == overwrite(before, 0, content.subrange(start, start + n))
}

/// The metadata of a file of `size` bytes, over what `stat` held before.
pub open spec fn proc_stat(stat: Stat, size: nat) -> Stat {
    Stat {
        dev: 0,
        ino: 1,
        mode: StatMode { bits: MODE_CHAR },
        nlink: 1,
        uid: 1000,
        gid: 1000,
        size: size as u64,
        blksize: 512,
        blocks: ((size + 511) / 512) as u64,
        rdev: 0,
        ..stat
    }
}

fn fill_stat(stat: &mut Stat, size: usize)
    ensures
        *final(stat) == proc_stat(*old(stat), size as nat),
{
    stat.dev = 0;
    stat.ino = 1;
    stat.mode = StatMode { bits: MODE_CHAR };
    stat.nlink = 1;
    stat.uid = 1000;
    stat.gid = 1000;
    stat.size = size as u64;
    stat.blksize = 512;
    let whole: usize = size / 512;
    stat.blocks = if size % 512 == 0 {
        whole as u64
    } else {
        (whole + 1) as u64
    };
    stat.rdev = 0;
}

impl CpuInfo {
    /// The file.
    pub fn new() -> (r: CpuInfo)
        ensures
            r == (CpuInfo {  }),
    {
        CpuInfo {  }
    }

    /// The bytes of the file.
    pub open spec fn content(&self) -> Seq<u8> {
        CPUINFO.spec_bytes()
    }

    /// The text of the file.
    pub fn generate_content() -> (r: String)
        ensures
            r@ == CPUINFO@,
    {
        CPUINFO.to_owned()
    }

    /// Reads from the file into `buffer`.
    pub fn readat(&self, offset: usize, buffer: &mut [u8]) -> (r: VfsResult<usize>)
        ensures
            content_read(self.content(), offset, old(buffer)@, final(buffer)@, r),
    {
        let content: String = CpuInfo::generate_content();
        Ok(read_content(content.as_str().as_bytes(), offset, buffer))
    }

    /// Fills in the metadata. The timestamps are left alone.
    pub fn stat(&self, stat: &mut Stat) -> (r: VfsResult<()>)
        ensures
            r == Ok::<(), Errno>(()),
            *final(stat) == proc_stat(*old(stat), self.content().len()),
    {
        let content: String = CpuInfo::generate_content();
        let size: usize = content.as_str().as_bytes().len();
        fill_stat(stat, size);
        Ok(())
    }
}

impl MemInfo {
    /// The file.
    pub fn new() -> (r: MemInfo)
        ensures
            r == (MemInfo {  }),
    {
        MemInfo {  }
    }

    /// The bytes of the file.
    pub open spec fn content(&self) -> Seq<u8> {
        MEMINFO.spec_bytes()
    }

    /// The text of the file.
    pub fn generate_content() -> (r: String)
        ensures
            r@ == MEMINFO@,
    {
        MEMINFO.to_owned()
    }

    /// Reads from the file into `buffer`.
    pub fn readat(&self, offset: usize, buffer: &mut [u8]) -> (r: VfsResult<usize>)
        ensures
            content_read(self.content(), offset, old(buffer)@, final(buffer)@, r),
    {
        let content: String = MemInfo::generate_content();
        Ok(read_content(content.as_str().as_bytes(), offset, buffer))
    }

    /// Fills in the metadata. The timestamps are left alone.
    pub fn stat(&self, stat: &mut Stat) -> (r: VfsResult<()>)
        ensures
            r == Ok::<(), Errno>(()),
            *final(stat) == proc_stat(*old(stat), self.content().len()),
    {
        let content: String = MemInfo::generate_content();
        let size: usize = content.as_str().as_bytes().len();
        fill_stat(stat, size);
        Ok(())
    }
}

impl Version {
    /// The file.
    pub fn new() -> (r: Version)
        ensures
            r == (Version {  }),
    {
        Version {  }
    }

    /// The bytes of the file.
    pub open spec fn content(&self) -> Seq<u8> {
        VERSION.spec_bytes()
    }

    /// The text of the file.
    pub fn generate_content() -> (r: String)
        ensures
            r@ == VERSION@,
    {
        VERSION.to_owned()
    }

    /// Reads from the file into `buffer`.
    pub fn readat(&self, offset: usize, buffer: &mut [u8]) -> (r: VfsResult<usize>)
        ensures
            content_read(self.content(), offset, old(buffer)@, final(buffer)@, r),
    {
        let content: String = Version::generate_content();
        Ok(read_content(content.as_str().as_bytes(), offset, buffer))
    }

    /// Fills in the metadata. The timestamps are left alone.
    pub fn stat(&self, stat: &mut Stat) -> (r: VfsResult<()>)
        ensures
            r == Ok::<(), Errno>(()),
            *final(stat) == proc_stat(*old(stat), self.content().len()),
    {
        let content: String = Version::generate_content();
        let size: usize = content.as_str().as_bytes().len();
        fill_stat(stat, size);
        Ok(())
    }
}

/// A read from the start with room for everything gives the whole contents.
pub proof fn law_read_whole(content: Seq<u8>, before: Seq<u8>, after: Seq<u8>, result: VfsResult<usize>)
    requires
        content.len() <= before.len() <= usize::MAX,
        content_read(content, 0, before, after, result),
    ensures
        result == Ok::<usize, Errno>(content.len() as usize),
        after.take(content.len() as int) == content,
        after.skip(content.len() as int) == before.skip(content.len() as int),
{
    assert(after.take(content.len() as int) =~= content);
    assert(after.skip(content.len() as int) =~= before.skip(content.len() as int));
}

/// Reading on where a read stopped continues the contents: two reads give what one read with the
/// room of both gives.
pub proof fn law_reads_join(content: Seq<u8>, offset: int, room: int, more: int)
    requires
        0 <= offset,
        0 <= room,
        0 <= more,
        read_length(content, offset, room) == room,
    ensures
        read_length(content, offset, room + more) == room + read_length(
            content,
            offset + room,
            more,
        ),
{
}

/// A read gives the bytes of the contents from the offset on, as many as there are and as there is
/// room for, and leaves the rest of the buffer alone.
pub proof fn law_read_gives_the_contents(
    content: Seq<u8>,
    offset: usize,
    before: Seq<u8>,
    after: Seq<u8>,
    result: VfsResult<usize>,
    i: int,
)
    requires
        content_read(content, offset, before, after, result),
        before.len() <= usize::MAX,
        0 <= i < before.len(),
    ensures
        result is Ok,
        ({
            let n = result->Ok_0 as int;
            &&& n <= before.len()
            &&& offset >= content.len() ==> n == 0
            &&& offset < content.len() ==> offset + n <= content.len()
            &&& offset < content.len() && n < before.len() ==> offset + n == content.len()
            &&& i < n ==> after[i] == content[offset + i]
            &&& i >= n ==> after[i] == before[i]
        }),
        after.len() == before.len(),
{
}

/// The metadata of these files: their size in bytes and in blocks of 512 bytes, and fixed numbers for
/// all else. The timestamps are left alone.
pub proof fn law_metadata_of_fixed_files(stat: Stat, size: nat)
    requires
        size <= u64::MAX - 511,
    ensures
        ({
            let s = proc_stat(stat, size);
            &&& s.size == size
            &&& s.blksize == 512
            &&& s.blocks * 512 >= size
            &&& size > (s.blocks - 1) * 512
            &&& s.mode.bits == 0x2000
            &&& s.ino == 1 && s.nlink == 1 && s.uid == 1000 && s.gid == 1000
            &&& s.dev == 0 && s.rdev == 0
            &&& s.atime == stat.atime && s.mtime == stat.mtime && s.ctime == stat.ctime
        }),
{
}

/// Each file holds its own text.
pub proof fn law_each_file_holds_its_text(c: CpuInfo, m: MemInfo, v: Version)
    ensures
        c.content() == CPUINFO.spec_bytes(),
        m.content() == MEMINFO.spec_bytes(),
        v.content() == VERSION.spec_bytes(),
{
}

} // verus!
