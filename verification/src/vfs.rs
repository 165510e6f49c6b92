//! The vocabulary of files: metadata, directory entries, poll events.
use vstd::prelude::*;

verus! {

/// The size of a page frame in bytes.
pub const PAGE_SIZE: usize = 4096;

/// A nanosecond field of this value asks that a timestamp be left alone.
pub const UTIME_OMIT: usize = 0x3fff_fffe;

/// A point in time.
#[derive(Clone, Copy, Debug, PartialEq, Eq, Structural)]
pub struct TimeSpec {
    pub sec: usize,
    pub nsec: usize,
}

impl Default for TimeSpec {
    fn default() -> (r: Self)
        ensures
            r == TimeSpec::zero(),
    {
        TimeSpec { sec: 0, nsec: 0 }
    }
}

impl TimeSpec {
    /// The start of the epoch.
    pub open spec fn zero() -> TimeSpec {
        TimeSpec { sec: 0, nsec: 0 }
    }
}

/// What sort of object a directory entry names.
#[derive(Clone, Copy, Debug, PartialEq, Eq, Structural)]
pub enum FileType {
    File,
    Directory,
    Device,
    Socket,
    Link,
}

/// One line of a directory listing.
#[derive(Debug)]
pub struct DirEntry {
    pub filename: String,
    pub len: usize,
    pub file_type: FileType,
}

/// File type and permission bits, as `stat` reports them.
#[derive(Clone, Copy, Debug, PartialEq, Eq, Structural)]
pub struct StatMode {
    pub bits: u32,
}

pub const MODE_FIFO: u32 = 0o010000;

pub const MODE_CHAR: u32 = 0o020000;

pub const MODE_DIR: u32 = 0o040000;

pub const MODE_FILE: u32 = 0o100000;

pub const MODE_LINK: u32 = 0o120000;

/// Read and write permission for owner, group and others.
pub const MODE_READ_WRITE_ALL: u32 = 0o666;

/// The metadata of a file.
#[derive(Clone, Copy, Debug, PartialEq, Eq, Structural)]
pub struct Stat {
    pub dev: u64,
    pub ino: u64,
    pub mode: StatMode,
    pub nlink: u32,
    pub uid: u32,
    pub gid: u32,
    pub rdev: u64,
    pub size: u64,
    pub blksize: u32,
    pub blocks: u64,
    pub atime: TimeSpec,
    pub mtime: TimeSpec,
    pub ctime: TimeSpec,
}

impl Default for Stat {
    fn default() -> (r: Self)
        ensures
            r == Stat::zero(),
    {
        let zero: TimeSpec = TimeSpec { sec: 0, nsec: 0 };
        Stat {
            dev: 0,
            ino: 0,
            mode: StatMode { bits: 0 },
            nlink: 0,
            uid: 0,
            gid: 0,
            rdev: 0,
            size: 0,
            blksize: 0,
            blocks: 0,
            atime: zero,
            mtime: zero,
            ctime: zero,
        }
    }
}

impl Stat {
    /// Metadata in which nothing has been filled in.
    pub open spec fn zero() -> Stat {
        Stat {
            dev: 0,
            ino: 0,
            mode: StatMode { bits: 0 },
            nlink: 0,
            uid: 0,
            gid: 0,
            rdev: 0,
            size: 0,
            blksize: 0,
            blocks: 0,
            atime: TimeSpec::zero(),
            mtime: TimeSpec::zero(),
            ctime: TimeSpec::zero(),
        }
    }
}

/// A set of readiness conditions.
#[derive(Clone, Copy, Debug, PartialEq, Eq, Structural)]
pub struct PollEvent {
    pub bits: u16,
}

pub const POLLIN: u16 = 0x001;

pub const POLLOUT: u16 = 0x004;

pub const POLLERR: u16 = 0x008;

impl PollEvent {
    /// Whether the condition with the single bit `event` is in the set.
    pub open spec fn has(self, event: u16) -> bool {
        self.bits & event == event
    }

    /// Whether the condition with the single bit `event` is in the set.
    pub fn contains(self, event: u16) -> (r: bool)
        ensures
            r == self.has(event),
    {
        self.bits & event == event
    }
}

/// `data` with the bytes from position `at` on replaced by `src`.
pub open spec fn overwrite(data: Seq<u8>, at: int, src: Seq<u8>) -> Seq<u8> {
    Seq::new(
        data.len(),
        |i: int|
            if at <= i < at + src.len() {
                src[i - at]
            } else {
                data[i]
            },
    )
}

/// The smaller of two numbers.
pub open spec fn min_int(a: int, b: int) -> int {
    if a <= b {
        a
    } else {
        b
    }
}

/// The larger of two numbers.
pub open spec fn max_int(a: int, b: int) -> int {
    if a >= b {
        a
    } else {
        b
    }
}

/// The smaller of two numbers.
pub fn min_usize(a: usize, b: usize) -> (r: usize)
    ensures
        r == min_int(a as int, b as int),
{
    if a <= b {
        a
    } else {
        b
    }
}

/// How many pages `size` bytes take.
pub open spec fn page_count(size: int) -> int {
    (size + PAGE_SIZE - 1) / PAGE_SIZE as int
}

/// How many pages `size` bytes take.
pub fn pages_for(size: usize) -> (r: usize)
    ensures
        r == page_count(size as int),
{
    let whole: usize = size / PAGE_SIZE;
    if size % PAGE_SIZE != 0 {
        whole + 1
    } else {
        whole
    }
}

/// Copies `n` bytes of `src`, from `from` on, into `page` at `at`.
pub fn copy_in(page: &mut Vec<u8>, at: usize, src: &[u8], from: usize, n: usize)
    requires
        at + n <= old(page)@.len(),
        from + n <= src@.len(),
    ensures
        final(page)@ == overwrite(
            old(page)@,
            at as int,
            src@.subrange(from as int, from + n),
        ),
{
    let ghost before = page@;
    assert(page.len() == before.len() && src.len() == src@.len());
    let mut k: usize = 0;
    while k < n
        invariant
            k <= n,
            at + n <= before.len() <= usize::MAX,
            from + n <= src@.len() <= usize::MAX,
            page@ == overwrite(before, at as int, src@.subrange(from as int, from + k)),
        decreases n - k,
    {
        page[at + k] = src[from + k];
        k = k + 1;
        assert(page@ =~= overwrite(before, at as int, src@.subrange(from as int, from + k)));
    }
    assert(page@ =~= overwrite(before, at as int, src@.subrange(from as int, from + n)));
}

/// Copies `n` bytes of `src`, from `from` on, into `buffer` at `at`.
pub fn copy_out(src: &[u8], from: usize, buffer: &mut [u8], at: usize, n: usize)
    requires
        at + n <= old(buffer)@.len(),
        from + n <= src@.len(),
    ensures
        final(buffer)@ == overwrite(
            old(buffer)@,
            at as int,
            src@.subrange(from as int, from + n),
        ),
{
    let ghost before = buffer@;
    assert(buffer.len() == before.len() && src.len() == src@.len());
    let mut k: usize = 0;
    while k < n
        invariant
            k <= n,
            at + n <= before.len() <= usize::MAX,
            from + n <= src@.len() <= usize::MAX,
            buffer@ == overwrite(before, at as int, src@.subrange(from as int, from + k)),
        decreases n - k,
    {
        buffer[at + k] = src[from + k];
        k = k + 1;
        assert(buffer@ =~= overwrite(before, at as int, src@.subrange(from as int, from + k)));
    }
    assert(buffer@ =~= overwrite(before, at as int, src@.subrange(from as int, from + n)));
}

/// Reads from constant contents: what is copied starts at `offset` and ends where the
/// contents or the buffer end.
pub open spec fn read_length(content: Seq<u8>, offset: int, room: int) -> int {
    if offset >= content.len() {
        0
    } else {
        min_int(room, content.len() - offset)
    }
}

/// Reads constant contents into a buffer.
pub fn read_content(content: &[u8], offset: usize, buffer: &mut [u8]) -> (r: usize)
    ensures
        r == read_length(content@, offset as int, old(buffer)@.len() as int),
        final(buffer)@ == overwrite(
            old(buffer)@,
            0,
            content@.subrange(
                min_int(offset as int, content@.len() as int),
                min_int(offset as int, content@.len() as int) + r,
            ),
        ),
{
    if offset >= content.len() {
        assert(buffer@ =~= overwrite(
            buffer@,
            0,
            content@.subrange(content@.len() as int, content@.len() as int),
        ));
        return 0;
    }
    let n: usize = min_usize(buffer.len(), content.len() - offset);
    copy_out(content, offset, buffer, 0, n);
    n
}

/// So many pages hold all the bytes, and no fewer would.
pub proof fn law_pages_hold_all_bytes(size: int)
    requires
        size >= 0,
    ensures
        page_count(size) * 4096 >= size,
        size > (page_count(size) - 1) * 4096,
        page_count(size) >= 0,
{
}

/// Overwriting puts the new bytes from the place on, as far as there is room, and leaves all other
/// bytes and the length alone.
pub proof fn law_overwrite_replaces_in_place(data: Seq<u8>, at: int, src: Seq<u8>, i: int)
    requires
        0 <= i < data.len(),
    ensures
        overwrite(data, at, src).len() == data.len(),
        i < at ==> overwrite(data, at, src)[i] == data[i],
        i >= at + src.len() ==> overwrite(data, at, src)[i] == data[i],
        at <= i < at + src.len() ==> overwrite(data, at, src)[i] == src[i - at],
{
}

/// The smaller and the larger of two numbers are the two numbers, in order.
pub proof fn law_smaller_and_larger(a: int, b: int)
    ensures
        min_int(a, b) <= a,
        min_int(a, b) <= b,
        min_int(a, b) == a || min_int(a, b) == b,
        max_int(a, b) >= a,
        max_int(a, b) >= b,
        max_int(a, b) == a || max_int(a, b) == b,
{
}

/// A read gives as many bytes as there are from the offset on and as there is room for, no more and
/// no fewer.
pub proof fn law_read_gives_what_is_there(content: Seq<u8>, offset: int, room: int)
    requires
        0 <= offset,
        0 <= room,
    ensures
        ({
            let n = read_length(content, offset, room);
            &&& 0 <= n <= room
            &&& offset <= content.len() ==> offset + n <= content.len()
            &&& offset >= content.len() ==> n == 0
            &&& offset < content.len() && n < room ==> offset + n == content.len()
        }),
{
}

/// Types of files and readiness conditions have the numbers of Linux.
pub proof fn law_numbers_of_files()
    ensures
        MODE_FIFO == 0x1000 && MODE_CHAR == 0x2000 && MODE_DIR == 0x4000 && MODE_FILE == 0x8000
            && MODE_LINK == 0xa000 && MODE_READ_WRITE_ALL == 0x1b6,
        POLLIN == 1 && POLLOUT == 4 && POLLERR == 8,
        UTIME_OMIT == 1073741822,
        PAGE_SIZE == 4096,
{
}

/// Fresh metadata and fresh times are zero throughout.
pub proof fn law_fresh_metadata_is_zero()
    ensures
        TimeSpec::zero().sec == 0 && TimeSpec::zero().nsec == 0,
        Stat::zero().dev == 0 && Stat::zero().ino == 0 && Stat::zero().mode.bits == 0,
        Stat::zero().nlink == 0 && Stat::zero().uid == 0 && Stat::zero().gid == 0,
        Stat::zero().rdev == 0 && Stat::zero().size == 0 && Stat::zero().blksize == 0,
        Stat::zero().blocks == 0 && Stat::zero().atime.sec == 0 && Stat::zero().atime.nsec == 0,
        Stat::zero().mtime.sec == 0 && Stat::zero().mtime.nsec == 0,
        Stat::zero().ctime.sec == 0 && Stat::zero().ctime.nsec == 0,
{
}

/// A condition is in a set exactly if its bit is.
pub proof fn law_conditions_are_bits(events: PollEvent)
    ensures
        events.has(POLLIN) <==> events.bits % 2 == 1,
        events.has(POLLOUT) <==> events.bits / 4 % 2 == 1,
        events.has(POLLERR) <==> events.bits / 8 % 2 == 1,
{
    let b = events.bits;
    assert((b & 1u16 == 1u16) == (b % 2u16 == 1u16) && (b & 4u16 == 4u16) == (b / 4u16 % 2u16 == 1u16)
        && (b & 8u16 == 8u16) == (b / 8u16 % 2u16 == 1u16)) by (bit_vector);
}

} // verus!
