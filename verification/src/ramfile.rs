//! A regular file that lives in page frames.
use vstd::prelude::*;

use crate::errno::{Errno, VfsResult};
use crate::vfs::{
    copy_in, copy_out, max_int, min_int, min_usize, overwrite, page_count, pages_for, Stat,
    StatMode, TimeSpec, MODE_FILE, PAGE_SIZE, UTIME_OMIT,
};

verus! {

/// The bytes of one frame.
pub type Page = Vec<u8>;

/// Every page has the size of a frame, and all of them fit in the address space.
pub open spec fn pages_wf(pages: Seq<Page>) -> bool {
    &&& forall|i: int| 0 <= i < pages.len() ==> (#[trigger] pages[i])@.len() == PAGE_SIZE
    &&& pages.len() * PAGE_SIZE <= usize::MAX
}

/// The bytes of a list of pages, one after the other.
pub open spec fn flat(pages: Seq<Page>) -> Seq<u8> {
    Seq::new(
        pages.len() * PAGE_SIZE as nat,
        |i: int| pages[i / PAGE_SIZE as int]@[i % PAGE_SIZE as int],
    )
}

/// `data` with zeros from position `from` on.
pub open spec fn zeroed_from(data: Seq<u8>, from: int) -> Seq<u8> {
    Seq::new(
        data.len(),
        |i: int|
            if i < from {
                data[i]
            } else {
                0u8
            },
    )
}

/// How many frames are missing to hold `size` bytes in a file that has `have` frames.
pub open spec fn frames_missing(have: int, size: int) -> int {
    max_int(page_count(size) - have, 0)
}

/// How many of `wanted` bytes at `offset` find room in `have` frames.
pub open spec fn writable(have: int, offset: int, wanted: int) -> int {
    min_int(wanted, max_int(have * PAGE_SIZE - offset, 0))
}

proof fn lemma_flat_update(pages: Seq<Page>, index: int, page: Page, at: int, src: Seq<u8>)
    requires
        pages_wf(pages),
        0 <= index < pages.len(),
        0 <= at,
        at + src.len() <= PAGE_SIZE,
        page@ == overwrite(pages[index]@, at, src),
    ensures
        flat(pages.update(index, page)) == overwrite(flat(pages), index * PAGE_SIZE + at, src),
        pages_wf(pages.update(index, page)),
{
    let updated = pages.update(index, page);
    assert forall|i: int| 0 <= i < flat(pages).len() implies #[trigger] flat(updated)[i]
        == overwrite(flat(pages), index * PAGE_SIZE + at, src)[i] by {
        assert(pages[i / PAGE_SIZE as int]@.len() == PAGE_SIZE);
    }
    assert(flat(updated) =~= overwrite(flat(pages), index * PAGE_SIZE + at, src));
}

proof fn lemma_flat_add(a: Seq<Page>, b: Seq<Page>)
    ensures
        flat(a + b) == flat(a) + flat(b),
{
    assert(flat(a + b) =~= flat(a) + flat(b));
}

/// A regular file: its frames, and how many bytes of them count as contents.
pub struct RamFileInner {
    pub name: String,
    pub len: usize,
    pub pages: Vec<Page>,
    /// Change, access and modification time.
    pub times: [TimeSpec; 3],
}

impl RamFileInner {
    /// The frames have their proper size.
    pub open spec fn wf(&self) -> bool {
        pages_wf(self.pages@)
    }

    /// The bytes of all frames of the file.
    pub open spec fn data(&self) -> Seq<u8> {
        flat(self.pages@)
    }

    /// How many bytes a read of `wanted` bytes at `offset` gives.
    pub open spec fn readable(&self, offset: int, wanted: int) -> int {
        if offset >= self.len {
            0
        } else {
            min_int(wanted, self.len - offset)
        }
    }

    /// Every byte that a read of `wanted` bytes at `offset` gives lies in a frame.
    pub open spec fn backed(&self, offset: int, wanted: int) -> bool {
        self.readable(offset, wanted) > 0 ==> offset + self.readable(offset, wanted)
            <= self.data().len()
    }

    /// What a read of `wanted` bytes at `offset` gives.
    pub open spec fn contents(&self, offset: int, wanted: int) -> Seq<u8> {
        if self.readable(offset, wanted) <= 0 {
            Seq::empty()
        } else {
            self.data().subrange(offset, offset + self.readable(offset, wanted))
        }
    }

    /// What writing `buffer` at `offset` makes of `before`, when the frame allocator hands
    /// over the frames `granted` and then refuses, or nothing more is needed. A write that
    /// needs frames and gets none fails and changes nothing. Any other writes as many bytes
    /// as there is room for.
    pub open spec fn written(
        before: RamFileInner,
        after: RamFileInner,
        offset: int,
        buffer: Seq<u8>,
        granted: Seq<Page>,
        result: VfsResult<usize>,
    ) -> bool {
        let missing = frames_missing(before.pages@.len() as int, offset + buffer.len());
        let n = writable((before.pages@ + granted).len() as int, offset, buffer.len() as int);
        if missing > 0 && granted.len() == 0 {
            result == Err::<usize, Errno>(Errno::ENOMEM) && after == before
        } else {
            &&& result == Ok::<usize, Errno>(n as usize)
            &&& after.data() == overwrite(
                flat(before.pages@ + granted),
                offset,
                buffer.subrange(0, n),
            )
            &&& after.pages@.len() == before.pages@.len() + granted.len()
            &&& after.len == max_int(before.len as int, offset + n)
            &&& after.name == before.name
            &&& after.times == before.times
        }
    }

    /// What setting the size to `size` makes of `before`, when the frame allocator hands over
    /// the frames `granted` and then refuses, or nothing more is needed. All bytes behind the
    /// new end are cleared, frames are never given back, and missing frames are appended.
    pub open spec fn resized(
        before: RamFileInner,
        after: RamFileInner,
        size: int,
        granted: Seq<Page>,
        result: VfsResult<()>,
    ) -> bool {
        let missing = frames_missing(before.pages@.len() as int, size);
        &&& result == (if granted.len() == missing {
            Ok::<(), Errno>(())
        } else {
            Err(Errno::ENOMEM)
        })
        &&& after.len == size
        &&& after.data() == zeroed_from(before.data(), size) + flat(granted)
        &&& after.pages@.len() == before.pages@.len() + granted.len()
        &&& after.name == before.name
        &&& after.times == before.times
    }

    /// A file without contents.
    pub fn empty(name: &str) -> (r: RamFileInner)
        ensures
            r.wf(),
            r.name@ == name@,
            r.len == 0,
            r.pages@.len() == 0,
            r.times@ == seq![TimeSpec::zero(), TimeSpec::zero(), TimeSpec::zero()],
    {
        let zero: TimeSpec = TimeSpec { sec: 0, nsec: 0 };
        RamFileInner { name: name.to_owned(), len: 0, pages: Vec::new(), times: [zero, zero, zero] }
    }

    /// How many frames have to be allocated before `size` bytes have room.
    pub fn additional_pages(&self, size: usize) -> (r: usize)
        ensures
            r == frames_missing(self.pages@.len() as int, size as int),
    {
        let wanted: usize = pages_for(size);
        if wanted > self.pages.len() {
            wanted - self.pages.len()
        } else {
            0
        }
    }

    /// Reads from the file into `buffer`.
    pub fn readat(&self, offset: usize, buffer: &mut [u8]) -> (r: VfsResult<usize>)
        requires
            self.wf(),
            self.backed(offset as int, old(buffer)@.len() as int),
        ensures
            r == Ok::<usize, Errno>(
                self.readable(offset as int, old(buffer)@.len() as int) as usize,
            ),
            final(buffer)@ == overwrite(
                old(buffer)@,
                0,
                self.contents(offset as int, old(buffer)@.len() as int),
            ),
    {
        let ghost initial = buffer@;
        if offset >= self.len || buffer.len() == 0 {
            assert(buffer@ =~= overwrite(buffer@, 0, Seq::empty()));
            return Ok(0);
        }
        let read_len: usize = min_usize(buffer.len(), self.len - offset);
        let mut position: usize = offset;
        let mut last_len: usize = read_len;
        let mut buffer_off: usize = 0;
        assert(buffer@ =~= overwrite(initial, 0, self.data().subrange(offset as int, offset as int)));
        while last_len > 0
            invariant
                self.wf(),
                position == offset + buffer_off,
                buffer_off + last_len == read_len,
                read_len <= initial.len(),
                offset + read_len <= self.data().len(),
                buffer@ == overwrite(
                    initial,
                    0,
                    self.data().subrange(offset as int, offset + buffer_off),
                ),
            decreases last_len,
        {
            let within: usize = position % PAGE_SIZE;
            let curr_size: usize = min_usize(PAGE_SIZE - within, last_len);
            let index: usize = position / PAGE_SIZE;
            let ghost done = buffer@;
            assert(self.pages@[index as int]@.len() == PAGE_SIZE);
            copy_out(self.pages[index].as_slice(), within, buffer, buffer_off, curr_size);
            proof {
                let page = self.pages@[index as int]@;
                assert forall|i: int| 0 <= i < initial.len() implies #[trigger] buffer@[i]
                    == overwrite(
                    initial,
                    0,
                    self.data().subrange(offset as int, offset + buffer_off + curr_size),
                )[i] by {
                    if buffer_off <= i < buffer_off + curr_size {
                        let j = offset + i;
                        assert(j / PAGE_SIZE as int == index && j % PAGE_SIZE as int == within + (i
                            - buffer_off));
                    }
                }
                assert(buffer@ =~= overwrite(
                    initial,
                    0,
                    self.data().subrange(offset as int, offset + buffer_off + curr_size),
                ));
            }
            position = position + curr_size;
            last_len = last_len - curr_size;
            buffer_off = buffer_off + curr_size;
        }
        Ok(read_len)
    }

    /// Writes `buffer` at `offset`. `granted` are the frames that the allocator handed over for
    /// this write, no more than `additional_pages` asks for; it is shorter where the allocator
    /// ran dry.
    pub fn writeat(&mut self, offset: usize, buffer: &[u8], granted: Vec<Page>) -> (r: VfsResult<
        usize,
    >)
        requires
            old(self).wf(),
            offset + buffer@.len() <= usize::MAX,
            granted@.len() <= frames_missing(
                old(self).pages@.len() as int,
                offset + buffer@.len(),
            ),
            pages_wf(old(self).pages@ + granted@),
        ensures
            final(self).wf(),
            RamFileInner::written(
                *old(self),
                *final(self),
                offset as int,
                buffer@,
                granted@,
                r,
            ),
    {
        let ghost before = *self;
        let missing: usize = self.additional_pages(offset + buffer.len());
        if missing > 0 && granted.len() == 0 {
            return Err(Errno::ENOMEM);
        }
        let mut granted = granted;
        let ghost all = self.pages@ + granted@;
        self.pages.append(&mut granted);
        assert(self.pages@ =~= all);
        let available: usize = self.pages.len() * PAGE_SIZE;
        let room: usize = if offset < available {
            available - offset
        } else {
            0
        };
        let actual: usize = min_usize(buffer.len(), room);
        let mut wsize: usize = actual;
        let mut position: usize = offset;
        let mut buffer_off: usize = 0;
        assert(flat(self.pages@) =~= overwrite(flat(all), offset as int, buffer@.subrange(0, 0)));
        while wsize > 0
            invariant
                pages_wf(self.pages@),
                self.pages@.len() == all.len(),
                self.len == before.len,
                self.name == before.name,
                self.times == before.times,
                position == offset + buffer_off,
                buffer_off + wsize == actual,
                actual <= buffer@.len(),
                actual > 0 ==> offset + actual <= all.len() * PAGE_SIZE,
                all.len() * PAGE_SIZE <= usize::MAX,
                flat(self.pages@) == overwrite(
                    flat(all),
                    offset as int,
                    buffer@.subrange(0, buffer_off as int),
                ),
            decreases wsize,
        {
            let within: usize = position % PAGE_SIZE;
            let curr_size: usize = min_usize(PAGE_SIZE - within, wsize);
            let index: usize = position / PAGE_SIZE;
            let ghost pages = self.pages@;
            let ghost chunk = buffer@.subrange(buffer_off as int, buffer_off + curr_size);
            assert(pages[index as int]@.len() == PAGE_SIZE);
            copy_in(&mut self.pages[index], within, buffer, buffer_off, curr_size);
            proof {
                lemma_flat_update(pages, index as int, self.pages@[index as int], within as int, chunk);
                assert(self.pages@ =~= pages.update(index as int, self.pages@[index as int]));
                assert(index * PAGE_SIZE + within == position);
                assert(flat(self.pages@) =~= overwrite(
                    flat(all),
                    offset as int,
                    buffer@.subrange(0, buffer_off + curr_size),
                ));
            }
            position = position + curr_size;
            buffer_off = buffer_off + curr_size;
            wsize = wsize - curr_size;
        }
        if position > self.len {
            self.len = position;
        }
        Ok(actual)
    }

    /// Sets the size of the file. `granted` are the frames that the allocator handed over, no
    /// more than `additional_pages` asks for; it is shorter where the allocator ran dry.
    pub fn truncate(&mut self, size: usize, granted: Vec<Page>) -> (r: VfsResult<()>)
        requires
            old(self).wf(),
            granted@.len() <= frames_missing(old(self).pages@.len() as int, size as int),
            pages_wf(old(self).pages@ + granted@),
        ensures
            final(self).wf(),
            RamFileInner::resized(*old(self), *final(self), size as int, granted@, r),
    {
        let ghost before = *self;
        let missing: usize = self.additional_pages(size);
        self.len = size;
        let target_pages: usize = pages_for(size);
        let mut index: usize = target_pages;
        assert(flat(self.pages@) =~= before.data());
        while index < self.pages.len()
            invariant
                before.wf(),
                pages_wf(self.pages@),
                self.pages@.len() == before.pages@.len(),
                self.len == size,
                self.name == before.name,
                self.times == before.times,
                target_pages <= index,
                forall|i: int|
                    0 <= i < self.pages@.len() && (i < target_pages || i >= index)
                        ==> #[trigger] self.pages@[i] == before.pages@[i],
                forall|i: int, j: int|
                    target_pages <= i < index && i < self.pages@.len() && 0 <= j < PAGE_SIZE
                        ==> #[trigger] self.pages@[i]@[j] == 0,
            decreases self.pages@.len() - index,
        {
            let ghost pages = self.pages@;
            assert(pages[index as int]@.len() == PAGE_SIZE);
            clear_from(&mut self.pages[index], 0);
            assert(self.pages@ =~= pages.update(index as int, self.pages@[index as int]));
            index = index + 1;
        }
        let ghost cleared = self.pages@;
        if size % PAGE_SIZE != 0 {
            let page: usize = size / PAGE_SIZE;
            if page < self.pages.len() {
                assert(cleared[page as int]@.len() == PAGE_SIZE);
                clear_from(&mut self.pages[page], size % PAGE_SIZE);
                assert(self.pages@ =~= cleared.update(page as int, self.pages@[page as int]));
            }
        }
        proof {
            let now = flat(self.pages@);
            let wanted = zeroed_from(before.data(), size as int);
            assert forall|i: int| 0 <= i < now.len() implies #[trigger] now[i] == wanted[i] by {
                let p = i / PAGE_SIZE as int;
                let o = i % PAGE_SIZE as int;
                assert(self.pages@[p]@.len() == PAGE_SIZE);
                assert(cleared[p]@.len() == PAGE_SIZE);
                assert(before.pages@[p]@.len() == PAGE_SIZE);
                if p >= target_pages {
                    assert(cleared[p]@[o] == 0);
                }
            }
            assert(now =~= wanted);
            lemma_flat_add(self.pages@, granted@);
        }
        let short: bool = granted.len() < missing;
        let mut granted = granted;
        let ghost all = self.pages@ + granted@;
        proof {
            assert forall|i: int| 0 <= i < all.len() implies (#[trigger] all[i])@.len()
                == PAGE_SIZE by {
                assert((before.pages@ + granted@)[i]@.len() == PAGE_SIZE);
            }
        }
        self.pages.append(&mut granted);
        assert(self.pages@ =~= all);
        if short {
            Err(Errno::ENOMEM)
        } else {
            Ok(())
        }
    }

    /// The metadata of the file, over what `stat` held before.
    pub open spec fn stat_of(&self, stat: Stat) -> Stat {
        Stat {
            ino: if ends_in_dot_s(self.name@) {
                2
            } else {
                1
            },
            mode: StatMode { bits: MODE_FILE },
            nlink: 1,
            uid: 0,
            gid: 0,
            size: self.len as u64,
            blksize: 512,
            blocks: 0,
            rdev: 0,
            atime: self.times@[1],
            mtime: self.times@[2],
            ..stat
        }
    }

    /// Fills in the metadata of the file. Device number and change time are left alone.
    pub fn stat(&self, stat: &mut Stat) -> (r: VfsResult<()>)
        ensures
            r == Ok::<(), Errno>(()),
            *final(stat) == self.stat_of(*old(stat)),
    {
        if ends_with_dot_s(self.name.as_str()) {
            stat.ino = 2;
        } else {
            stat.ino = 1;
        }
        stat.mode = StatMode { bits: MODE_FILE };
        stat.nlink = 1;
        stat.uid = 0;
        stat.gid = 0;
        stat.size = self.len as u64;
        stat.blksize = 512;
        stat.blocks = 0;
        stat.rdev = 0;
        stat.atime = self.times[1];
        stat.mtime = self.times[2];
        Ok(())
    }

    /// Sets access and modification time, each unless it asks to be left alone.
    pub fn utimes(&mut self, times: &[TimeSpec]) -> (r: VfsResult<()>)
        requires
            times@.len() >= 2,
        ensures
            r == Ok::<(), Errno>(()),
            final(self).times@ == seq![
                old(self).times@[0],
                (if times@[0].nsec != UTIME_OMIT {
                    times@[0]
                } else {
                    old(self).times@[1]
                }),
                (if times@[1].nsec != UTIME_OMIT {
                    times@[1]
                } else {
                    old(self).times@[2]
                }),
            ],
            final(self).name == old(self).name,
            final(self).len == old(self).len,
            final(self).pages == old(self).pages,
    {
        if times[0].nsec != UTIME_OMIT {
            self.times[1] = times[0];
        }
        if times[1].nsec != UTIME_OMIT {
            self.times[2] = times[1];
        }
        assert(self.times@ =~= seq![self.times@[0], self.times@[1], self.times@[2]]);
        Ok(())
    }
}

/// The name ends in a dot and a small `s`.
pub open spec fn ends_in_dot_s(name: Seq<char>) -> bool {
    name.len() >= 2 && name[name.len() - 2] == '.' && name[name.len() - 1] == 's'
}

fn ends_with_dot_s(name: &str) -> (r: bool)
    ensures
        r == ends_in_dot_s(name@),
{
    let n: usize = name.unicode_len();
    n >= 2 && name.get_char(n - 2) == '.' && name.get_char(n - 1) == 's'
}

/// Clears a page from position `from` on.
fn clear_from(page: &mut Page, from: usize)
    ensures
        final(page)@ == zeroed_from(old(page)@, from as int),
{
    let ghost before = page@;
    let mut k: usize = from;
    while k < page.len()
        invariant
            page@.len() == before.len(),
            from <= k,
            from < before.len() ==> k <= before.len(),
            forall|i: int| 0 <= i < from && i < page@.len() ==> page@[i] == before[i],
            forall|i: int| from <= i < k && i < page@.len() ==> page@[i] == 0,
            forall|i: int| k <= i < page@.len() ==> page@[i] == before[i],
        decreases page@.len() - k,
    {
        page[k] = 0;
        k = k + 1;
    }
    assert(page@ =~= zeroed_from(before, from as int));
}

/// What was written is what a read at the same place gives, when the allocator granted every
/// frame that the write needed.
pub proof fn law_read_after_write(
    before: RamFileInner,
    after: RamFileInner,
    offset: int,
    buffer: Seq<u8>,
    granted: Seq<Page>,
    result: VfsResult<usize>,
)
    requires
        0 <= offset,
        offset + buffer.len() <= usize::MAX,
        granted.len() == frames_missing(before.pages@.len() as int, offset + buffer.len()),
        RamFileInner::written(before, after, offset, buffer, granted, result),
    ensures
        result == Ok::<usize, Errno>(buffer.len() as usize),
        after.backed(offset, buffer.len() as int),
        after.contents(offset, buffer.len() as int) == buffer,
{
    assert(buffer.subrange(0, buffer.len() as int) =~= buffer);
    assert(after.contents(offset, buffer.len() as int) =~= buffer);
}

/// Whatever the allocator granted, the bytes that a write reports as written are what a read
/// at the same place gives.
pub proof fn law_read_after_partial_write(
    before: RamFileInner,
    after: RamFileInner,
    offset: int,
    buffer: Seq<u8>,
    granted: Seq<Page>,
    result: VfsResult<usize>,
)
    requires
        0 <= offset,
        offset + buffer.len() <= usize::MAX,
        RamFileInner::written(before, after, offset, buffer, granted, result),
        result is Ok,
        result->Ok_0 > 0,
    ensures
        result->Ok_0 <= buffer.len(),
        after.backed(offset, result->Ok_0 as int),
        after.contents(offset, result->Ok_0 as int) == buffer.subrange(0, result->Ok_0 as int),
{
    let n = result->Ok_0 as int;
    assert(after.contents(offset, n) =~= buffer.subrange(0, n));
}

/// A write leaves every byte alone that it does not cover.
pub proof fn law_write_keeps_other_bytes(
    before: RamFileInner,
    after: RamFileInner,
    offset: int,
    buffer: Seq<u8>,
    granted: Seq<Page>,
    result: VfsResult<usize>,
    i: int,
)
    requires
        RamFileInner::written(before, after, offset, buffer, granted, result),
        0 <= i < before.data().len(),
        i < offset || i >= offset + buffer.len(),
    ensures
        after.data()[i] == before.data()[i],
        after.len >= before.len,
{
    lemma_flat_add(before.pages@, granted);
}

/// Cutting a file and growing it again shows zeros where the frames were cut off: nothing that
/// was written behind the cut comes back.
pub proof fn law_truncate_forgets(
    before: RamFileInner,
    middle: RamFileInner,
    after: RamFileInner,
    cut: int,
    size: int,
    granted: Seq<Page>,
    result: VfsResult<()>,
    i: int,
)
    requires
        RamFileInner::resized(before, middle, cut, Seq::empty(), Ok(())),
        RamFileInner::resized(middle, after, size, granted, result),
        0 <= cut <= i < before.data().len(),
    ensures
        after.data()[i] == 0,
{
    assert(flat(Seq::<Page>::empty()) =~= Seq::<u8>::empty());
}

/// Setting the size keeps the bytes in front of it.
pub proof fn law_truncate_keeps_prefix(
    before: RamFileInner,
    after: RamFileInner,
    size: int,
    granted: Seq<Page>,
    result: VfsResult<()>,
    i: int,
)
    requires
        RamFileInner::resized(before, after, size, granted, result),
        0 <= i < size,
        i < before.data().len(),
    ensures
        after.data()[i] == before.data()[i],
{
}

/// The bytes of a file lie in its pages one after the other, 4096 in each.
pub proof fn law_bytes_lie_in_pages(pages: Seq<Page>, k: int, i: int)
    requires
        0 <= k < pages.len(),
        0 <= i < 4096,
    ensures
        flat(pages).len() == pages.len() * 4096,
        flat(pages)[k * 4096 + i] == pages[k]@[i],
{
    assert((k * 4096 + i) / 4096 == k && (k * 4096 + i) % 4096 == i);
    assert(k * 4096 + i < pages.len() * 4096);
}

/// As many frames are missing as bring the file to the size, and no more.
pub proof fn law_missing_frames_suffice(have: int, size: int)
    requires
        have >= 0,
        size >= 0,
    ensures
        frames_missing(have, size) >= 0,
        (have + frames_missing(have, size)) * 4096 >= size,
        frames_missing(have, size) > 0 ==> (have + frames_missing(have, size) - 1) * 4096 < size,
{
}

/// A read gives the bytes from the offset on, up to the end of the file and as far as there is room.
pub proof fn law_read_gives_bytes_of_the_file(file: RamFileInner, offset: int, wanted: int, i: int)
    requires
        0 <= offset,
        0 <= wanted,
        file.backed(offset, wanted),
    ensures
        offset >= file.len ==> file.contents(offset, wanted).len() == 0,
        offset < file.len ==> file.contents(offset, wanted).len() <= file.len - offset,
        file.contents(offset, wanted).len() <= wanted,
        offset < file.len && file.contents(offset, wanted).len() < wanted ==> offset
            + file.contents(offset, wanted).len() == file.len,
        file.readable(offset, wanted) == file.contents(offset, wanted).len(),
        0 <= i < file.contents(offset, wanted).len() ==> file.contents(offset, wanted)[i] == flat(
            file.pages@,
        )[offset + i],
{
}

/// A write fails exactly if it needs frames and got none. Else it writes all bytes, or as many as
/// reach the end of the frames; the file is then at least so long, and never shorter than before. The
/// frames that it got are appended.
pub proof fn law_write_goes_as_far_as_the_frames(
    before: RamFileInner,
    after: RamFileInner,
    offset: int,
    buffer: Seq<u8>,
    granted: Seq<Page>,
    result: VfsResult<usize>,
    i: int,
)
    requires
        0 <= offset,
        offset + buffer.len() <= usize::MAX,
        RamFileInner::written(before, after, offset, buffer, granted, result),
        0 <= i < flat(granted).len(),
    ensures
        ({
            let have = (before.pages@.len() + granted.len()) * 4096;
            let short = before.pages@.len() * 4096 < offset + buffer.len();
            &&& result is Err <==> short && granted.len() == 0
            &&& result is Err ==> result->Err_0 == Errno::ENOMEM && after == before
            &&& result is Ok ==> {
                let n = result->Ok_0 as int;
                &&& 0 <= n <= buffer.len()
                &&& n > 0 ==> offset + n <= have
                &&& n < buffer.len() ==> offset + n >= have
                &&& after.len >= offset + n
                &&& after.len == before.len || after.len == offset + n
                &&& after.len >= before.len
                &&& after.pages@.len() == before.pages@.len() + granted.len()
                &&& after.data().len() == have
                &&& (before.pages@.len() * 4096 + i < offset || before.pages@.len() * 4096 + i
                    >= offset + buffer.len()) ==> after.data()[before.pages@.len() * 4096 + i]
                    == flat(granted)[i]
                &&& after.name == before.name
                &&& after.times == before.times
            }
        }),
{
    lemma_flat_add(before.pages@, granted);
}

/// Setting the size sets it, whatever the frame allocator answered; it fails exactly if frames are
/// missing. Bytes behind the new end are zero in the old frames, and new frames are appended.
pub proof fn law_truncate_sets_the_size(
    before: RamFileInner,
    after: RamFileInner,
    size: int,
    granted: Seq<Page>,
    result: VfsResult<()>,
    i: int,
    j: int,
)
    requires
        0 <= size,
        granted.len() <= frames_missing(before.pages@.len() as int, size),
        RamFileInner::resized(before, after, size, granted, result),
        0 <= i < before.data().len(),
        0 <= j < flat(granted).len(),
    ensures
        after.len == size,
        result is Ok <==> (before.pages@.len() + granted.len()) * 4096 >= size,
        result is Err ==> result->Err_0 == Errno::ENOMEM,
        after.pages@.len() == before.pages@.len() + granted.len(),
        i < size ==> after.data()[i] == before.data()[i],
        i >= size ==> after.data()[i] == 0,
        after.data()[before.data().len() + j] == flat(granted)[j],
        after.name == before.name,
        after.times == before.times,
{
}

/// The metadata of a file: its size, its access and modification times, and fixed numbers for all
/// else; names that end in `.s` have another number.
pub proof fn law_metadata_of_a_file(file: RamFileInner, stat: Stat)
    ensures
        ({
            let s = file.stat_of(stat);
            &&& s.size == file.len as u64
            &&& s.mode.bits == 0x8000
            &&& s.nlink == 1
            &&& s.uid == 0 && s.gid == 0 && s.blocks == 0 && s.rdev == 0
            &&& s.blksize == 512
            &&& s.atime == file.times@[1]
            &&& s.mtime == file.times@[2]
            &&& s.ctime == stat.ctime
            &&& s.dev == stat.dev
            &&& s.ino == 1 || s.ino == 2
            &&& s.ino == 2 <==> exists|p: Seq<char>| file.name@ == #[trigger] p.push('.').push('s')
        }),
{
    let name = file.name@;
    if ends_in_dot_s(name) {
        let p = name.take(name.len() - 2);
        assert(name =~= p.push('.').push('s'));
    }
    if exists|p: Seq<char>| name == #[trigger] p.push('.').push('s') {
        let p = choose|p: Seq<char>| name == #[trigger] p.push('.').push('s');
        assert(name[name.len() - 2] == '.' && name[name.len() - 1] == 's');
    }
}

} // verus!
