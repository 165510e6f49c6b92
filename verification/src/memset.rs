//! Address spaces: frames, memory areas and the page table.
use std::collections::BTreeMap;
use std::sync::Arc;
use vstd::prelude::*;

use crate::vfs::PAGE_SIZE;

verus! {

/// A page frame, by its physical address. The frame is free again when the last owner is gone.
#[derive(Debug, PartialEq, Eq, Structural)]
pub struct FrameTracker {
    pub paddr: usize,
}

/// The number by which the file layer knows an open file.
pub type FileId = usize;

/// What an area of memory is for.
#[derive(Clone, Copy, Debug, PartialEq, Eq, Structural)]
pub enum MemType {
    Stack,
    CodeSection,
    Mmap,
    Shared,
    ShareFile,
}

/// What a user program may do with a page.
#[derive(Clone, Copy, Debug, PartialEq, Eq, Structural)]
pub enum MappingFlags {
    /// Read and execute.
    URX,
    /// Read and write.
    URW,
    /// Read, write and execute.
    URWX,
}

/// A frame, and the page that it is for.
#[derive(Debug)]
pub struct MapTrack {
    pub vaddr: usize,
    pub tracker: Arc<FrameTracker>,
    pub rwx: u8,
}

impl Clone for MapTrack {
    fn clone(&self) -> (r: Self)
        ensures
            r == *self,
    {
        MapTrack { vaddr: self.vaddr, tracker: self.tracker.clone(), rwx: self.rwx }
    }
}

/// An area of an address space.
#[derive(Debug)]
pub struct MemArea {
    pub mtype: MemType,
    pub mtrackers: Vec<MapTrack>,
    pub file: Option<FileId>,
    pub offset: usize,
    pub start: usize,
    pub len: usize,
}

/// An area, mathematically.
pub struct AreaView {
    pub mtype: MemType,
    pub mtrackers: Seq<MapTrack>,
    pub file: Option<FileId>,
    pub offset: usize,
    pub start: usize,
    pub len: usize,
}

impl AreaView {
    /// The address lies in the area.
    pub open spec fn holds(self, vaddr: int) -> bool {
        self.start <= vaddr < self.start + self.len
    }
}

impl View for MemArea {
    type V = AreaView;

    open spec fn view(&self) -> AreaView {
        AreaView {
            mtype: self.mtype,
            mtrackers: self.mtrackers@,
            file: self.file,
            offset: self.offset,
            start: self.start,
            len: self.len,
        }
    }
}

impl Clone for MemArea {
    fn clone(&self) -> (r: Self)
        ensures
            r@ == self@,
    {
        let mtrackers: Vec<MapTrack> = clone_tracks(&self.mtrackers);
        MemArea {
            mtype: self.mtype,
            mtrackers,
            file: self.file,
            offset: self.offset,
            start: self.start,
            len: self.len,
        }
    }
}

impl MemArea {
    /// Whether the address lies in the area.
    pub fn contains(&self, vaddr: usize) -> (r: bool)
        ensures
            r == self@.holds(vaddr as int),
    {
        vaddr >= self.start && vaddr - self.start < self.len
    }
}

/// A copy of a list of tracked frames; both lists own the frames.
pub fn clone_tracks(tracks: &Vec<MapTrack>) -> (r: Vec<MapTrack>)
    ensures
        r@ == tracks@,
{
    let mut out: Vec<MapTrack> = Vec::new();
    let mut i: usize = 0;
    while i < tracks.len()
        invariant
            i <= tracks@.len(),
            out@ == tracks@.take(i as int),
        decreases tracks@.len() - i,
    {
        out.push(tracks[i].clone());
        i = i + 1;
        assert(out@ =~= tracks@.take(i as int));
    }
    assert(out@ =~= tracks@);
    out
}

/// The areas of an address space, in the order in which they were made.
pub struct MemSet {
    pub areas: Vec<MemArea>,
}

impl View for MemSet {
    type V = Seq<AreaView>;

    open spec fn view(&self) -> Seq<AreaView> {
        self.areas@.map_values(|a: MemArea| a@)
    }
}

impl MemSet {
    /// An address space with the given areas.
    pub fn new(areas: Vec<MemArea>) -> (r: MemSet)
        ensures
            r@ == areas@.map_values(|a: MemArea| a@),
    {
        MemSet { areas }
    }
}

impl Clone for MemSet {
    fn clone(&self) -> (r: Self)
        ensures
            r@ == self@,
    {
        let mut areas: Vec<MemArea> = Vec::new();
        let mut i: usize = 0;
        while i < self.areas.len()
            invariant
                i <= self.areas@.len(),
                areas@.len() == i,
                forall|j: int| 0 <= j < i ==> (#[trigger] areas@[j])@ == self.areas@[j]@,
            decreases self.areas@.len() - i,
        {
            areas.push(self.areas[i].clone());
            i = i + 1;
        }
        let r = MemSet { areas };
        assert(r@ =~= self@);
        r
    }
}

/// The first area of the list that the address lies in is the one at `i`.
pub open spec fn first_holding(areas: Seq<AreaView>, vaddr: int, i: int) -> bool {
    &&& 0 <= i < areas.len()
    &&& areas[i].holds(vaddr)
    &&& forall|j: int| 0 <= j < i ==> !(#[trigger] areas[j]).holds(vaddr)
}

/// The address lies in some area of the list.
pub open spec fn some_holds(areas: Seq<AreaView>, vaddr: int) -> bool {
    exists|i: int| 0 <= i < areas.len() && (#[trigger] areas[i]).holds(vaddr)
}

impl MemSet {
    /// The position of the first area that the address lies in.
    pub fn find_area(&self, vaddr: usize) -> (r: Option<usize>)
        ensures
            match r {
                Some(i) => first_holding(self@, vaddr as int, i as int),
                None => !some_holds(self@, vaddr as int),
            },
    {
        let mut i: usize = 0;
        while i < self.areas.len()
            invariant
                i <= self.areas@.len(),
                forall|j: int| 0 <= j < i ==> !(#[trigger] self@[j]).holds(vaddr as int),
            decreases self.areas@.len() - i,
        {
            assert(self@[i as int] == self.areas@[i as int]@);
            if self.areas[i].contains(vaddr) {
                return Some(i);
            }
            i = i + 1;
        }
        None
    }
}

/// Where a page leads, and with which rights.
#[derive(Clone, Copy, Debug, PartialEq, Eq, Structural)]
pub struct PageEntry {
    pub paddr: usize,
    pub flags: MappingFlags,
}

/// The page table: entries by the address of the page.
pub struct PageTable {
    pub entries: BTreeMap<usize, PageEntry>,
}

impl View for PageTable {
    type V = Map<usize, PageEntry>;

    open spec fn view(&self) -> Map<usize, PageEntry> {
        self.entries@
    }
}

/// The address of the page that holds the address.
pub open spec fn page_of(vaddr: usize) -> usize {
    (vaddr - vaddr % PAGE_SIZE) as usize
}

/// The address of the page that holds the address.
pub fn page_floor(vaddr: usize) -> (r: usize)
    ensures
        r == page_of(vaddr),
        r % PAGE_SIZE == 0,
        r <= vaddr < r + PAGE_SIZE,
{
    vaddr - vaddr % PAGE_SIZE
}

impl PageTable {
    /// Where an address leads: the entry of its page, and the place in the frame.
    pub open spec fn translation(self, vaddr: usize) -> Option<(int, MappingFlags)> {
        if self@.contains_key(page_of(vaddr)) {
            let entry = self@[page_of(vaddr)];
            Some((entry.paddr + vaddr % PAGE_SIZE, entry.flags))
        } else {
            None
        }
    }

    /// A page table without entries.
    pub fn new() -> (r: PageTable)
        ensures
            r@ == Map::<usize, PageEntry>::empty(),
    {
        PageTable { entries: BTreeMap::new() }
    }

    /// Enters a page, in place of an older entry.
    pub fn map_page(&mut self, vaddr: usize, paddr: usize, flags: MappingFlags)
        ensures
            final(self)@ == old(self)@.insert(vaddr, PageEntry { paddr, flags }),
    {
        let _ = self.entries.insert(vaddr, PageEntry { paddr, flags });
    }

    /// Whether the address leads anywhere.
    pub fn is_mapped(&self, vaddr: usize) -> (r: bool)
        ensures
            r == self.translation(vaddr) is Some,
    {
        self.entries.contains_key(&page_floor(vaddr))
    }
}

/// Frames that several processes can attach. It goes when it is marked and nobody is attached.
pub struct SharedMemory {
    pub trackers: Vec<Arc<FrameTracker>>,
    pub deleted: bool,
}

impl SharedMemory {
    /// Shared memory over the given frames.
    pub fn new(trackers: Vec<Arc<FrameTracker>>) -> (r: SharedMemory)
        ensures
            r.trackers@ == trackers@,
            !r.deleted,
    {
        SharedMemory { trackers, deleted: false }
    }
}

/// Shared memory that a process has attached.
pub struct MapedSharedMemory {
    pub key: usize,
    pub trackers: Vec<Arc<FrameTracker>>,
    pub start: usize,
    pub size: usize,
}

/// Attached shared memory, mathematically.
pub struct ShmView {
    pub key: usize,
    pub trackers: Seq<Arc<FrameTracker>>,
    pub start: usize,
    pub size: usize,
}

impl View for MapedSharedMemory {
    type V = ShmView;

    open spec fn view(&self) -> ShmView {
        ShmView {
            key: self.key,
            trackers: self.trackers@,
            start: self.start,
            size: self.size,
        }
    }
}

/// A copy of a list of frames; both lists own the frames.
pub fn clone_frames(frames: &Vec<Arc<FrameTracker>>) -> (r: Vec<Arc<FrameTracker>>)
    ensures
        r@ == frames@,
{
    let mut out: Vec<Arc<FrameTracker>> = Vec::new();
    let mut i: usize = 0;
    while i < frames.len()
        invariant
            i <= frames@.len(),
            out@ == frames@.take(i as int),
        decreases frames@.len() - i,
    {
        out.push(frames[i].clone());
        i = i + 1;
        assert(out@ =~= frames@.take(i as int));
    }
    assert(out@ =~= frames@);
    out
}

impl Clone for MapedSharedMemory {
    fn clone(&self) -> (r: Self)
        ensures
            r@ == self@,
    {
        let trackers: Vec<Arc<FrameTracker>> = clone_frames(&self.trackers);
        MapedSharedMemory { key: self.key, trackers, start: self.start, size: self.size }
    }
}

/// A copy of a list of attached shared memory.
pub fn clone_shms(shms: &Vec<MapedSharedMemory>) -> (r: Vec<MapedSharedMemory>)
    ensures
        shm_views(r@) == shm_views(shms@),
{
    let mut out: Vec<MapedSharedMemory> = Vec::new();
    let mut i: usize = 0;
    while i < shms.len()
        invariant
            i <= shms@.len(),
            out@.len() == i,
            forall|j: int| 0 <= j < i ==> (#[trigger] out@[j])@ == shms@[j]@,
        decreases shms@.len() - i,
    {
        out.push(shms[i].clone());
        i = i + 1;
    }
    assert(shm_views(out@) =~= shm_views(shms@));
    out
}

/// A list of attached shared memory, mathematically.
pub open spec fn shm_views(shms: Seq<MapedSharedMemory>) -> Seq<ShmView> {
    shms.map_values(|s: MapedSharedMemory| s@)
}

/// An address space, mathematically: its areas, and what the page table says.
pub struct Space {
    pub areas: Seq<AreaView>,
    pub table: Map<usize, PageEntry>,
}

/// The frames tracked for consecutive pages from `vaddr` on. Frames that are not meant for a
/// particular page yet are all tracked at address zero.
pub open spec fn tracks_for(vaddr: usize, frames: Seq<FrameTracker>) -> Seq<MapTrack> {
    Seq::new(
        frames.len(),
        |i: int|
            MapTrack {
                vaddr: if vaddr == 0 {
                    0
                } else {
                    (vaddr + i * PAGE_SIZE) as usize
                },
                tracker: Arc::new(frames[i]),
                rwx: 0,
            },
    )
}

/// The page table after every tracked frame has been entered, the first one first.
pub open spec fn table_with(
    table: Map<usize, PageEntry>,
    tracks: Seq<MapTrack>,
    flags: MappingFlags,
) -> Map<usize, PageEntry>
    decreases tracks.len(),
{
    if tracks.len() == 0 {
        table
    } else {
        table_with(table, tracks.drop_last(), flags).insert(
            tracks.last().vaddr,
            PageEntry { paddr: tracks.last().tracker.paddr, flags },
        )
    }
}

/// The position of the first area of the type; the number of areas if there is none.
pub open spec fn first_of(areas: Seq<AreaView>, mtype: MemType) -> int
    decreases areas.len(),
{
    if areas.len() == 0 {
        0
    } else {
        let before = first_of(areas.drop_last(), mtype);
        if before < areas.len() - 1 {
            before
        } else if areas.last().mtype == mtype {
            areas.len() - 1
        } else {
            areas.len() as int
        }
    }
}

pub proof fn lemma_first_of(areas: Seq<AreaView>, mtype: MemType)
    ensures
        0 <= first_of(areas, mtype) <= areas.len(),
        first_of(areas, mtype) < areas.len() ==> areas[first_of(areas, mtype)].mtype == mtype,
        forall|j: int|
            0 <= j < first_of(areas, mtype) ==> (#[trigger] areas[j]).mtype != mtype,
    decreases areas.len(),
{
    if areas.len() > 0 {
        lemma_first_of(areas.drop_last(), mtype);
        let before = first_of(areas.drop_last(), mtype);
        assert forall|j: int| 0 <= j < first_of(areas, mtype) implies (
        #[trigger] areas[j]).mtype != mtype by {
            if j < areas.len() - 1 {
                assert(areas.drop_last()[j] == areas[j]);
            }
        }
        if before < areas.len() - 1 {
            assert(areas.drop_last()[before] == areas[before]);
        }
    }
}

/// Where the stack of a program begins.
pub const STACK_START: usize = 0x7000_0000;

/// How large the stack of a program can become.
pub const STACK_LEN: usize = 0x1000_0000;

/// The areas after frames were added. All frames of the stack are in one area. Any other
/// frames make an area of their own.
pub open spec fn areas_with(areas: Seq<AreaView>, area: AreaView) -> Seq<AreaView> {
    if area.mtype == MemType::Stack {
        let i = first_of(areas, MemType::Stack);
        if i < areas.len() {
            areas.update(
                i,
                AreaView { mtrackers: areas[i].mtrackers + area.mtrackers, ..areas[i] },
            )
        } else {
            areas.push(
                AreaView {
                    mtype: MemType::Stack,
                    mtrackers: area.mtrackers,
                    file: None,
                    offset: 0,
                    start: STACK_START,
                    len: STACK_LEN,
                },
            )
        }
    } else {
        areas.push(area)
    }
}

/// The rights with which frames of a type are mapped.
pub open spec fn flags_for(mtype: MemType) -> MappingFlags {
    if mtype == MemType::ShareFile {
        MappingFlags::URW
    } else {
        MappingFlags::URWX
    }
}

impl Space {
    /// The space after `frames` were mapped from `vaddr` on and recorded in an area.
    pub open spec fn with_frames(
        self,
        vaddr: usize,
        frames: Seq<FrameTracker>,
        area: AreaView,
        flags: MappingFlags,
    ) -> Space {
        let tracks = tracks_for(vaddr, frames);
        Space {
            areas: areas_with(self.areas, AreaView { mtrackers: tracks, ..area }),
            table: if vaddr == 0 {
                self.table
            } else {
                table_with(self.table, tracks, flags)
            },
        }
    }

    /// The space after `frames` were allocated for the pages from `vaddr` on.
    pub open spec fn with_allocated(
        self,
        vaddr: usize,
        mtype: MemType,
        frames: Seq<FrameTracker>,
    ) -> Space {
        self.with_frames(
            vaddr,
            frames,
            AreaView {
                mtype,
                mtrackers: Seq::empty(),
                file: None,
                offset: 0,
                start: vaddr,
                len: (frames.len() * PAGE_SIZE) as usize,
            },
            flags_for(mtype),
        )
    }
}

impl Space {
    /// The space after the heap grew by one page for each of `grants`, from page number `page`
    /// on. A page for which the allocator had no frame is left out.
    pub open spec fn grown(self, page: int, grants: Seq<Option<FrameTracker>>) -> Space
        decreases grants.len(),
    {
        if grants.len() == 0 {
            self
        } else {
            let before = self.grown(page, grants.drop_last());
            match grants.last() {
                Some(frame) => before.with_allocated(
                    ((page + grants.len() - 1) * PAGE_SIZE) as usize,
                    MemType::CodeSection,
                    seq![frame],
                ),
                None => before,
            }
        }
    }
}

/// The page table after every frame of every area has been entered without the right to write.
pub open spec fn table_shared(
    table: Map<usize, PageEntry>,
    areas: Seq<AreaView>,
) -> Map<usize, PageEntry>
    decreases areas.len(),
{
    if areas.len() == 0 {
        table
    } else {
        table_with(
            table_shared(table, areas.drop_last()),
            areas.last().mtrackers,
            MappingFlags::URX,
        )
    }
}

/// The frames of attached shared memory, tracked for the pages where it is attached.
pub open spec fn shm_tracks(shm: ShmView) -> Seq<MapTrack> {
    Seq::new(
        shm.trackers.len(),
        |i: int|
            MapTrack {
                vaddr: (shm.start + i * PAGE_SIZE) as usize,
                tracker: shm.trackers[i],
                rwx: 0,
            },
    )
}

/// The position of the first shared memory that covers the address; the number of them all if
/// there is none.
pub open spec fn covering(shms: Seq<ShmView>, vaddr: int) -> int
    decreases shms.len(),
{
    if shms.len() == 0 {
        0
    } else {
        let before = covering(shms.drop_last(), vaddr);
        let last = shms.last();
        if before < shms.len() - 1 {
            before
        } else if last.start <= vaddr < last.start + last.size {
            shms.len() - 1
        } else {
            shms.len() as int
        }
    }
}

pub proof fn lemma_covering(shms: Seq<ShmView>, vaddr: int)
    ensures
        0 <= covering(shms, vaddr) <= shms.len(),
        covering(shms, vaddr) < shms.len() ==> {
            let s = shms[covering(shms, vaddr)];
            s.start <= vaddr < s.start + s.size
        },
        forall|j: int|
            0 <= j < covering(shms, vaddr) ==> !((#[trigger] shms[j]).start <= vaddr
                < shms[j].start + shms[j].size),
    decreases shms.len(),
{
    if shms.len() > 0 {
        lemma_covering(shms.drop_last(), vaddr);
        let before = covering(shms.drop_last(), vaddr);
        assert forall|j: int| 0 <= j < covering(shms, vaddr) implies !((
        #[trigger] shms[j]).start <= vaddr < shms[j].start + shms[j].size) by {
            if j < shms.len() - 1 {
                assert(shms.drop_last()[j] == shms[j]);
            }
        }
        if before < shms.len() - 1 {
            assert(shms.drop_last()[before] == shms[before]);
        }
    }
}

/// The page table after the shared memory that covers the start of an area has been entered in
/// full, with all rights, for each area.
pub open spec fn table_attached(
    table: Map<usize, PageEntry>,
    areas: Seq<AreaView>,
    shms: Seq<ShmView>,
) -> Map<usize, PageEntry>
    decreases areas.len(),
{
    if areas.len() == 0 {
        table
    } else {
        let before = table_attached(table, areas.drop_last(), shms);
        let i = covering(shms, areas.last().start as int);
        if i < shms.len() {
            table_with(before, shm_tracks(shms[i]), MappingFlags::URWX)
        } else {
            before
        }
    }
}

/// The end of the last area that is not a stack.
pub open spec fn areas_end(areas: Seq<AreaView>) -> int
    decreases areas.len(),
{
    if areas.len() == 0 {
        0
    } else {
        let before = areas_end(areas.drop_last());
        let last = areas.last();
        if last.mtype != MemType::Stack && last.start + last.len > before {
            last.start + last.len
        } else {
            before
        }
    }
}

/// The end of the last attached shared memory.
pub open spec fn shms_end(shms: Seq<ShmView>) -> int
    decreases shms.len(),
{
    if shms.len() == 0 {
        0
    } else {
        let before = shms_end(shms.drop_last());
        let last = shms.last();
        if last.start + last.size > before {
            last.start + last.size
        } else {
            before
        }
    }
}

/// All tracked pages and frames lie at page boundaries.
pub open spec fn tracks_aligned(tracks: Seq<MapTrack>) -> bool {
    forall|i: int|
        0 <= i < tracks.len() ==> (#[trigger] tracks[i]).vaddr % PAGE_SIZE == 0
            && tracks[i].tracker.paddr % PAGE_SIZE == 0
}

/// All tracked pages and frames of all areas lie at page boundaries.
pub open spec fn areas_aligned(areas: Seq<AreaView>) -> bool {
    forall|i: int| 0 <= i < areas.len() ==> tracks_aligned((#[trigger] areas[i]).mtrackers)
}

/// Attached shared memory lies at page boundaries, is as large as its frames and fits in the
/// address space.
pub open spec fn shm_wf(shm: ShmView) -> bool {
    &&& shm.start % PAGE_SIZE == 0
    &&& shm.size == shm.trackers.len() * PAGE_SIZE
    &&& shm.start + shm.size <= usize::MAX
    &&& forall|i: int|
        0 <= i < shm.trackers.len() ==> (#[trigger] shm.trackers[i]).paddr % PAGE_SIZE == 0
}

/// All attached shared memory is well formed.
pub open spec fn shms_wf(shms: Seq<ShmView>) -> bool {
    forall|i: int| 0 <= i < shms.len() ==> shm_wf(#[trigger] shms[i])
}

/// The position of the last tracked frame for the page; -1 if there is none.
pub open spec fn last_track(tracks: Seq<MapTrack>, page: usize) -> int
    decreases tracks.len(),
{
    if tracks.len() == 0 {
        -1
    } else if tracks.last().vaddr == page {
        tracks.len() - 1
    } else {
        last_track(tracks.drop_last(), page)
    }
}

proof fn lemma_last_track(tracks: Seq<MapTrack>, page: usize)
    ensures
        -1 <= last_track(tracks, page) < tracks.len(),
        last_track(tracks, page) >= 0 ==> tracks[last_track(tracks, page)].vaddr == page,
        forall|k: int|
            0 <= k < tracks.len() && (#[trigger] tracks[k]).vaddr == page ==> k <= last_track(
                tracks,
                page,
            ),
    decreases tracks.len(),
{
    if tracks.len() > 0 && tracks.last().vaddr != page {
        lemma_last_track(tracks.drop_last(), page);
        assert forall|k: int|
            0 <= k < tracks.len() && (#[trigger] tracks[k]).vaddr == page implies k <= last_track(
            tracks,
            page,
        ) by {
            assert(tracks.drop_last()[k] == tracks[k]);
        }
    }
}

proof fn lemma_table_with(
    table: Map<usize, PageEntry>,
    tracks: Seq<MapTrack>,
    flags: MappingFlags,
    page: usize,
)
    ensures
        ({
            let now = table_with(table, tracks, flags);
            let k = last_track(tracks, page);
            if k >= 0 {
                now.contains_key(page) && now[page] == (PageEntry {
                    paddr: tracks[k].tracker.paddr,
                    flags,
                })
            } else {
                now.contains_key(page) == table.contains_key(page) && now[page] == table[page]
            }
        }),
    decreases tracks.len(),
{
    if tracks.len() > 0 {
        lemma_last_track(tracks.drop_last(), page);
        lemma_table_with(table, tracks.drop_last(), flags, page);
    }
}

/// Every page of freshly mapped frames leads to its own frame, with the rights asked for.
pub proof fn law_mapped_pages_lead_to_frames(
    space: Space,
    vaddr: usize,
    frames: Seq<FrameTracker>,
    area: AreaView,
    flags: MappingFlags,
    i: int,
)
    requires
        vaddr != 0,
        0 <= i < frames.len(),
        vaddr + (frames.len() - 1) * PAGE_SIZE <= usize::MAX,
    ensures
        space.with_frames(vaddr, frames, area, flags).table.contains_key(
            (vaddr + i * PAGE_SIZE) as usize,
        ),
        space.with_frames(vaddr, frames, area, flags).table[(vaddr + i * PAGE_SIZE) as usize] == (
        PageEntry { paddr: frames[i].paddr, flags }),
{
    let tracks = tracks_for(vaddr, frames);
    let v = (vaddr + i * PAGE_SIZE) as usize;
    lemma_table_with(space.table, tracks, flags, v);
    lemma_last_track(tracks, v);
    assert(tracks[i].vaddr == v);
    let m = last_track(tracks, v);
    assert(tracks[m].vaddr == (vaddr + m * PAGE_SIZE) as usize);
    assert(i * PAGE_SIZE <= (frames.len() - 1) * PAGE_SIZE && m * PAGE_SIZE <= (frames.len() - 1)
        * PAGE_SIZE) by (nonlinear_arith)
        requires
            i <= frames.len() - 1,
            m <= frames.len() - 1,
    ;
    assert(m == i);
}

/// Mapping frames leaves every page alone that is not one of theirs.
pub proof fn law_mapping_keeps_other_pages(
    space: Space,
    vaddr: usize,
    frames: Seq<FrameTracker>,
    area: AreaView,
    flags: MappingFlags,
    page: usize,
)
    requires
        forall|i: int| 0 <= i < frames.len() ==> page != vaddr + #[trigger] (i * PAGE_SIZE),
        vaddr != 0 ==> vaddr + (frames.len() - 1) * PAGE_SIZE <= usize::MAX,
    ensures
        space.with_frames(vaddr, frames, area, flags).table.contains_key(page)
            == space.table.contains_key(page),
        space.with_frames(vaddr, frames, area, flags).table[page] == space.table[page],
{
    let tracks = tracks_for(vaddr, frames);
    lemma_table_with(space.table, tracks, flags, page);
    lemma_last_track(tracks, page);
    if vaddr != 0 {
        let k = last_track(tracks, page);
        if k >= 0 {
            assert(k * PAGE_SIZE <= (frames.len() - 1) * PAGE_SIZE) by (nonlinear_arith)
                requires
                    k <= frames.len() - 1,
            ;
            assert(tracks[k].vaddr == (vaddr + k * PAGE_SIZE) as usize);
            assert(page == vaddr + k * PAGE_SIZE);
        }
    }
}

proof fn lemma_table_shared(
    table: Map<usize, PageEntry>,
    other: Map<usize, PageEntry>,
    areas: Seq<AreaView>,
    i: int,
    k: int,
)
    requires
        0 <= i < areas.len(),
        0 <= k < areas[i].mtrackers.len(),
    ensures
        ({
            let v = areas[i].mtrackers[k].vaddr;
            &&& table_shared(table, areas).contains_key(v)
            &&& table_shared(table, areas)[v].flags == MappingFlags::URX
            &&& table_shared(table, areas)[v] == table_shared(other, areas)[v]
        }),
    decreases areas.len(),
{
    let rest = areas.drop_last();
    let v = areas[i].mtrackers[k].vaddr;
    let tracks = areas.last().mtrackers;
    let mid = table_shared(table, rest);
    let mid_other = table_shared(other, rest);
    lemma_table_with(mid, tracks, MappingFlags::URX, v);
    lemma_table_with(mid_other, tracks, MappingFlags::URX, v);
    lemma_last_track(tracks, v);
    if i < areas.len() - 1 {
        assert(rest[i] == areas[i]);
        lemma_table_shared(table, other, rest, i, k);
    } else {
        assert(tracks[k].vaddr == v);
    }
}

/// After a fork neither process can write to a page that the parent tracks, and both reach the
/// same frame through it.
pub proof fn law_fork_shares_pages(
    parent_table: Map<usize, PageEntry>,
    areas: Seq<AreaView>,
    i: int,
    k: int,
)
    requires
        0 <= i < areas.len(),
        0 <= k < areas[i].mtrackers.len(),
    ensures
        ({
            let v = areas[i].mtrackers[k].vaddr;
            let parent = table_shared(parent_table, areas);
            let child = table_shared(Map::empty(), areas);
            &&& parent.contains_key(v)
            &&& child.contains_key(v)
            &&& parent[v] == child[v]
            &&& parent[v].flags == MappingFlags::URX
        }),
{
    lemma_table_shared(parent_table, Map::empty(), areas, i, k);
    lemma_table_shared(Map::empty(), parent_table, areas, i, k);
}

/// Nothing but the stack lies at or behind the end of the areas.
pub proof fn law_nothing_behind_the_end(areas: Seq<AreaView>, i: int, vaddr: int)
    requires
        0 <= i < areas.len(),
        areas[i].mtype != MemType::Stack,
        vaddr >= areas_end(areas),
    ensures
        !areas[i].holds(vaddr),
    decreases areas.len(),
{
    if i < areas.len() - 1 {
        assert(areas.drop_last()[i] == areas[i]);
        law_nothing_behind_the_end(areas.drop_last(), i, vaddr);
    }
}

/// Every page of attached shared memory leads to its own frame and can be written.
pub proof fn law_attached_pages_lead_to_frames(table: Map<usize, PageEntry>, shm: ShmView, i: int)
    requires
        shm_wf(shm),
        0 <= i < shm.trackers.len(),
    ensures
        ({
            let page = (shm.start + i * PAGE_SIZE) as usize;
            let now = table_with(table, shm_tracks(shm), MappingFlags::URWX);
            now.contains_key(page) && now[page] == (PageEntry {
                paddr: shm.trackers[i].paddr,
                flags: MappingFlags::URWX,
            })
        }),
{
    let tracks = shm_tracks(shm);
    let page = (shm.start + i * PAGE_SIZE) as usize;
    lemma_table_with(table, tracks, MappingFlags::URWX, page);
    lemma_last_track(tracks, page);
    assert(tracks[i].vaddr == page);
    let m = last_track(tracks, page);
    assert(tracks[m].vaddr == (shm.start + m * PAGE_SIZE) as usize);
    assert(i * PAGE_SIZE <= shm.size && m * PAGE_SIZE <= shm.size) by (nonlinear_arith)
        requires
            i < shm.trackers.len(),
            m < shm.trackers.len(),
            shm.size == shm.trackers.len() * PAGE_SIZE,
    ;
    assert(m == i);
}

/// When the heap has grown, every page for which there was a frame leads to that frame, with all
/// rights. The page at address zero is never mapped.
pub proof fn law_grown_heap_is_mapped(
    space: Space,
    page: int,
    grants: Seq<Option<FrameTracker>>,
    k: int,
)
    requires
        0 <= page,
        (page + grants.len()) * PAGE_SIZE <= usize::MAX + PAGE_SIZE,
        0 <= k < grants.len(),
        page + k > 0,
        grants[k] is Some,
    ensures
        ({
            let vaddr = ((page + k) * PAGE_SIZE) as usize;
            let table = space.grown(page, grants).table;
            table.contains_key(vaddr) && table[vaddr] == (PageEntry {
                paddr: grants[k]->0.paddr,
                flags: MappingFlags::URWX,
            })
        }),
    decreases grants.len(),
{
    let rest = grants.drop_last();
    let n = grants.len() - 1;
    let before = space.grown(page, rest);
    let vaddr = ((page + k) * PAGE_SIZE) as usize;
    let last = ((page + n) * PAGE_SIZE) as usize;
    let area = AreaView {
        mtype: MemType::CodeSection,
        mtrackers: Seq::empty(),
        file: None,
        offset: 0,
        start: last,
        len: PAGE_SIZE,
    };
    if k == n {
        let frames = seq![grants[n]->0];
        assert(grants.last() == grants[n]);
        law_mapped_pages_lead_to_frames(before, last, frames, area, MappingFlags::URWX, 0);
    } else {
        assert(rest[k] == grants[k]);
        law_grown_heap_is_mapped(space, page, rest, k);
        if grants.last() is Some {
            let frames = seq![grants.last()->0];
            assert forall|i: int| 0 <= i < frames.len() implies vaddr != last + #[trigger] (i
                * PAGE_SIZE) by {
                assert(i == 0);
            }
            law_mapping_keeps_other_pages(
                before,
                last,
                frames,
                area,
                MappingFlags::URWX,
                vaddr,
            );
        }
    }
}

/// Nothing lies at or behind the end of the attached shared memory.
pub proof fn law_nothing_behind_shared_memory(shms: Seq<ShmView>, i: int)
    requires
        0 <= i < shms.len(),
    ensures
        shms[i].start + shms[i].size <= shms_end(shms),
    decreases shms.len(),
{
    if i < shms.len() - 1 {
        assert(shms.drop_last()[i] == shms[i]);
        law_nothing_behind_shared_memory(shms.drop_last(), i);
    }
}

/// The end of the areas is no further than need be: it is the end of one of them that is no stack, or
/// zero.
pub proof fn law_end_of_areas_is_reached(areas: Seq<AreaView>)
    ensures
        areas_end(areas) == 0 || exists|i: int|
            0 <= i < areas.len() && (#[trigger] areas[i]).mtype != MemType::Stack && areas[i].start
                + areas[i].len == areas_end(areas),
    decreases areas.len(),
{
    if areas.len() > 0 {
        let rest = areas.drop_last();
        law_end_of_areas_is_reached(rest);
        if areas_end(areas) == areas_end(rest) && areas_end(rest) != 0 {
            let i = choose|i: int|
                0 <= i < rest.len() && (#[trigger] rest[i]).mtype != MemType::Stack
                    && rest[i].start + rest[i].len == areas_end(rest);
            assert(areas[i] == rest[i]);
        } else if areas_end(areas) != 0 {
            assert(areas[areas.len() - 1] == areas.last());
        }
    }
}

/// The end of the attached shared memory is no further than need be: it is the end of one, or zero.
pub proof fn law_end_of_shared_memory_is_reached(shms: Seq<ShmView>)
    ensures
        shms_end(shms) == 0 || exists|i: int|
            0 <= i < shms.len() && (#[trigger] shms[i]).start + shms[i].size == shms_end(shms),
    decreases shms.len(),
{
    if shms.len() > 0 {
        let rest = shms.drop_last();
        law_end_of_shared_memory_is_reached(rest);
        if shms_end(shms) == shms_end(rest) && shms_end(rest) != 0 {
            let i = choose|i: int|
                0 <= i < rest.len() && (#[trigger] rest[i]).start + rest[i].size == shms_end(rest);
            assert(shms[i] == rest[i]);
        } else if shms_end(shms) != 0 {
            assert(shms[shms.len() - 1] == shms.last());
        }
    }
}

/// The page of an address is the multiple of 4096 at or before it that is less than 4096 away.
pub proof fn law_page_holds_its_addresses(vaddr: usize)
    ensures
        page_of(vaddr) % 4096 == 0,
        page_of(vaddr) <= vaddr < page_of(vaddr) + 4096,
{
}

/// An address leads to as far into the frame as it lies into its page; it leads nowhere without an
/// entry for its page.
pub proof fn law_translation_goes_by_pages(table: PageTable, vaddr: usize, within: int, page: usize)
    requires
        page % 4096 == 0,
        0 <= within < 4096,
        vaddr == page + within,
    ensures
        table.translation(vaddr) is Some <==> table@.contains_key(page),
        table@.contains_key(page) ==> table.translation(vaddr) == Some(
            (table@[page].paddr + within, table@[page].flags),
        ),
{
    assert(page_of(vaddr) == page);
}

/// An address lies in an area from its start on for its length. The area that is found for an address
/// holds it, and no earlier one does; none is found exactly if none holds it.
pub proof fn law_area_of_an_address(areas: Seq<AreaView>, vaddr: int, i: int)
    ensures
        0 <= i < areas.len() ==> (areas[i].holds(vaddr) <==> areas[i].start <= vaddr && vaddr
            < areas[i].start + areas[i].len),
        first_holding(areas, vaddr, i) ==> {
            &&& 0 <= i < areas.len()
            &&& areas[i].start <= vaddr < areas[i].start + areas[i].len
            &&& forall|j: int|
                0 <= j < i ==> vaddr < (#[trigger] areas[j]).start || areas[j].start + areas[j].len
                    <= vaddr
        },
        some_holds(areas, vaddr) <==> exists|k: int|
            0 <= k < areas.len() && (#[trigger] areas[k]).start <= vaddr && vaddr < areas[k].start
                + areas[k].len,
{
    if exists|k: int|
        0 <= k < areas.len() && (#[trigger] areas[k]).start <= vaddr && vaddr < areas[k].start
            + areas[k].len {
        let k = choose|k: int|
            0 <= k < areas.len() && (#[trigger] areas[k]).start <= vaddr && vaddr < areas[k].start
                + areas[k].len;
        assert(areas[k].holds(vaddr));
    }
}

/// Mapped frames are recorded. A stack has one area, from `0x7000_0000` up to `0x8000_0000`, which
/// collects all its frames; anything else gets an area of its own, as asked for, at the end. Each
/// frame is recorded for its own page, or for no page where no address was given; then nothing is
/// mapped. All other areas are as before.
pub proof fn law_mapping_is_recorded(
    space: Space,
    vaddr: usize,
    frames: Seq<FrameTracker>,
    area: AreaView,
    flags: MappingFlags,
    k: int,
    j: int,
)
    requires
        vaddr != 0 ==> vaddr + (frames.len() - 1) * PAGE_SIZE <= usize::MAX,
        0 <= k < frames.len(),
        0 <= j < space.areas.len(),
    ensures
        ({
            let after = space.with_frames(vaddr, frames, area, flags);
            let n = space.areas.len() as int;
            &&& vaddr == 0 ==> after.table == space.table
            &&& area.mtype != MemType::Stack ==> {
                &&& after.areas.len() == n + 1
                &&& after.areas[j] == space.areas[j]
                &&& after.areas[n].mtype == area.mtype
                &&& after.areas[n].file == area.file
                &&& after.areas[n].offset == area.offset
                &&& after.areas[n].start == area.start
                &&& after.areas[n].len == area.len
                &&& after.areas[n].mtrackers.len() == frames.len()
                &&& after.areas[n].mtrackers[k].tracker.paddr == frames[k].paddr
                &&& after.areas[n].mtrackers[k].vaddr == (if vaddr == 0 {
                    0
                } else {
                    vaddr + k * 4096
                })
            }
            &&& area.mtype == MemType::Stack && space.areas[j].mtype == MemType::Stack && (forall|
                m: int,
            |
                0 <= m < j ==> (#[trigger] space.areas[m]).mtype != MemType::Stack) ==> {
                &&& after.areas.len() == n
                &&& after.areas[j].start == space.areas[j].start
                &&& after.areas[j].len == space.areas[j].len
                &&& after.areas[j].mtrackers.len() == space.areas[j].mtrackers.len() + frames.len()
                &&& after.areas[j].mtrackers.take(space.areas[j].mtrackers.len() as int)
                    == space.areas[j].mtrackers
                &&& after.areas[j].mtrackers[space.areas[j].mtrackers.len()
                    + k].tracker.paddr == frames[k].paddr
            }
            &&& area.mtype == MemType::Stack && space.areas[j].mtype != MemType::Stack
                ==> after.areas[j] == space.areas[j]
            &&& area.mtype == MemType::Stack && (forall|m: int|
                0 <= m < n ==> (#[trigger] space.areas[m]).mtype != MemType::Stack) ==> {
                &&& after.areas.len() == n + 1
                &&& after.areas[n].mtype == MemType::Stack
                &&& after.areas[n].start == 0x7000_0000
                &&& after.areas[n].len == 0x1000_0000
                &&& after.areas[n].file is None
                &&& after.areas[n].mtrackers.len() == frames.len()
                &&& after.areas[n].mtrackers[k].tracker.paddr == frames[k].paddr
            }
        }),
{
    lemma_first_of(space.areas, MemType::Stack);
    let tracks = tracks_for(vaddr, frames);
    let i = first_of(space.areas, MemType::Stack);
    if vaddr != 0 {
        assert(k * PAGE_SIZE <= (frames.len() - 1) * PAGE_SIZE) by (nonlinear_arith)
            requires
                k <= frames.len() - 1,
        ;
    }
    if area.mtype == MemType::Stack && i < space.areas.len() {
        let old_tracks = space.areas[i].mtrackers;
        assert((old_tracks + tracks).take(old_tracks.len() as int) =~= old_tracks);
    }
}

/// Frames that are allocated for pages get an area of just those pages, without a file. All rights
/// are given, but for shared files, whose pages cannot be executed.
pub proof fn law_allocated_pages_have_their_area(
    space: Space,
    vaddr: usize,
    mtype: MemType,
    frames: Seq<FrameTracker>,
    k: int,
)
    requires
        mtype != MemType::Stack,
        vaddr != 0,
        0 <= k < frames.len(),
        frames.len() * PAGE_SIZE <= usize::MAX,
        vaddr + (frames.len() - 1) * PAGE_SIZE <= usize::MAX,
    ensures
        ({
            let after = space.with_allocated(vaddr, mtype, frames);
            let n = space.areas.len() as int;
            let page = (vaddr + k * 4096) as usize;
            &&& after.areas.len() == n + 1
            &&& after.areas.take(n) == space.areas
            &&& after.areas[n].mtype == mtype
            &&& after.areas[n].start == vaddr
            &&& after.areas[n].len == frames.len() * 4096
            &&& after.areas[n].file is None
            &&& after.areas[n].offset == 0
            &&& after.table.contains_key(page)
            &&& after.table[page].paddr == frames[k].paddr
            &&& after.table[page].flags == (if mtype == MemType::ShareFile {
                MappingFlags::URW
            } else {
                MappingFlags::URWX
            })
        }),
{
    let area = AreaView {
        mtype,
        mtrackers: Seq::empty(),
        file: None,
        offset: 0,
        start: vaddr,
        len: (frames.len() * PAGE_SIZE) as usize,
    };
    law_mapped_pages_lead_to_frames(space, vaddr, frames, area, flags_for(mtype), k);
    assert(space.with_allocated(vaddr, mtype, frames).areas.take(space.areas.len() as int)
        =~= space.areas);
}

/// Stack pages that are allocated can be read, written and executed.
pub proof fn law_stack_pages_are_mapped(space: Space, vaddr: usize, frame: FrameTracker)
    requires
        vaddr != 0,
    ensures
        space.with_allocated(vaddr, MemType::Stack, seq![frame]).table.contains_key(vaddr),
        space.with_allocated(vaddr, MemType::Stack, seq![frame]).table[vaddr] == (PageEntry {
            paddr: frame.paddr,
            flags: MappingFlags::URWX,
        }),
{
    let frames = seq![frame];
    let area = AreaView {
        mtype: MemType::Stack,
        mtrackers: Seq::empty(),
        file: None,
        offset: 0,
        start: vaddr,
        len: PAGE_SIZE,
    };
    law_mapped_pages_lead_to_frames(space, vaddr, frames, area, MappingFlags::URWX, 0);
}

/// Growing the heap leaves every page alone that got no frame, and keeps all older areas. Each page
/// that got a frame has an area of its own.
pub proof fn law_grown_heap_keeps_the_rest(
    space: Space,
    page: int,
    grants: Seq<Option<FrameTracker>>,
    v: usize,
)
    requires
        0 <= page,
        (page + grants.len()) * PAGE_SIZE <= usize::MAX + PAGE_SIZE,
        forall|k: int|
            0 <= k < grants.len() && (#[trigger] grants[k]) is Some ==> v != (page + k) * PAGE_SIZE,
    ensures
        ({
            let after = space.grown(page, grants);
            &&& after.table.contains_key(v) == space.table.contains_key(v)
            &&& after.table[v] == space.table[v]
            &&& after.areas.len() >= space.areas.len()
            &&& after.areas.take(space.areas.len() as int) == space.areas
            &&& forall|i: int|
                space.areas.len() <= i < after.areas.len() ==> (#[trigger] after.areas[i]).len
                    == 4096 && after.areas[i].mtype == MemType::CodeSection
        }),
    decreases grants.len(),
{
    if grants.len() == 0 {
        assert(space.areas.take(space.areas.len() as int) =~= space.areas);
    } else {
        let rest = grants.drop_last();
        let n = grants.len() - 1;
        assert forall|k: int| 0 <= k < rest.len() && (#[trigger] rest[k]) is Some implies v != (page
            + k) * PAGE_SIZE by {
            assert(rest[k] == grants[k]);
        }
        law_grown_heap_keeps_the_rest(space, page, rest, v);
        if let Some(frame) = grants.last() {
            assert(grants[n] is Some);
            let before = space.grown(page, rest);
            let last = ((page + n) * PAGE_SIZE) as usize;
            let frames = seq![frame];
            let area = AreaView {
                mtype: MemType::CodeSection,
                mtrackers: Seq::empty(),
                file: None,
                offset: 0,
                start: last,
                len: PAGE_SIZE,
            };
            assert forall|i: int| 0 <= i < frames.len() implies v != last + #[trigger] (i
                * PAGE_SIZE) by {
                assert(i == 0);
            }
            law_mapping_keeps_other_pages(before, last, frames, area, MappingFlags::URWX, v);
            let after = space.grown(page, grants);
            assert(after.areas.take(space.areas.len() as int) =~= before.areas.take(
                space.areas.len() as int,
            ));
        }
    }
}

/// The page is tracked at most once in all areas: only at `k` in the area at `i`.
pub open spec fn tracked_only_at(areas: Seq<AreaView>, page: usize, i: int, k: int) -> bool {
    forall|a: int, b: int|
        #![trigger areas[a].mtrackers[b]]
        0 <= a < areas.len() && 0 <= b < areas[a].mtrackers.len() && areas[a].mtrackers[b].vaddr
            == page ==> a == i && b == k
}

/// After a fork a page leads to the frame that is tracked for it, in both processes and without the
/// right to write; a page that is not tracked leads where it led in the parent, and nowhere in the
/// child.
pub proof fn law_fork_pages_lead_to_frames(
    table: Map<usize, PageEntry>,
    areas: Seq<AreaView>,
    page: usize,
    i: int,
    k: int,
)
    requires
        tracked_only_at(areas, page, i, k),
    ensures
        ({
            let known = 0 <= i < areas.len() && 0 <= k < areas[i].mtrackers.len()
                && areas[i].mtrackers[k].vaddr == page;
            let now = table_shared(table, areas);
            &&& known ==> now.contains_key(page) && now[page] == (PageEntry {
                paddr: areas[i].mtrackers[k].tracker.paddr,
                flags: MappingFlags::URX,
            })
            &&& !known ==> now.contains_key(page) == table.contains_key(page) && now[page]
                == table[page]
        }),
    decreases areas.len(),
{
    if areas.len() > 0 {
        let rest = areas.drop_last();
        let tracks = areas.last().mtrackers;
        let n = areas.len() - 1;
        assert forall|a: int, b: int|
            #![trigger rest[a].mtrackers[b]]
            0 <= a < rest.len() && 0 <= b < rest[a].mtrackers.len() && rest[a].mtrackers[b].vaddr
                == page implies a == i && b == k by {
            assert(areas[a].mtrackers[b].vaddr == page);
        }
        law_fork_pages_lead_to_frames(table, rest, page, i, k);
        lemma_table_with(table_shared(table, rest), tracks, MappingFlags::URX, page);
        lemma_last_track(tracks, page);
        let m = last_track(tracks, page);
        if m >= 0 {
            assert(areas[n].mtrackers[m].vaddr == page);
        }
        if i < n && 0 <= i {
            assert(rest[i] == areas[i]);
        }
        if i == n && 0 <= k < tracks.len() && tracks[k].vaddr == page {
            assert(m >= k);
        }
    }
}

/// No two of the attached pieces of shared memory overlap.
pub open spec fn shms_apart(shms: Seq<ShmView>) -> bool {
    forall|a: int, b: int|
        0 <= a < shms.len() && 0 <= b < shms.len() && a != b ==> (#[trigger] shms[a]).start
            + shms[a].size <= (#[trigger] shms[b]).start || shms[b].start + shms[b].size
            <= shms[a].start
}

proof fn lemma_shm_page(shms: Seq<ShmView>, a: int, b: int, k: int, m: int)
    requires
        shms_wf(shms),
        shms_apart(shms),
        0 <= a < shms.len(),
        0 <= b < shms.len(),
        a != b,
        0 <= k < shms[a].trackers.len(),
        0 <= m < shms[b].trackers.len(),
    ensures
        shms[a].start + k * PAGE_SIZE != shms[b].start + m * PAGE_SIZE,
        shms[a].start + k * PAGE_SIZE <= usize::MAX,
        shms[b].start + m * PAGE_SIZE <= usize::MAX,
{
    let s = shms[a];
    let t = shms[b];
    assert(shm_wf(s) && shm_wf(t));
    assert(k * PAGE_SIZE + PAGE_SIZE <= s.size && m * PAGE_SIZE + PAGE_SIZE <= t.size)
        by (nonlinear_arith)
        requires
            k < s.trackers.len(),
            m < t.trackers.len(),
            s.size == s.trackers.len() * PAGE_SIZE,
            t.size == t.trackers.len() * PAGE_SIZE,
    ;
}

/// In a child process, all of the shared memory is attached that the start of some area lies in: each
/// of its pages leads to its frame and can be written.
pub proof fn law_child_keeps_shared_memory(
    table: Map<usize, PageEntry>,
    areas: Seq<AreaView>,
    shms: Seq<ShmView>,
    i: int,
    j: int,
    k: int,
)
    requires
        shms_wf(shms),
        shms_apart(shms),
        0 <= i < areas.len(),
        0 <= j < shms.len(),
        shms[j].start <= areas[i].start < shms[j].start + shms[j].size,
        0 <= k < shms[j].trackers.len(),
    ensures
        ({
            let now = table_attached(table, areas, shms);
            let page = (shms[j].start + k * 4096) as usize;
            now.contains_key(page) && now[page] == (PageEntry {
                paddr: shms[j].trackers[k].paddr,
                flags: MappingFlags::URWX,
            })
        }),
    decreases areas.len(),
{
    let rest = areas.drop_last();
    let n = areas.len() - 1;
    let page = (shms[j].start + k * PAGE_SIZE) as usize;
    let before = table_attached(table, rest, shms);
    let c = covering(shms, areas.last().start as int);
    lemma_covering(shms, areas.last().start as int);
    if i == n {
        if c < shms.len() && c != j {
            assert(shms[c].start + shms[c].size <= shms[j].start || shms[j].start + shms[j].size
                <= shms[c].start);
        }
        assert(c == j);
    } else {
        assert(rest[i] == areas[i]);
        law_child_keeps_shared_memory(table, rest, shms, i, j, k);
    }
    assert(shm_wf(shms[j]));
    if c < shms.len() {
        if c == j {
            law_attached_pages_lead_to_frames(before, shms[j], k);
        } else {
            let tracks = shm_tracks(shms[c]);
            lemma_table_with(before, tracks, MappingFlags::URWX, page);
            lemma_last_track(tracks, page);
            let m = last_track(tracks, page);
            if m >= 0 {
                lemma_shm_page(shms, j, c, k, m);
                assert(tracks[m].vaddr == page);
            }
        }
    }
}

/// Attaching shared memory leaves every page alone that lies in none of it.
pub proof fn law_attaching_keeps_other_pages(
    table: Map<usize, PageEntry>,
    areas: Seq<AreaView>,
    shms: Seq<ShmView>,
    page: usize,
)
    requires
        shms_wf(shms),
        forall|j: int|
            0 <= j < shms.len() ==> page < (#[trigger] shms[j]).start || shms[j].start
                + shms[j].size <= page,
    ensures
        table_attached(table, areas, shms).contains_key(page) == table.contains_key(page),
        table_attached(table, areas, shms)[page] == table[page],
    decreases areas.len(),
{
    if areas.len() > 0 {
        let rest = areas.drop_last();
        law_attaching_keeps_other_pages(table, rest, shms, page);
        let c = covering(shms, areas.last().start as int);
        lemma_covering(shms, areas.last().start as int);
        if c < shms.len() {
            let s = shms[c];
            let tracks = shm_tracks(s);
            assert(shm_wf(s));
            lemma_table_with(table_attached(table, rest, shms), tracks, MappingFlags::URWX, page);
            lemma_last_track(tracks, page);
            let m = last_track(tracks, page);
            if m >= 0 {
                assert(m * PAGE_SIZE + PAGE_SIZE <= s.size) by (nonlinear_arith)
                    requires
                        m < s.trackers.len(),
                        s.size == s.trackers.len() * PAGE_SIZE,
                ;
                assert(tracks[m].vaddr == (s.start + m * PAGE_SIZE) as usize);
            }
        }
    }
}

} // verus!
