//! A file system that lives in page frames: directories, links, and handles on them.
use vstd::prelude::*;

use crate::errno::{Errno, VfsResult};
use crate::ramfile::{frames_missing, pages_wf, Page, RamFileInner};
use crate::vfs::{
    overwrite, DirEntry, FileType, Stat, StatMode, TimeSpec, MODE_DIR, MODE_LINK, UTIME_OMIT,
};

verus! {

/// A directory: its name, and its entries in the order in which they were made.
pub struct RamDirInner {
    pub name: String,
    pub children: Vec<FileContainer>,
}

/// A directory, mathematically.
pub struct DirView {
    pub name: Seq<char>,
    pub children: Seq<FileContainer>,
}

impl View for RamDirInner {
    type V = DirView;

    open spec fn view(&self) -> DirView {
        DirView { name: self.name@, children: self.children@ }
    }
}

/// A second name for an object.
pub struct RamLinkInner {
    pub name: String,
    pub link_file: INode,
}

/// An entry of a directory: the number of a file, a directory or a link of the file system.
#[derive(Clone, Copy, Debug, PartialEq, Eq, Structural)]
pub enum FileContainer {
    File(usize),
    Dir(usize),
    Link(usize),
}

/// A handle on a regular file.
#[derive(Clone, Copy, Debug, PartialEq, Eq, Structural)]
pub struct RamFile {
    pub inner: usize,
}

/// A handle on a directory.
#[derive(Clone, Copy, Debug, PartialEq, Eq, Structural)]
pub struct RamDir {
    pub inner: usize,
}

/// A handle on a link.
#[derive(Clone, Copy, Debug, PartialEq, Eq, Structural)]
pub struct RamLink {
    pub inner: usize,
}

/// A handle on any object of the file system.
#[derive(Clone, Copy, Debug, PartialEq, Eq, Structural)]
pub enum INode {
    File(RamFile),
    Dir(RamDir),
    Link(RamLink),
}

/// The file system. Objects are numbered in the order in which they were made and keep their
/// number, and so a handle stays good, when the last entry that names them is removed.
pub struct RamFs {
    pub dirs: Vec<RamDirInner>,
    pub files: Vec<RamFileInner>,
    pub links: Vec<RamLinkInner>,
}

impl RamFs {
    /// The number in the entry is that of an object.
    pub open spec fn holds_entry(&self, entry: FileContainer) -> bool {
        match entry {
            FileContainer::File(i) => i < self.files@.len(),
            FileContainer::Dir(i) => i < self.dirs@.len(),
            FileContainer::Link(i) => i < self.links@.len(),
        }
    }

    /// The handle is that of an object.
    pub open spec fn holds(&self, node: INode) -> bool {
        match node {
            INode::File(f) => f.inner < self.files@.len(),
            INode::Dir(d) => d.inner < self.dirs@.len(),
            INode::Link(l) => l.inner < self.links@.len(),
        }
    }

    /// There is a root, every number is that of an object, and a link points to something that
    /// is older than itself.
    pub open spec fn wf(&self) -> bool {
        &&& self.dirs@.len() > 0
        &&& forall|i: int| 0 <= i < self.files@.len() ==> (#[trigger] self.files@[i]).wf()
        &&& forall|d: int, k: int|
            0 <= d < self.dirs@.len() && 0 <= k < self.dirs@[d].children@.len()
                ==> self.holds_entry(#[trigger] self.dirs@[d].children@[k])
        &&& forall|i: int|
            0 <= i < self.links@.len() ==> {
                &&& self.holds((#[trigger] self.links@[i]).link_file)
                &&& self.links@[i].link_file matches INode::Link(l) ==> l.inner < i
            }
    }

    /// All directories, mathematically.
    pub open spec fn dir_views(&self) -> Seq<DirView> {
        self.dirs@.map_values(|d: RamDirInner| d@)
    }

    /// The name of what an entry stands for.
    pub open spec fn entry_name(&self, entry: FileContainer) -> Seq<char> {
        match entry {
            FileContainer::File(i) => self.files@[i as int].name@,
            FileContainer::Dir(i) => self.dirs@[i as int].name@,
            FileContainer::Link(i) => self.links@[i as int].name@,
        }
    }

    /// The entries of a directory.
    pub open spec fn entries(&self, dir: RamDir) -> Seq<FileContainer> {
        self.dirs@[dir.inner as int].children@
    }

    /// The entry at `i` is the first of the directory with the name.
    pub open spec fn first_named(&self, dir: RamDir, name: Seq<char>, i: int) -> bool {
        &&& 0 <= i < self.entries(dir).len()
        &&& self.entry_name(self.entries(dir)[i]) == name
        &&& forall|j: int|
            0 <= j < i ==> self.entry_name(#[trigger] self.entries(dir)[j]) != name
    }

    /// Some entry of the directory has the name.
    pub open spec fn has_name(&self, dir: RamDir, name: Seq<char>) -> bool {
        exists|i: int| self.first_named(dir, name, i)
    }

    /// Only the entries of `dir` differ, and they are now `children`; behind the old
    /// directories stand those of `added`.
    pub open spec fn dirs_changed(
        before: RamFs,
        after: RamFs,
        dir: RamDir,
        children: Seq<FileContainer>,
        added: Seq<DirView>,
    ) -> bool {
        after.dir_views() == before.dir_views().update(
            dir.inner as int,
            DirView { name: before.dirs@[dir.inner as int].name@, children },
        ) + added
    }

    /// The file that a handle reads and writes: links are followed to their end.
    pub open spec fn file_behind(links: Seq<RamLinkInner>, node: INode) -> Option<usize>
        decreases
                match node {
                    INode::Link(l) => l.inner + 1,
                    _ => 0,
                },
    {
        match node {
            INode::File(f) => Some(f.inner),
            INode::Dir(_) => None,
            INode::Link(l) => if l.inner < links.len() {
                let next = links[l.inner as int].link_file;
                if next matches INode::Link(m) ==> m.inner < l.inner {
                    RamFs::file_behind(links, next)
                } else {
                    None
                }
            } else {
                None
            },
        }
    }

    /// A file system with an empty root directory.
    pub fn new() -> (r: RamFs)
        ensures
            r.wf(),
            r.dir_views() == seq![
                DirView { name: Seq::<char>::empty(), children: Seq::<FileContainer>::empty() },
            ],
            r.dirs@.len() == 1,
            r.entries(RamDir { inner: 0 }).len() == 0,
            r.files@.len() == 0,
            r.links@.len() == 0,
    {
        let mut dirs: Vec<RamDirInner> = Vec::new();
        dirs.push(RamDirInner { name: String::new(), children: Vec::new() });
        let r = RamFs { dirs, files: Vec::new(), links: Vec::new() };
        assert(r.dir_views() =~= seq![
            DirView { name: Seq::<char>::empty(), children: Seq::<FileContainer>::empty() },
        ]);
        r
    }

    /// The root directory.
    pub fn root_dir(&self) -> (r: RamDir)
        ensures
            r == (RamDir { inner: 0 }),
    {
        RamDir { inner: 0 }
    }

    /// The name of this kind of file system.
    pub fn name(&self) -> (r: &'static str)
        ensures
            r@ == "ramfs"@,
    {
        "ramfs"
    }

    /// The file that a handle reads and writes, if there is one.
    pub fn resolve(&self, node: INode) -> (r: Option<usize>)
        requires
            self.wf(),
            self.holds(node),
        ensures
            r == RamFs::file_behind(self.links@, node),
            r matches Some(i) ==> i < self.files@.len(),
        decreases
                match node {
                    INode::Link(l) => l.inner + 1,
                    _ => 0,
                },
    {
        match node {
            INode::File(f) => Some(f.inner),
            INode::Dir(_) => None,
            INode::Link(l) => {
                assert(self.holds(self.links@[l.inner as int].link_file));
                self.resolve(self.links[l.inner].link_file)
            },
        }
    }

    /// The position of the first entry with the name, if there is one.
    fn find(&self, dir: RamDir, name: &str) -> (r: Option<usize>)
        requires
            self.wf(),
            dir.inner < self.dirs@.len(),
        ensures
            match r {
                Some(i) => self.first_named(dir, name@, i as int),
                None => !self.has_name(dir, name@),
            },
    {
        let wanted: String = name.to_owned();
        let mut i: usize = 0;
        while i < self.dirs[dir.inner].children.len()
            invariant
                self.wf(),
                dir.inner < self.dirs@.len(),
                wanted@ == name@,
                forall|j: int|
                    0 <= j < i ==> self.entry_name(#[trigger] self.entries(dir)[j]) != name@,
                i <= self.entries(dir).len(),
            decreases self.entries(dir).len() - i,
        {
            let entry: FileContainer = self.dirs[dir.inner].children[i];
            assert(self.holds_entry(self.dirs@[dir.inner as int].children@[i as int]));
            if *entry.filename(self) == wanted {
                assert(self.first_named(dir, name@, i as int));
                return Some(i);
            }
            i = i + 1;
        }
        None
    }
}

impl FileContainer {
    /// The handle on what the entry stands for.
    pub open spec fn inode(self) -> INode {
        match self {
            FileContainer::File(i) => INode::File(RamFile { inner: i }),
            FileContainer::Dir(i) => INode::Dir(RamDir { inner: i }),
            FileContainer::Link(i) => INode::Link(RamLink { inner: i }),
        }
    }

    /// The handle on what the entry stands for.
    pub fn to_inode(&self) -> (r: VfsResult<INode>)
        ensures
            r == Ok::<INode, Errno>(self.inode()),
    {
        match *self {
            FileContainer::File(i) => Ok(INode::File(RamFile { inner: i })),
            FileContainer::Dir(i) => Ok(INode::Dir(RamDir { inner: i })),
            FileContainer::Link(i) => Ok(INode::Link(RamLink { inner: i })),
        }
    }

    /// The name of what the entry stands for.
    pub fn filename<'a>(&self, fs: &'a RamFs) -> (r: &'a String)
        requires
            fs.holds_entry(*self),
        ensures
            r@ == fs.entry_name(*self),
    {
        match *self {
            FileContainer::File(i) => &fs.files[i].name,
            FileContainer::Dir(i) => &fs.dirs[i].name,
            FileContainer::Link(i) => &fs.links[i].name,
        }
    }
}

/// The entry stands for a directory with the name.
pub open spec fn is_dir_named(fs: RamFs, name: Seq<char>) -> spec_fn(FileContainer) -> bool {
    |entry: FileContainer| entry is Dir && fs.entry_name(entry) == name
}

/// The entry stands for a file or a link with the name.
pub open spec fn is_leaf_named(fs: RamFs, name: Seq<char>) -> spec_fn(FileContainer) -> bool {
    |entry: FileContainer| !(entry is Dir) && fs.entry_name(entry) == name
}

/// The entries for which `gone` does not hold, in their order.
pub open spec fn without(
    entries: Seq<FileContainer>,
    gone: spec_fn(FileContainer) -> bool,
) -> Seq<FileContainer> {
    entries.filter(|entry: FileContainer| !gone(entry))
}

/// A file that has just been made.
pub open spec fn fresh_file(file: RamFileInner, name: Seq<char>) -> bool {
    &&& file.wf()
    &&& file.name@ == name
    &&& file.len == 0
    &&& file.pages@.len() == 0
    &&& file.times@ == seq![TimeSpec::zero(), TimeSpec::zero(), TimeSpec::zero()]
}

/// The listing of one entry.
pub open spec fn listed(fs: RamFs, entry: FileContainer, line: DirEntry) -> bool {
    &&& line.filename@ == fs.entry_name(entry)
    &&& line.len == (match entry {
        FileContainer::File(i) => fs.files@[i as int].len,
        _ => 0,
    })
    &&& line.file_type == (match entry {
        FileContainer::File(_) => FileType::File,
        FileContainer::Dir(_) => FileType::Directory,
        FileContainer::Link(_) => FileType::Link,
    })
}

impl RamDir {
    /// The handle on the directory with the number.
    pub fn new(inner: usize) -> (r: RamDir)
        ensures
            r.inner == inner,
    {
        RamDir { inner }
    }

    /// A directory of the given name has been made and entered last.
    pub open spec fn directory_added(
        self,
        before: RamFs,
        after: RamFs,
        name: Seq<char>,
    ) -> bool {
        &&& RamFs::dirs_changed(
            before,
            after,
            self,
            before.entries(self).push(FileContainer::Dir(before.dirs@.len() as usize)),
            seq![DirView { name, children: Seq::empty() }],
        )
        &&& after.files@ == before.files@
        &&& after.links@ == before.links@
    }

    /// A file of the given name has been made and entered last.
    pub open spec fn file_added(self, before: RamFs, after: RamFs, name: Seq<char>) -> bool {
        &&& RamFs::dirs_changed(
            before,
            after,
            self,
            before.entries(self).push(FileContainer::File(before.files@.len() as usize)),
            Seq::empty(),
        )
        &&& after.files@.len() == before.files@.len() + 1
        &&& after.files@.drop_last() == before.files@
        &&& fresh_file(after.files@.last(), name)
        &&& after.links@ == before.links@
    }

    /// A link of the given name to `src` has been made and entered last.
    pub open spec fn link_added(
        self,
        before: RamFs,
        after: RamFs,
        name: Seq<char>,
        src: INode,
    ) -> bool {
        &&& RamFs::dirs_changed(
            before,
            after,
            self,
            before.entries(self).push(FileContainer::Link(before.links@.len() as usize)),
            Seq::empty(),
        )
        &&& after.links@.len() == before.links@.len() + 1
        &&& after.links@.drop_last() == before.links@
        &&& after.links@.last().name@ == name
        &&& after.links@.last().link_file == src
        &&& after.files@ == before.files@
    }

    /// The entries for which `gone` holds have been taken out, and it is an error if there
    /// were none.
    pub open spec fn entries_removed(
        self,
        before: RamFs,
        after: RamFs,
        gone: spec_fn(FileContainer) -> bool,
        result: VfsResult<()>,
    ) -> bool {
        &&& result == (if exists|i: int|
            0 <= i < before.entries(self).len() && gone(#[trigger] before.entries(self)[i]) {
            Ok::<(), Errno>(())
        } else {
            Err(Errno::ENOENT)
        })
        &&& RamFs::dirs_changed(
            before,
            after,
            self,
            without(before.entries(self), gone),
            Seq::empty(),
        )
        &&& after.files@ == before.files@
        &&& after.links@ == before.links@
    }

    /// Makes and enters a directory, whatever names are taken.
    fn add_directory(&self, fs: &mut RamFs, name: &str)
        requires
            old(fs).wf(),
            self.inner < old(fs).dirs@.len(),
        ensures
            final(fs).wf(),
            self.directory_added(*old(fs), *final(fs), name@),
    {
        let ghost before = *fs;
        let number: usize = fs.dirs.len();
        fs.dirs.push(RamDirInner { name: name.to_owned(), children: Vec::new() });
        fs.dirs[self.inner].children.push(FileContainer::Dir(number));
        proof {
            assert(fs.dir_views() =~= before.dir_views().update(
                self.inner as int,
                DirView {
                    name: before.dirs@[self.inner as int].name@,
                    children: before.entries(*self).push(FileContainer::Dir(number)),
                },
            ) + seq![DirView { name: name@, children: Seq::empty() }]);
            assert forall|d: int, k: int|
                0 <= d < fs.dirs@.len() && 0 <= k < fs.dirs@[d].children@.len() implies fs.holds_entry(
                #[trigger] fs.dirs@[d].children@[k],
            ) by {
                if d < before.dirs@.len() && k < before.dirs@[d].children@.len() {
                    assert(before.holds_entry(before.dirs@[d].children@[k]));
                }
            }
        }
    }

    /// Makes a directory.
    pub fn mkdir(&self, fs: &mut RamFs, name: &str) -> (r: VfsResult<()>)
        requires
            old(fs).wf(),
            self.inner < old(fs).dirs@.len(),
        ensures
            final(fs).wf(),
            if old(fs).has_name(*self, name@) {
                r == Err::<(), Errno>(Errno::EEXIST) && *final(fs) == *old(fs)
            } else {
                r == Ok::<(), Errno>(()) && self.directory_added(*old(fs), *final(fs), name@)
            },
    {
        if fs.find(*self, name).is_some() {
            return Err(Errno::EEXIST);
        }
        self.add_directory(fs, name);
        Ok(())
    }

    /// Finds the first object with the name.
    pub fn lookup(&self, fs: &RamFs, name: &str) -> (r: VfsResult<INode>)
        requires
            fs.wf(),
            self.inner < fs.dirs@.len(),
        ensures
            match r {
                Ok(node) => exists|i: int|
                    fs.first_named(*self, name@, i) && node == (#[trigger] fs.entries(
                        *self,
                    )[i]).inode(),
                Err(e) => !fs.has_name(*self, name@) && e == Errno::ENOENT,
            },
            r matches Ok(node) ==> fs.holds(node),
    {
        match fs.find(*self, name) {
            Some(i) => {
                assert(fs.holds_entry(fs.dirs@[self.inner as int].children@[i as int]));
                assert(fs.first_named(*self, name@, i as int));
                fs.dirs[self.inner].children[i].to_inode()
            },
            None => Err(Errno::ENOENT),
        }
    }

    /// Makes a directory or a file, even where the name is taken.
    pub fn create(&self, fs: &mut RamFs, name: &str, ty: FileType) -> (r: VfsResult<()>)
        requires
            old(fs).wf(),
            self.inner < old(fs).dirs@.len(),
            ty == FileType::Directory || ty == FileType::File,
        ensures
            final(fs).wf(),
            r == Ok::<(), Errno>(()),
            ty == FileType::Directory ==> self.directory_added(*old(fs), *final(fs), name@),
            ty == FileType::File ==> self.file_added(*old(fs), *final(fs), name@),
    {
        if ty == FileType::Directory {
            self.add_directory(fs, name);
            return Ok(());
        }
        let ghost before = *fs;
        let number: usize = fs.files.len();
        fs.files.push(RamFileInner::empty(name));
        fs.dirs[self.inner].children.push(FileContainer::File(number));
        proof {
            assert(fs.files@.drop_last() =~= before.files@);
            assert(fs.dir_views() =~= before.dir_views().update(
                self.inner as int,
                DirView {
                    name: before.dirs@[self.inner as int].name@,
                    children: before.entries(*self).push(FileContainer::File(number)),
                },
            ) + Seq::<DirView>::empty());
            assert forall|d: int, k: int|
                0 <= d < fs.dirs@.len() && 0 <= k < fs.dirs@[d].children@.len() implies fs.holds_entry(
                #[trigger] fs.dirs@[d].children@[k],
            ) by {
                if k < before.dirs@[d].children@.len() {
                    assert(before.holds_entry(before.dirs@[d].children@[k]));
                }
            }
        }
        Ok(())
    }

    /// Removes every directory with the name, empty or not.
    pub fn rmdir(&self, fs: &mut RamFs, name: &str) -> (r: VfsResult<()>)
        requires
            old(fs).wf(),
            self.inner < old(fs).dirs@.len(),
        ensures
            final(fs).wf(),
            self.entries_removed(*old(fs), *final(fs), is_dir_named(*old(fs), name@), r),
    {
        self.take_out(fs, name, true)
    }

    /// Removes every file and every link with the name.
    pub fn remove(&self, fs: &mut RamFs, name: &str) -> (r: VfsResult<()>)
        requires
            old(fs).wf(),
            self.inner < old(fs).dirs@.len(),
        ensures
            final(fs).wf(),
            self.entries_removed(*old(fs), *final(fs), is_leaf_named(*old(fs), name@), r),
    {
        self.take_out(fs, name, false)
    }

    /// Removes every file and every link with the name.
    pub fn unlink(&self, fs: &mut RamFs, name: &str) -> (r: VfsResult<()>)
        requires
            old(fs).wf(),
            self.inner < old(fs).dirs@.len(),
        ensures
            final(fs).wf(),
            self.entries_removed(*old(fs), *final(fs), is_leaf_named(*old(fs), name@), r),
    {
        self.remove(fs, name)
    }

    /// Removes the directories with the name, or else the files and links with the name.
    fn take_out(&self, fs: &mut RamFs, name: &str, directories: bool) -> (r: VfsResult<()>)
        requires
            old(fs).wf(),
            self.inner < old(fs).dirs@.len(),
        ensures
            final(fs).wf(),
            directories ==> self.entries_removed(
                *old(fs),
                *final(fs),
                is_dir_named(*old(fs), name@),
                r,
            ),
            !directories ==> self.entries_removed(
                *old(fs),
                *final(fs),
                is_leaf_named(*old(fs), name@),
                r,
            ),
    {
        let ghost before = *fs;
        let ghost gone = if directories {
            is_dir_named(before, name@)
        } else {
            is_leaf_named(before, name@)
        };
        let ghost stays = |entry: FileContainer| !gone(entry);
        let ghost all = before.entries(*self);
        let wanted: String = name.to_owned();
        let mut kept: Vec<FileContainer> = Vec::new();
        let mut removed: bool = false;
        let mut i: usize = 0;
        assert(all.take(0).filter(stays) =~= Seq::empty()) by {
            reveal(Seq::filter);
        }
        while i < fs.dirs[self.inner].children.len()
            invariant
                *fs == before,
                before.wf(),
                self.inner < before.dirs@.len(),
                all == before.entries(*self),
                wanted@ == name@,
                gone == (if directories {
                    is_dir_named(before, name@)
                } else {
                    is_leaf_named(before, name@)
                }),
                stays == (|entry: FileContainer| !gone(entry)),
                i <= all.len(),
                kept@ == all.take(i as int).filter(stays),
                removed == exists|j: int| 0 <= j < i && gone(#[trigger] all[j]),
            decreases all.len() - i,
        {
            let entry: FileContainer = fs.dirs[self.inner].children[i];
            assert(fs.holds_entry(fs.dirs@[self.inner as int].children@[i as int]));
            let is_dir: bool = matches!(entry, FileContainer::Dir(_));
            assert(all.take(i + 1).drop_last() =~= all.take(i as int));
            assert(all.take(i + 1).filter(stays) == (if stays(entry) {
                all.take(i as int).filter(stays).push(entry)
            } else {
                all.take(i as int).filter(stays)
            })) by {
                reveal(Seq::filter);
            }
            if is_dir == directories && *entry.filename(fs) == wanted {
                assert(gone(all[i as int]));
                removed = true;
            } else {
                kept.push(entry);
            }
            i = i + 1;
        }
        assert(all.take(all.len() as int) =~= all);
        assert(kept@ == all.filter(stays));
        fs.dirs[self.inner].children = kept;
        proof {
            assert(fs.dir_views() =~= before.dir_views().update(
                self.inner as int,
                DirView {
                    name: before.dirs@[self.inner as int].name@,
                    children: without(all, gone),
                },
            ) + Seq::<DirView>::empty());
            assert forall|d: int, k: int|
                0 <= d < fs.dirs@.len() && 0 <= k < fs.dirs@[d].children@.len() implies fs.holds_entry(
                #[trigger] fs.dirs@[d].children@[k],
            ) by {
                if d == self.inner {
                    let e = fs.dirs@[d].children@[k];
                    assert(all.filter(stays).contains(e));
                    all.lemma_filter_contains_rev(stays, e);
                    assert(all.contains(e));
                    let j = choose|j: int| 0 <= j < all.len() && all[j] == e;
                    assert(before.holds_entry(before.dirs@[d].children@[j]));
                } else {
                    assert(before.holds_entry(before.dirs@[d].children@[k]));
                }
            }
        }
        if removed {
            Ok(())
        } else {
            Err(Errno::ENOENT)
        }
    }

    /// Lists the directory.
    pub fn read_dir(&self, fs: &RamFs) -> (r: VfsResult<Vec<DirEntry>>)
        requires
            fs.wf(),
            self.inner < fs.dirs@.len(),
        ensures
            r is Ok,
            r->Ok_0@.len() == fs.entries(*self).len(),
            forall|i: int|
                0 <= i < fs.entries(*self).len() ==> listed(
                    *fs,
                    fs.entries(*self)[i],
                    #[trigger] r->Ok_0@[i],
                ),
    {
        let mut out: Vec<DirEntry> = Vec::new();
        let mut i: usize = 0;
        while i < fs.dirs[self.inner].children.len()
            invariant
                fs.wf(),
                self.inner < fs.dirs@.len(),
                i <= fs.entries(*self).len(),
                out@.len() == i,
                forall|j: int|
                    0 <= j < i ==> listed(*fs, fs.entries(*self)[j], #[trigger] out@[j]),
            decreases fs.entries(*self).len() - i,
        {
            let entry: FileContainer = fs.dirs[self.inner].children[i];
            assert(fs.holds_entry(fs.dirs@[self.inner as int].children@[i as int]));
            let filename: String = entry.filename(fs).clone();
            let line: DirEntry = match entry {
                FileContainer::File(f) => DirEntry {
                    filename,
                    len: fs.files[f].len,
                    file_type: FileType::File,
                },
                FileContainer::Dir(_) => DirEntry {
                    filename,
                    len: 0,
                    file_type: FileType::Directory,
                },
                FileContainer::Link(_) => DirEntry { filename, len: 0, file_type: FileType::Link },
            };
            out.push(line);
            i = i + 1;
        }
        Ok(out)
    }

    /// Fills in the metadata of a directory. The device number is left alone.
    pub fn stat(&self, stat: &mut Stat) -> (r: VfsResult<()>)
        ensures
            r == Ok::<(), Errno>(()),
            *final(stat) == (Stat {
                ino: 1,
                mode: StatMode { bits: MODE_DIR },
                nlink: 1,
                blksize: 512,
                dev: old(stat).dev,
                ..Stat::zero()
            }),
    {
        let zero: TimeSpec = TimeSpec { sec: 0, nsec: 0 };
        stat.ino = 1;
        stat.mode = StatMode { bits: MODE_DIR };
        stat.nlink = 1;
        stat.uid = 0;
        stat.gid = 0;
        stat.size = 0;
        stat.blksize = 512;
        stat.blocks = 0;
        stat.rdev = 0;
        stat.mtime = zero;
        stat.atime = zero;
        stat.ctime = zero;
        Ok(())
    }

    /// Makes a link to `src`.
    pub fn link(&self, fs: &mut RamFs, name: &str, src: INode) -> (r: VfsResult<()>)
        requires
            old(fs).wf(),
            self.inner < old(fs).dirs@.len(),
            old(fs).holds(src),
        ensures
            final(fs).wf(),
            if old(fs).has_name(*self, name@) {
                r == Err::<(), Errno>(Errno::EEXIST) && *final(fs) == *old(fs)
            } else {
                r == Ok::<(), Errno>(()) && self.link_added(*old(fs), *final(fs), name@, src)
            },
    {
        if fs.find(*self, name).is_some() {
            return Err(Errno::EEXIST);
        }
        let ghost before = *fs;
        let number: usize = fs.links.len();
        fs.links.push(RamLinkInner { name: name.to_owned(), link_file: src });
        fs.dirs[self.inner].children.push(FileContainer::Link(number));
        proof {
            assert(fs.links@.drop_last() =~= before.links@);
            assert(fs.dir_views() =~= before.dir_views().update(
                self.inner as int,
                DirView {
                    name: before.dirs@[self.inner as int].name@,
                    children: before.entries(*self).push(FileContainer::Link(number)),
                },
            ) + Seq::<DirView>::empty());
            assert forall|d: int, k: int|
                0 <= d < fs.dirs@.len() && 0 <= k < fs.dirs@[d].children@.len() implies fs.holds_entry(
                #[trigger] fs.dirs@[d].children@[k],
            ) by {
                if k < before.dirs@[d].children@.len() {
                    assert(before.holds_entry(before.dirs@[d].children@[k]));
                }
            }
            assert forall|i: int| 0 <= i < fs.links@.len() implies fs.holds(
                (#[trigger] fs.links@[i]).link_file,
            ) by {
                if i < before.links@.len() {
                    assert(before.holds(before.links@[i].link_file));
                }
            }
            assert forall|i: int| 0 <= i < fs.links@.len() implies ((
            #[trigger] fs.links@[i]).link_file matches INode::Link(l) ==> l.inner < i) by {
                if i < before.links@.len() {
                    assert(before.holds(before.links@[i].link_file));
                }
            }
        }
        Ok(())
    }
}

/// At most the file with the number differs.
pub open spec fn only_file_changed(before: RamFs, after: RamFs, file: usize) -> bool {
    &&& after.files@.len() == before.files@.len()
    &&& forall|i: int|
        0 <= i < before.files@.len() && i != file ==> #[trigger] after.files@[i]
            == before.files@[i]
    &&& after.dirs@ == before.dirs@
    &&& after.links@ == before.links@
}

impl RamFile {
    /// The handle on the file with the number.
    pub fn new(inner: usize) -> (r: RamFile)
        ensures
            r.inner == inner,
    {
        RamFile { inner }
    }

    /// Reads from the file into `buffer`.
    pub fn readat(&self, fs: &RamFs, offset: usize, buffer: &mut [u8]) -> (r: VfsResult<usize>)
        requires
            fs.wf(),
            self.inner < fs.files@.len(),
            fs.files@[self.inner as int].backed(offset as int, old(buffer)@.len() as int),
        ensures
            r == Ok::<usize, Errno>(
                fs.files@[self.inner as int].readable(
                    offset as int,
                    old(buffer)@.len() as int,
                ) as usize,
            ),
            final(buffer)@ == overwrite(
                old(buffer)@,
                0,
                fs.files@[self.inner as int].contents(offset as int, old(buffer)@.len() as int),
            ),
    {
        fs.files[self.inner].readat(offset, buffer)
    }

    /// Writes `buffer` at `offset`, with the frames `granted` that the allocator handed over.
    pub fn writeat(
        &self,
        fs: &mut RamFs,
        offset: usize,
        buffer: &[u8],
        granted: Vec<Page>,
    ) -> (r: VfsResult<usize>)
        requires
            old(fs).wf(),
            self.inner < old(fs).files@.len(),
            offset + buffer@.len() <= usize::MAX,
            granted@.len() <= frames_missing(
                old(fs).files@[self.inner as int].pages@.len() as int,
                offset + buffer@.len(),
            ),
            pages_wf(old(fs).files@[self.inner as int].pages@ + granted@),
        ensures
            final(fs).wf(),
            only_file_changed(*old(fs), *final(fs), self.inner),
            RamFileInner::written(
                old(fs).files@[self.inner as int],
                final(fs).files@[self.inner as int],
                offset as int,
                buffer@,
                granted@,
                r,
            ),
    {
        let ghost before = *fs;
        let r = fs.files[self.inner].writeat(offset, buffer, granted);
        proof {
            lemma_file_change_keeps_wf(before, *fs, self.inner);
        }
        r
    }

    /// Sets the size, with the frames `granted` that the allocator handed over.
    pub fn truncate(&self, fs: &mut RamFs, size: usize, granted: Vec<Page>) -> (r: VfsResult<()>)
        requires
            old(fs).wf(),
            self.inner < old(fs).files@.len(),
            granted@.len() <= frames_missing(
                old(fs).files@[self.inner as int].pages@.len() as int,
                size as int,
            ),
            pages_wf(old(fs).files@[self.inner as int].pages@ + granted@),
        ensures
            final(fs).wf(),
            only_file_changed(*old(fs), *final(fs), self.inner),
            RamFileInner::resized(
                old(fs).files@[self.inner as int],
                final(fs).files@[self.inner as int],
                size as int,
                granted@,
                r,
            ),
    {
        let ghost before = *fs;
        let r = fs.files[self.inner].truncate(size, granted);
        proof {
            lemma_file_change_keeps_wf(before, *fs, self.inner);
        }
        r
    }

    /// Fills in the metadata of the file.
    pub fn stat(&self, fs: &RamFs, stat: &mut Stat) -> (r: VfsResult<()>)
        requires
            self.inner < fs.files@.len(),
        ensures
            r == Ok::<(), Errno>(()),
            *final(stat) == fs.files@[self.inner as int].stat_of(*old(stat)),
    {
        fs.files[self.inner].stat(stat)
    }

    /// Sets access and modification time, each unless it asks to be left alone.
    pub fn utimes(&self, fs: &mut RamFs, times: &[TimeSpec]) -> (r: VfsResult<()>)
        requires
            old(fs).wf(),
            self.inner < old(fs).files@.len(),
            times@.len() >= 2,
        ensures
            final(fs).wf(),
            r == Ok::<(), Errno>(()),
            only_file_changed(*old(fs), *final(fs), self.inner),
            ({
                let was = old(fs).files@[self.inner as int];
                let is = final(fs).files@[self.inner as int];
                &&& is.times@ == seq![
                    was.times@[0],
                    (if times@[0].nsec != UTIME_OMIT {
                        times@[0]
                    } else {
                        was.times@[1]
                    }),
                    (if times@[1].nsec != UTIME_OMIT {
                        times@[1]
                    } else {
                        was.times@[2]
                    }),
                ]
                &&& is.name == was.name
                &&& is.len == was.len
                &&& is.pages == was.pages
            }),
    {
        let ghost before = *fs;
        let r = fs.files[self.inner].utimes(times);
        proof {
            lemma_file_change_keeps_wf(before, *fs, self.inner);
        }
        r
    }
}

proof fn lemma_file_change_keeps_wf(before: RamFs, after: RamFs, file: usize)
    requires
        before.wf(),
        file < before.files@.len(),
        only_file_changed(before, after, file),
        after.files@[file as int].wf(),
    ensures
        after.wf(),
{
    assert forall|i: int| 0 <= i < after.files@.len() implies (#[trigger] after.files@[i]).wf() by {
        if i != file {
            assert(before.files@[i].wf());
        }
    }
    assert forall|d: int, k: int|
        0 <= d < after.dirs@.len() && 0 <= k < after.dirs@[d].children@.len() implies after.holds_entry(
        #[trigger] after.dirs@[d].children@[k],
    ) by {
        assert(before.holds_entry(before.dirs@[d].children@[k]));
    }
    assert forall|i: int| 0 <= i < after.links@.len() implies after.holds(
        (#[trigger] after.links@[i]).link_file,
    ) && (after.links@[i].link_file matches INode::Link(l) ==> l.inner < i) by {
        assert(before.holds(before.links@[i].link_file));
    }
}

impl RamLink {
    /// The file that reads and writes of the link reach.
    pub open spec fn file(self, fs: RamFs) -> Option<usize> {
        RamFs::file_behind(fs.links@, INode::Link(self))
    }

    /// Fills in the metadata of the link itself; `address` is where the kernel keeps the handle.
    pub fn stat(&self, stat: &mut Stat, address: u64) -> (r: VfsResult<()>)
        ensures
            r == Ok::<(), Errno>(()),
            *final(stat) == (Stat {
                ino: address,
                blksize: 4096,
                blocks: 8,
                size: 3,
                uid: 0,
                gid: 0,
                mode: StatMode { bits: MODE_LINK },
                ..*old(stat)
            }),
    {
        stat.ino = address;
        stat.blksize = 4096;
        stat.blocks = 8;
        stat.size = 3;
        stat.uid = 0;
        stat.gid = 0;
        stat.mode = StatMode { bits: MODE_LINK };
        Ok(())
    }

    /// Reads from the file that the link leads to.
    pub fn readat(&self, fs: &RamFs, offset: usize, buffer: &mut [u8]) -> (r: VfsResult<usize>)
        requires
            fs.wf(),
            self.inner < fs.links@.len(),
            self.file(*fs) is Some,
            fs.files@[self.file(*fs)->0 as int].backed(offset as int, old(buffer)@.len() as int),
        ensures
            r == Ok::<usize, Errno>(
                fs.files@[self.file(*fs)->0 as int].readable(
                    offset as int,
                    old(buffer)@.len() as int,
                ) as usize,
            ),
            final(buffer)@ == overwrite(
                old(buffer)@,
                0,
                fs.files@[self.file(*fs)->0 as int].contents(
                    offset as int,
                    old(buffer)@.len() as int,
                ),
            ),
    {
        let file: usize = fs.resolve(INode::Link(*self)).unwrap();
        RamFile { inner: file }.readat(fs, offset, buffer)
    }

    /// Writes to the file that the link leads to.
    pub fn writeat(
        &self,
        fs: &mut RamFs,
        offset: usize,
        buffer: &[u8],
        granted: Vec<Page>,
    ) -> (r: VfsResult<usize>)
        requires
            old(fs).wf(),
            self.inner < old(fs).links@.len(),
            self.file(*old(fs)) is Some,
            offset + buffer@.len() <= usize::MAX,
            granted@.len() <= frames_missing(
                old(fs).files@[self.file(*old(fs))->0 as int].pages@.len() as int,
                offset + buffer@.len(),
            ),
            pages_wf(old(fs).files@[self.file(*old(fs))->0 as int].pages@ + granted@),
        ensures
            final(fs).wf(),
            only_file_changed(*old(fs), *final(fs), self.file(*old(fs))->0),
            RamFileInner::written(
                old(fs).files@[self.file(*old(fs))->0 as int],
                final(fs).files@[self.file(*old(fs))->0 as int],
                offset as int,
                buffer@,
                granted@,
                r,
            ),
    {
        let file: usize = fs.resolve(INode::Link(*self)).unwrap();
        RamFile { inner: file }.writeat(fs, offset, buffer, granted)
    }

    /// Sets the size of the file that the link leads to.
    pub fn truncate(&self, fs: &mut RamFs, size: usize, granted: Vec<Page>) -> (r: VfsResult<()>)
        requires
            old(fs).wf(),
            self.inner < old(fs).links@.len(),
            self.file(*old(fs)) is Some,
            granted@.len() <= frames_missing(
                old(fs).files@[self.file(*old(fs))->0 as int].pages@.len() as int,
                size as int,
            ),
            pages_wf(old(fs).files@[self.file(*old(fs))->0 as int].pages@ + granted@),
        ensures
            final(fs).wf(),
            only_file_changed(*old(fs), *final(fs), self.file(*old(fs))->0),
            RamFileInner::resized(
                old(fs).files@[self.file(*old(fs))->0 as int],
                final(fs).files@[self.file(*old(fs))->0 as int],
                size as int,
                granted@,
                r,
            ),
    {
        let file: usize = fs.resolve(INode::Link(*self)).unwrap();
        RamFile { inner: file }.truncate(fs, size, granted)
    }
}

proof fn lemma_old_entries_keep_names(before: RamFs, after: RamFs, dir: RamDir, children: Seq<
    FileContainer,
>, added: Seq<DirView>, entry: FileContainer)
    requires
        before.wf(),
        dir.inner < before.dirs@.len(),
        before.holds_entry(entry),
        RamFs::dirs_changed(before, after, dir, children, added),
        after.files@.len() >= before.files@.len(),
        forall|i: int|
            0 <= i < before.files@.len() ==> #[trigger] after.files@[i] == before.files@[i],
        after.links@.len() >= before.links@.len(),
        forall|i: int|
            0 <= i < before.links@.len() ==> #[trigger] after.links@[i] == before.links@[i],
    ensures
        after.entry_name(entry) == before.entry_name(entry),
        after.entries(dir) == children,
{
    let views = before.dir_views().update(
        dir.inner as int,
        DirView { name: before.dirs@[dir.inner as int].name@, children },
    );
    assert(after.dir_views().len() == after.dirs@.len() && before.dir_views().len()
        == before.dirs@.len());
    assert(after.dir_views()[dir.inner as int] == views[dir.inner as int]);
    assert(after.dir_views()[dir.inner as int] == after.dirs@[dir.inner as int]@);
    if let FileContainer::Dir(i) = entry {
        assert(after.dir_views()[i as int] == views[i as int]);
        assert(after.dir_views()[i as int] == after.dirs@[i as int]@);
        assert(before.dir_views()[i as int] == before.dirs@[i as int]@);
    }
}

/// A directory that has just been made under a free name is what a lookup of that name finds.
pub proof fn law_lookup_after_mkdir(before: RamFs, after: RamFs, dir: RamDir, name: Seq<char>)
    requires
        before.wf(),
        dir.inner < before.dirs@.len(),
        before.dirs@.len() < usize::MAX,
        !before.has_name(dir, name),
        dir.directory_added(before, after, name),
    ensures
        after.first_named(dir, name, before.entries(dir).len() as int),
        after.entries(dir)[before.entries(dir).len() as int] == FileContainer::Dir(
            before.dirs@.len() as usize,
        ),
        after.entries(RamDir { inner: before.dirs@.len() as usize }).len() == 0,
{
    let entry = FileContainer::Dir(before.dirs@.len() as usize);
    let children = before.entries(dir).push(entry);
    let added = seq![DirView { name, children: Seq::<FileContainer>::empty() }];
    lemma_absent(before, dir, name);
    assert forall|j: int| 0 <= j < before.entries(dir).len() implies after.entry_name(
        #[trigger] after.entries(dir)[j],
    ) != name by {
        let e = before.entries(dir)[j];
        assert(before.holds_entry(before.dirs@[dir.inner as int].children@[j]));
        lemma_old_entries_keep_names(before, after, dir, children, added, e);
    }
    assert(before.holds_entry(FileContainer::Dir(dir.inner)));
    lemma_old_entries_keep_names(
        before,
        after,
        dir,
        children,
        added,
        FileContainer::Dir(dir.inner),
    );
    let n = before.dirs@.len() as int;
    assert(after.dir_views().len() == after.dirs@.len() && before.dir_views().len() == n);
    assert(after.dir_views()[n] == added[0]);
    assert(after.dir_views()[n] == after.dirs@[n]@);
}

/// A file that has just been made under a free name is what a lookup of that name finds, and it
/// is empty.
pub proof fn law_lookup_after_create(before: RamFs, after: RamFs, dir: RamDir, name: Seq<char>)
    requires
        before.wf(),
        dir.inner < before.dirs@.len(),
        before.files@.len() <= usize::MAX,
        !before.has_name(dir, name),
        dir.file_added(before, after, name),
    ensures
        after.first_named(dir, name, before.entries(dir).len() as int),
        after.entries(dir)[before.entries(dir).len() as int] == FileContainer::File(
            before.files@.len() as usize,
        ),
        after.files@[before.files@.len() as int].len == 0,
{
    let entry = FileContainer::File(before.files@.len() as usize);
    let children = before.entries(dir).push(entry);
    assert forall|i: int| 0 <= i < before.files@.len() implies #[trigger] after.files@[i]
        == before.files@[i] by {
        assert(after.files@.drop_last()[i] == before.files@[i]);
    }
    lemma_absent(before, dir, name);
    assert forall|j: int| 0 <= j < before.entries(dir).len() implies after.entry_name(
        #[trigger] after.entries(dir)[j],
    ) != name by {
        let e = before.entries(dir)[j];
        assert(before.holds_entry(before.dirs@[dir.inner as int].children@[j]));
        lemma_old_entries_keep_names(before, after, dir, children, Seq::empty(), e);
    }
    lemma_old_entries_keep_names(
        before,
        after,
        dir,
        children,
        Seq::empty(),
        FileContainer::Dir(dir.inner),
    );
}

proof fn lemma_absent(fs: RamFs, dir: RamDir, name: Seq<char>)
    requires
        !fs.has_name(dir, name),
    ensures
        forall|j: int|
            0 <= j < fs.entries(dir).len() ==> fs.entry_name(#[trigger] fs.entries(dir)[j])
                != name,
{
    assert forall|j: int| 0 <= j < fs.entries(dir).len() implies fs.entry_name(
        #[trigger] fs.entries(dir)[j],
    ) != name by {
        lemma_absent_up_to(fs, dir, name, j + 1);
    }
}

proof fn lemma_absent_up_to(fs: RamFs, dir: RamDir, name: Seq<char>, n: int)
    requires
        !fs.has_name(dir, name),
        0 <= n <= fs.entries(dir).len(),
    ensures
        forall|j: int| 0 <= j < n ==> fs.entry_name(#[trigger] fs.entries(dir)[j]) != name,
    decreases n,
{
    if n > 0 {
        lemma_absent_up_to(fs, dir, name, n - 1);
        assert(!fs.first_named(dir, name, n - 1));
    }
}

/// After a removal no file and no link has the name; what else the directory holds is still
/// there, in the same order.
pub proof fn law_remove_takes_all(
    before: RamFs,
    after: RamFs,
    dir: RamDir,
    name: Seq<char>,
    result: VfsResult<()>,
)
    requires
        before.wf(),
        dir.inner < before.dirs@.len(),
        dir.entries_removed(before, after, is_leaf_named(before, name), result),
    ensures
        after.entries(dir) == without(before.entries(dir), is_leaf_named(before, name)),
        forall|i: int|
            0 <= i < after.entries(dir).len() ==> {
                ||| (#[trigger] after.entries(dir)[i]) is Dir
                ||| after.entry_name(after.entries(dir)[i]) != name
            },
{
    let gone = is_leaf_named(before, name);
    let children = without(before.entries(dir), gone);
    let stays = |entry: FileContainer| !gone(entry);
    lemma_old_entries_keep_names(
        before,
        after,
        dir,
        children,
        Seq::empty(),
        FileContainer::Dir(dir.inner),
    );
    assert forall|i: int| 0 <= i < after.entries(dir).len() implies {
        ||| (#[trigger] after.entries(dir)[i]) is Dir
        ||| after.entry_name(after.entries(dir)[i]) != name
    } by {
        let e = after.entries(dir)[i];
        assert(before.entries(dir).filter(stays).contains(e));
        before.entries(dir).lemma_filter_contains_rev(stays, e);
        before.entries(dir).lemma_filter_pred(stays, i);
        let j = choose|j: int| 0 <= j < before.entries(dir).len() && before.entries(dir)[j] == e;
        assert(before.holds_entry(before.dirs@[dir.inner as int].children@[j]));
        lemma_old_entries_keep_names(before, after, dir, children, Seq::empty(), e);
    }
}

/// A link that has just been made leads to the file that its source leads to.
pub proof fn law_link_leads_to_source(
    before: RamFs,
    after: RamFs,
    dir: RamDir,
    name: Seq<char>,
    src: INode,
)
    requires
        before.wf(),
        before.holds(src),
        before.links@.len() < usize::MAX,
        dir.link_added(before, after, name, src),
    ensures
        (RamLink { inner: before.links@.len() as usize }).file(after) == RamFs::file_behind(
            before.links@,
            src,
        ),
{
    let n = before.links@.len() as int;
    assert(after.links@[n] == after.links@.last());
    lemma_more_links(before.links@, after.links@, src);
}

proof fn lemma_more_links(links: Seq<RamLinkInner>, more: Seq<RamLinkInner>, node: INode)
    requires
        more.len() > links.len(),
        more.take(links.len() as int) == links,
        node matches INode::Link(l) ==> l.inner < links.len(),
    ensures
        RamFs::file_behind(more, node) == RamFs::file_behind(links, node),
    decreases
            match node {
                INode::Link(l) => l.inner + 1,
                _ => 0,
            },
{
    if let INode::Link(l) = node {
        assert(more.take(links.len() as int)[l.inner as int] == more[l.inner as int]);
        let next = links[l.inner as int].link_file;
        if next matches INode::Link(m) ==> m.inner < l.inner {
            lemma_more_links(links, more, next);
        }
    }
}

/// Where a name is taken, a file that is made under it again is not found: the older object still is.
pub proof fn law_older_name_wins(
    before: RamFs,
    after: RamFs,
    dir: RamDir,
    name: Seq<char>,
    i: int,
)
    requires
        before.wf(),
        dir.inner < before.dirs@.len(),
        before.first_named(dir, name, i),
        dir.file_added(before, after, name),
    ensures
        after.first_named(dir, name, i),
        after.entries(dir)[i] == before.entries(dir)[i],
{
    let children = before.entries(dir).push(FileContainer::File(before.files@.len() as usize));
    assert forall|k: int| 0 <= k < before.files@.len() implies #[trigger] after.files@[k]
        == before.files@[k] by {
        assert(after.files@.drop_last()[k] == before.files@[k]);
    }
    assert forall|j: int| 0 <= j <= i implies after.entry_name(#[trigger] after.entries(dir)[j])
        == before.entry_name(before.entries(dir)[j]) && after.entries(dir)[j]
        == before.entries(dir)[j] by {
        assert(before.holds_entry(before.dirs@[dir.inner as int].children@[j]));
        lemma_old_entries_keep_names(
            before,
            after,
            dir,
            children,
            Seq::empty(),
            before.entries(dir)[j],
        );
    }
    lemma_old_entries_keep_names(
        before,
        after,
        dir,
        children,
        Seq::empty(),
        FileContainer::Dir(dir.inner),
    );
    assert forall|j: int| 0 <= j < i implies after.entry_name(#[trigger] after.entries(dir)[j])
        != name by {
        assert(before.entry_name(before.entries(dir)[j]) != name);
    }
}

/// An entry stands for the object of its sort that has its number: the name and the handle are those
/// of that object.
pub proof fn law_entries_stand_for_objects(fs: RamFs, i: usize)
    ensures
        fs.entry_name(FileContainer::File(i)) == fs.files@[i as int].name@,
        fs.entry_name(FileContainer::Dir(i)) == fs.dirs@[i as int].name@,
        fs.entry_name(FileContainer::Link(i)) == fs.links@[i as int].name@,
        FileContainer::File(i).inode() == INode::File(RamFile { inner: i }),
        FileContainer::Dir(i).inode() == INode::Dir(RamDir { inner: i }),
        FileContainer::Link(i).inode() == INode::Link(RamLink { inner: i }),
{
}

/// A name is there exactly if some entry has it. What a lookup finds is the oldest entry with the
/// name, and there is only one such entry.
pub proof fn law_lookup_finds_the_oldest(fs: RamFs, dir: RamDir, name: Seq<char>)
    requires
        dir.inner < fs.dirs@.len(),
    ensures
        fs.has_name(dir, name) <==> exists|i: int|
            0 <= i < fs.dirs@[dir.inner as int].children@.len() && fs.entry_name(
                #[trigger] fs.dirs@[dir.inner as int].children@[i],
            ) == name,
        forall|i: int, j: int|
            fs.first_named(dir, name, i) && 0 <= j < fs.dirs@[dir.inner as int].children@.len()
                && fs.entry_name(#[trigger] fs.dirs@[dir.inner as int].children@[j]) == name
                ==> i <= j && fs.entry_name(#[trigger] fs.dirs@[dir.inner as int].children@[i])
                == name,
{
    let all = fs.dirs@[dir.inner as int].children@;
    assert(all == fs.entries(dir));
    if !fs.has_name(dir, name) {
        lemma_absent(fs, dir, name);
    } else {
        let i = choose|i: int| fs.first_named(dir, name, i);
        assert(fs.entry_name(all[i]) == name);
    }
}

/// A handle on a file reads and writes that very file, one on a directory no file at all, and a link
/// reads and writes what the object reads and writes that it was made to.
pub proof fn law_links_are_followed(fs: RamFs, node: INode)
    requires
        fs.wf(),
        fs.holds(node),
    ensures
        node matches INode::File(f) ==> RamFs::file_behind(fs.links@, node) == Some(f.inner),
        node matches INode::Dir(_) ==> RamFs::file_behind(fs.links@, node) is None,
        node matches INode::Link(l) ==> l.file(fs) == RamFs::file_behind(
            fs.links@,
            fs.links@[l.inner as int].link_file,
        ),
{
    if let INode::Link(l) = node {
        assert(fs.holds(fs.links@[l.inner as int].link_file));
    }
}

/// A link that has just been made to a file reads and writes that file, one to a directory reads and
/// writes nothing, and every older link reads and writes what it did. A lookup of the free name finds
/// the new link.
pub proof fn law_new_link_reaches_its_file(
    before: RamFs,
    after: RamFs,
    dir: RamDir,
    name: Seq<char>,
    src: INode,
    old_link: RamLink,
)
    requires
        before.wf(),
        before.holds(src),
        before.links@.len() < usize::MAX,
        dir.inner < before.dirs@.len(),
        dir.link_added(before, after, name, src),
        old_link.inner < before.links@.len(),
    ensures
        ({
            let made = RamLink { inner: before.links@.len() as usize };
            &&& src matches INode::File(f) ==> made.file(after) == Some(f.inner)
            &&& src matches INode::Dir(_) ==> made.file(after) is None
            &&& src matches INode::Link(l) ==> made.file(after) == l.file(before)
            &&& after.links@[made.inner as int].name@ == name
            &&& after.entries(dir) == before.entries(dir).push(FileContainer::Link(made.inner))
        }),
        old_link.file(after) == old_link.file(before),
        after.links@[old_link.inner as int] == before.links@[old_link.inner as int],
        !before.has_name(dir, name) ==> after.first_named(
            dir,
            name,
            before.entries(dir).len() as int,
        ),
        after.files@ == before.files@,
{
    let n = before.links@.len() as int;
    let entry = FileContainer::Link(n as usize);
    let children = before.entries(dir).push(entry);
    assert(after.links@[n] == after.links@.last());
    assert(after.links@.take(n) =~= after.links@.drop_last());
    lemma_more_links(before.links@, after.links@, src);
    lemma_more_links(before.links@, after.links@, INode::Link(old_link));
    assert forall|i: int| 0 <= i < before.links@.len() implies #[trigger] after.links@[i]
        == before.links@[i] by {
        assert(after.links@.drop_last()[i] == before.links@[i]);
    }
    lemma_old_entries_keep_names(
        before,
        after,
        dir,
        children,
        Seq::empty(),
        FileContainer::Dir(dir.inner),
    );
    if !before.has_name(dir, name) {
        lemma_absent(before, dir, name);
        assert forall|j: int| 0 <= j < before.entries(dir).len() implies after.entry_name(
            #[trigger] after.entries(dir)[j],
        ) != name by {
            let e = before.entries(dir)[j];
            assert(before.holds_entry(before.dirs@[dir.inner as int].children@[j]));
            lemma_old_entries_keep_names(before, after, dir, children, Seq::empty(), e);
        }
    }
}

proof fn lemma_removed(
    before: RamFs,
    after: RamFs,
    dir: RamDir,
    gone: spec_fn(FileContainer) -> bool,
    result: VfsResult<()>,
)
    requires
        before.wf(),
        dir.inner < before.dirs@.len(),
        dir.entries_removed(before, after, gone, result),
    ensures
        after.entries(dir) == before.entries(dir).filter(|e: FileContainer| !gone(e)),
        forall|e: FileContainer|
            before.entries(dir).contains(e) && !#[trigger] gone(e) ==> after.entries(dir).contains(e),
        forall|e: FileContainer|
            after.entries(dir).contains(e) ==> before.entries(dir).contains(e)
                && !#[trigger] gone(e),
        forall|e: FileContainer| #[trigger]
            before.holds_entry(e) ==> after.entry_name(e) == before.entry_name(e),
        forall|d: int|
            0 <= d < before.dirs@.len() && d != dir.inner ==> (#[trigger] after.dirs@[d])@
                == before.dirs@[d]@,
        after.dirs@.len() == before.dirs@.len(),
{
    let all = before.entries(dir);
    let stays = |e: FileContainer| !gone(e);
    lemma_old_entries_keep_names(
        before,
        after,
        dir,
        without(all, gone),
        Seq::empty(),
        FileContainer::Dir(dir.inner),
    );
    assert forall|e: FileContainer|
        before.entries(dir).contains(e) && !#[trigger] gone(e) implies after.entries(dir).contains(
        e,
    ) by {
        let k = choose|k: int| 0 <= k < all.len() && all[k] == e;
        all.lemma_filter_contains(stays, k);
    }
    assert forall|e: FileContainer| after.entries(dir).contains(e) implies before.entries(
        dir,
    ).contains(e) && !#[trigger] gone(e) by {
        all.lemma_filter_contains_rev(stays, e);
        let k = choose|k: int| 0 <= k < after.entries(dir).len() && after.entries(dir)[k] == e;
        all.lemma_filter_pred(stays, k);
    }
    assert forall|e: FileContainer| #[trigger] before.holds_entry(e) implies after.entry_name(e)
        == before.entry_name(e) by {
        lemma_old_entries_keep_names(before, after, dir, without(all, gone), Seq::empty(), e);
    }
    assert(after.dir_views().len() == after.dirs@.len() && before.dir_views().len()
        == before.dirs@.len());
    assert forall|d: int| 0 <= d < before.dirs@.len() && d != dir.inner implies (
    #[trigger] after.dirs@[d])@ == before.dirs@[d]@ by {
        assert(after.dir_views()[d] == after.dirs@[d]@);
        assert(before.dir_views()[d] == before.dirs@[d]@);
    }
}

/// Removing a directory by name takes out the directories with that name and nothing else: what has
/// another name, and files and links with the name, stay in their order. It succeeds exactly if there
/// was such a directory. Other directories, all files and all links are as before.
pub proof fn law_rmdir_takes_the_named(
    before: RamFs,
    after: RamFs,
    dir: RamDir,
    name: Seq<char>,
    result: VfsResult<()>,
    e: FileContainer,
)
    requires
        before.wf(),
        dir.inner < before.dirs@.len(),
        dir.entries_removed(before, after, is_dir_named(before, name), result),
    ensures
        after.entries(dir) == before.entries(dir).filter(
            |x: FileContainer| !(x is Dir && before.entry_name(x) == name),
        ),
        before.entries(dir).contains(e) && !(e is Dir && before.entry_name(e) == name)
            ==> after.entries(dir).contains(e),
        after.entries(dir).contains(e) ==> before.entries(dir).contains(e) && !(e is Dir
            && after.entry_name(e) == name),
        result is Ok <==> exists|i: int|
            0 <= i < before.entries(dir).len() && (#[trigger] before.entries(dir)[i]) is Dir
                && before.entry_name(before.entries(dir)[i]) == name,
        result is Err ==> result->Err_0 == Errno::ENOENT && after.entries(dir) == before.entries(
            dir,
        ),
        forall|d: int|
            0 <= d < before.dirs@.len() && d != dir.inner ==> (#[trigger] after.dirs@[d])@
                == before.dirs@[d]@,
        after.files@ == before.files@,
        after.links@ == before.links@,
{
    let gone = is_dir_named(before, name);
    let all = before.entries(dir);
    lemma_removed(before, after, dir, gone, result);
    assert((|x: FileContainer| !gone(x)) =~= (|x: FileContainer|
        !(x is Dir && before.entry_name(x) == name)));
    if all.contains(e) {
        let k = choose|k: int| 0 <= k < all.len() && all[k] == e;
        assert(before.holds_entry(before.dirs@[dir.inner as int].children@[k]));
    }
    assert(gone(e) == (e is Dir && before.entry_name(e) == name));
    if exists|i: int|
        0 <= i < all.len() && (#[trigger] all[i]) is Dir && before.entry_name(all[i]) == name {
        let i = choose|i: int|
            0 <= i < all.len() && (#[trigger] all[i]) is Dir && before.entry_name(all[i]) == name;
        assert(gone(all[i]));
    }
    if result is Err {
        lemma_filter_all(all, |x: FileContainer| !gone(x));
    }
}

proof fn lemma_filter_all(all: Seq<FileContainer>, stays: spec_fn(FileContainer) -> bool)
    requires
        forall|i: int| 0 <= i < all.len() ==> stays(#[trigger] all[i]),
    ensures
        all.filter(stays) == all,
    decreases all.len(),
{
    reveal(Seq::filter);
    if all.len() > 0 {
        lemma_filter_all(all.drop_last(), stays);
        assert(all.drop_last().push(all.last()) =~= all);
        assert(stays(all[all.len() - 1]));
    }
}

/// Removing a file or link by name takes out the files and links with that name and nothing else:
/// what has another name, and directories with the name, stay in their order. It succeeds exactly if
/// there was one. Other directories, all files and all links are as before.
pub proof fn law_remove_takes_the_named(
    before: RamFs,
    after: RamFs,
    dir: RamDir,
    name: Seq<char>,
    result: VfsResult<()>,
    e: FileContainer,
)
    requires
        before.wf(),
        dir.inner < before.dirs@.len(),
        dir.entries_removed(before, after, is_leaf_named(before, name), result),
    ensures
        after.entries(dir) == before.entries(dir).filter(
            |x: FileContainer| x is Dir || before.entry_name(x) != name,
        ),
        before.entries(dir).contains(e) && (e is Dir || before.entry_name(e) != name)
            ==> after.entries(dir).contains(e),
        after.entries(dir).contains(e) ==> before.entries(dir).contains(e) && (e is Dir
            || after.entry_name(e) != name),
        result is Ok <==> exists|i: int|
            0 <= i < before.entries(dir).len() && !((#[trigger] before.entries(dir)[i]) is Dir)
                && before.entry_name(before.entries(dir)[i]) == name,
        result is Err ==> result->Err_0 == Errno::ENOENT && after.entries(dir) == before.entries(
            dir,
        ),
        forall|d: int|
            0 <= d < before.dirs@.len() && d != dir.inner ==> (#[trigger] after.dirs@[d])@
                == before.dirs@[d]@,
        after.files@ == before.files@,
        after.links@ == before.links@,
{
    let gone = is_leaf_named(before, name);
    let all = before.entries(dir);
    lemma_removed(before, after, dir, gone, result);
    assert((|x: FileContainer| !gone(x)) =~= (|x: FileContainer|
        x is Dir || before.entry_name(x) != name));
    if all.contains(e) {
        let k = choose|k: int| 0 <= k < all.len() && all[k] == e;
        assert(before.holds_entry(before.dirs@[dir.inner as int].children@[k]));
    }
    assert(gone(e) == !(e is Dir || before.entry_name(e) != name));
    if exists|i: int|
        0 <= i < all.len() && !((#[trigger] all[i]) is Dir) && before.entry_name(all[i]) == name {
        let i = choose|i: int|
            0 <= i < all.len() && !((#[trigger] all[i]) is Dir) && before.entry_name(all[i]) == name;
        assert(gone(all[i]));
    }
    if result is Err {
        lemma_filter_all(all, |x: FileContainer| !gone(x));
    }
}

/// Making a directory, a file or a link adds one entry at the end of the directory that it is made
/// in. All else in the file system is as before: the other directories, every name, every older file.
pub proof fn law_making_keeps_the_rest(
    before: RamFs,
    after: RamFs,
    dir: RamDir,
    name: Seq<char>,
    src: INode,
    d: int,
    f: int,
)
    requires
        before.wf(),
        dir.inner < before.dirs@.len(),
        before.dirs@.len() <= usize::MAX,
        before.files@.len() <= usize::MAX,
        dir.directory_added(before, after, name) || dir.file_added(before, after, name)
            || dir.link_added(before, after, name, src),
        0 <= d < before.dirs@.len(),
        0 <= f < before.files@.len(),
    ensures
        after.dirs@[d].name@ == before.dirs@[d].name@,
        d != dir.inner ==> after.dirs@[d].children@ == before.dirs@[d].children@,
        after.entries(dir).len() == before.entries(dir).len() + 1,
        after.entries(dir).drop_last() == before.entries(dir),
        after.files@[f] == before.files@[f],
        dir.directory_added(before, after, name) ==> {
            &&& after.entries(dir).last() == FileContainer::Dir(before.dirs@.len() as usize)
            &&& after.dirs@.len() == before.dirs@.len() + 1
            &&& after.dirs@.last().name@ == name
            &&& after.dirs@.last().children@.len() == 0
            &&& after.files@ == before.files@
            &&& after.links@ == before.links@
        },
        dir.file_added(before, after, name) ==> {
            &&& after.entries(dir).last() == FileContainer::File(before.files@.len() as usize)
            &&& after.dirs@.len() == before.dirs@.len()
            &&& after.links@ == before.links@
        },
{
    assert(after.dir_views().len() == after.dirs@.len() && before.dir_views().len()
        == before.dirs@.len());
    assert(after.dir_views()[d] == after.dirs@[d]@);
    assert(before.dir_views()[d] == before.dirs@[d]@);
    assert(after.dir_views()[dir.inner as int] == after.dirs@[dir.inner as int]@);
    assert(before.dir_views()[dir.inner as int] == before.dirs@[dir.inner as int]@);
    assert(after.entries(dir).drop_last() =~= before.entries(dir));
    if dir.directory_added(before, after, name) {
        let n = before.dirs@.len() as int;
        assert(after.dir_views()[n] == after.dirs@[n]@);
    } else if dir.file_added(before, after, name) {
        assert(after.files@.drop_last()[f] == before.files@[f]);
    }
}

/// A file that has just been made has the name that it was made with, no bytes, no frames, and all
/// its times are zero.
pub proof fn law_made_file_is_empty(before: RamFs, after: RamFs, dir: RamDir, name: Seq<char>)
    requires
        dir.file_added(before, after, name),
    ensures
        ({
            let made = after.files@[before.files@.len() as int];
            &&& made.name@ == name
            &&& made.len == 0
            &&& made.pages@.len() == 0
            &&& made.times@.len() == 3
            &&& forall|i: int|
                0 <= i < 3 ==> (#[trigger] made.times@[i]).sec == 0 && made.times@[i].nsec == 0
        }),
{
}

/// A listing shows each object under its name and as what it is, and shows the size of files.
pub proof fn law_listing_shows_the_objects(fs: RamFs, i: usize, line: DirEntry)
    ensures
        listed(fs, FileContainer::File(i), line) <==> {
            &&& line.filename@ == fs.files@[i as int].name@
            &&& line.len == fs.files@[i as int].len
            &&& line.file_type == FileType::File
        },
        listed(fs, FileContainer::Dir(i), line) <==> {
            &&& line.filename@ == fs.dirs@[i as int].name@
            &&& line.len == 0
            &&& line.file_type == FileType::Directory
        },
        listed(fs, FileContainer::Link(i), line) <==> {
            &&& line.filename@ == fs.links@[i as int].name@
            &&& line.len == 0
            &&& line.file_type == FileType::Link
        },
{
}

/// What changes one file leaves every other file, all directories and all links alone.
pub proof fn law_other_files_are_left_alone(before: RamFs, after: RamFs, file: usize, i: int)
    requires
        only_file_changed(before, after, file),
        0 <= i < before.files@.len(),
        i != file,
    ensures
        after.files@[i] == before.files@[i],
        after.files@.len() == before.files@.len(),
        after.dirs@ == before.dirs@,
        after.links@ == before.links@,
{
}

/// A sound file system has a root. Every entry of a directory stands for an object that is there, and
/// every link leads to one that is there.
pub proof fn law_sound_file_system(fs: RamFs, d: int, k: int, l: int)
    requires
        fs.wf(),
        0 <= d < fs.dirs@.len(),
        0 <= k < fs.dirs@[d].children@.len(),
        0 <= l < fs.links@.len(),
    ensures
        fs.dirs@.len() > 0,
        match fs.dirs@[d].children@[k] {
            FileContainer::File(i) => i < fs.files@.len(),
            FileContainer::Dir(i) => i < fs.dirs@.len(),
            FileContainer::Link(i) => i < fs.links@.len(),
        },
        match fs.links@[l].link_file {
            INode::File(f) => f.inner < fs.files@.len(),
            INode::Dir(x) => x.inner < fs.dirs@.len(),
            INode::Link(m) => m.inner < l,
        },
{
    assert(fs.holds_entry(fs.dirs@[d].children@[k]));
    assert(fs.holds(fs.links@[l].link_file));
}

} // verus!
