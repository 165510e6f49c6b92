use monkeyos::errno::Errno;
use monkeyos::ramfile::RamFileInner;
use monkeyos::ramfs::{INode, RamDir, RamFile, RamFs, RamLink};
use monkeyos::vfs::{FileType, Stat, TimeSpec, MODE_DIR, MODE_FILE, MODE_LINK, PAGE_SIZE, UTIME_OMIT};

fn page(byte: u8) -> Vec<u8> {
    vec![byte; PAGE_SIZE]
}

fn pages(n: usize) -> Vec<Vec<u8>> {
    let mut out = Vec::new();
    for _ in 0..n {
        out.push(page(0));
    }
    out
}

#[test]
fn write_then_read_over_a_page_boundary() {
    let mut file = RamFileInner::empty("a");
    let data: Vec<u8> = (0..100u8).collect();
    assert_eq!(file.additional_pages(4050 + 100), 2);
    assert_eq!(file.writeat(4050, &data, pages(2)), Ok(100));
    assert_eq!(file.len, 4150);
    let mut out = vec![0xffu8; 120];
    assert_eq!(file.readat(4050, &mut out), Ok(100));
    assert_eq!(&out[..100], &data[..]);
    assert_eq!(&out[100..], &[0xffu8; 20][..]);
}

#[test]
fn write_keeps_other_bytes() {
    let mut file = RamFileInner::empty("a");
    assert_eq!(file.writeat(0, &[1, 2, 3, 4, 5], pages(1)), Ok(5));
    assert_eq!(file.writeat(1, &[9, 9], Vec::new()), Ok(2));
    let mut out = [0u8; 5];
    assert_eq!(file.readat(0, &mut out), Ok(5));
    assert_eq!(out, [1, 9, 9, 4, 5]);
    assert_eq!(file.len, 5);
}

#[test]
fn write_without_any_frame_fails() {
    let mut file = RamFileInner::empty("a");
    assert_eq!(file.writeat(0, &[1], Vec::new()), Err(Errno::ENOMEM));
    assert_eq!(file.len, 0);
    assert_eq!(file.pages.len(), 0);
}

#[test]
fn partial_write_reports_what_fits() {
    let mut file = RamFileInner::empty("a");
    let data = vec![7u8; PAGE_SIZE + 10];
    assert_eq!(file.additional_pages(data.len()), 2);
    assert_eq!(file.writeat(0, &data, pages(1)), Ok(PAGE_SIZE));
    assert_eq!(file.len, PAGE_SIZE);
    let mut out = vec![0u8; PAGE_SIZE];
    assert_eq!(file.readat(0, &mut out), Ok(PAGE_SIZE));
    assert!(out.iter().all(|b| *b == 7));
}

#[test]
fn partial_write_behind_the_frames_moves_the_end() {
    let mut file = RamFileInner::empty("a");
    assert_eq!(file.writeat(2 * PAGE_SIZE, &[1, 2], pages(1)), Ok(0));
    assert_eq!(file.len, 2 * PAGE_SIZE);
    assert_eq!(file.pages.len(), 1);
}

#[test]
fn read_behind_the_end_gives_nothing() {
    let mut file = RamFileInner::empty("a");
    assert_eq!(file.writeat(0, &[1, 2, 3], pages(1)), Ok(3));
    let mut out = [5u8; 2];
    assert_eq!(file.readat(3, &mut out), Ok(0));
    assert_eq!(out, [5, 5]);
    assert_eq!(file.readat(2, &mut out), Ok(1));
    assert_eq!(out, [3, 5]);
    let mut file = RamFileInner::empty("b");
    file.len = 10;
    assert_eq!(file.readat(5, &mut []), Ok(0));
}

#[test]
fn truncate_forgets_and_extends() {
    let mut file = RamFileInner::empty("a");
    let data = vec![1u8; PAGE_SIZE + 5];
    assert_eq!(file.writeat(0, &data, pages(2)), Ok(PAGE_SIZE + 5));
    assert_eq!(file.truncate(10, Vec::new()), Ok(()));
    assert_eq!(file.len, 10);
    assert_eq!(file.truncate(PAGE_SIZE + 5, Vec::new()), Ok(()));
    let mut out = vec![9u8; PAGE_SIZE + 5];
    assert_eq!(file.readat(0, &mut out), Ok(PAGE_SIZE + 5));
    assert!(out[..10].iter().all(|b| *b == 1));
    assert!(out[10..].iter().all(|b| *b == 0));
}

#[test]
fn truncate_that_lacks_frames_fails_but_sets_the_size() {
    let mut file = RamFileInner::empty("a");
    assert_eq!(file.additional_pages(3 * PAGE_SIZE), 3);
    assert_eq!(file.truncate(3 * PAGE_SIZE, pages(1)), Err(Errno::ENOMEM));
    assert_eq!(file.len, 3 * PAGE_SIZE);
    assert_eq!(file.pages.len(), 1);
}

#[test]
fn file_stat_and_times() {
    let mut fs = RamFs::new();
    let root = fs.root_dir();
    assert_eq!(fs.name(), "ramfs");
    assert_eq!(root.create(&mut fs, "x.s", FileType::File), Ok(()));
    assert_eq!(root.create(&mut fs, "x.sh", FileType::File), Ok(()));
    let file = RamFile::new(0);
    let times = [TimeSpec { sec: 1, nsec: 2 }, TimeSpec { sec: 3, nsec: UTIME_OMIT }];
    assert_eq!(file.utimes(&mut fs, &times), Ok(()));
    let mut stat = Stat::default();
    stat.dev = 77;
    assert_eq!(file.stat(&fs, &mut stat), Ok(()));
    assert_eq!(stat.ino, 2);
    assert_eq!(stat.dev, 77);
    assert_eq!(stat.mode.bits, MODE_FILE);
    assert_eq!(stat.nlink, 1);
    assert_eq!(stat.blksize, 512);
    assert_eq!(stat.atime, TimeSpec { sec: 1, nsec: 2 });
    assert_eq!(stat.mtime, TimeSpec { sec: 0, nsec: 0 });
    assert_eq!(RamFile::new(1).stat(&fs, &mut stat), Ok(()));
    assert_eq!(stat.ino, 1);
}

#[test]
fn directories_and_names() {
    let mut fs = RamFs::new();
    let root = fs.root_dir();
    assert_eq!(root.lookup(&fs, "d"), Err(Errno::ENOENT));
    assert_eq!(root.mkdir(&mut fs, "d"), Ok(()));
    assert_eq!(root.mkdir(&mut fs, "d"), Err(Errno::EEXIST));
    assert_eq!(root.lookup(&fs, "d"), Ok(INode::Dir(RamDir::new(1))));
    assert_eq!(root.create(&mut fs, "f", FileType::File), Ok(()));
    assert_eq!(root.create(&mut fs, "f", FileType::Directory), Ok(()));
    assert_eq!(root.lookup(&fs, "f"), Ok(INode::File(RamFile::new(0))));
    let list = root.read_dir(&fs).unwrap();
    assert_eq!(list.len(), 3);
    assert_eq!(list[0].filename, "d");
    assert_eq!(list[0].file_type, FileType::Directory);
    assert_eq!(list[1].filename, "f");
    assert_eq!(list[1].file_type, FileType::File);
    let mut stat = Stat::default();
    assert_eq!(root.stat(&mut stat), Ok(()));
    assert_eq!(stat.mode.bits, MODE_DIR);
}

#[test]
fn removing_files_and_directories() {
    let mut fs = RamFs::new();
    let root = fs.root_dir();
    assert_eq!(root.create(&mut fs, "f", FileType::File), Ok(()));
    assert_eq!(root.create(&mut fs, "f", FileType::File), Ok(()));
    assert_eq!(root.create(&mut fs, "f", FileType::Directory), Ok(()));
    assert_eq!(root.remove(&mut fs, "g"), Err(Errno::ENOENT));
    assert_eq!(root.remove(&mut fs, "f"), Ok(()));
    assert_eq!(root.lookup(&fs, "f"), Ok(INode::Dir(RamDir::new(1))));
    assert_eq!(root.unlink(&mut fs, "f"), Err(Errno::ENOENT));
    assert_eq!(root.rmdir(&mut fs, "f"), Ok(()));
    assert_eq!(root.rmdir(&mut fs, "f"), Err(Errno::ENOENT));
    assert_eq!(root.lookup(&fs, "f"), Err(Errno::ENOENT));
}

#[test]
fn links_reach_the_file() {
    let mut fs = RamFs::new();
    let root = fs.root_dir();
    assert_eq!(root.create(&mut fs, "f", FileType::File), Ok(()));
    let file = INode::File(RamFile::new(0));
    assert_eq!(root.link(&mut fs, "l", file), Ok(()));
    assert_eq!(root.link(&mut fs, "l", file), Err(Errno::EEXIST));
    let link = INode::Link(RamLink { inner: 0 });
    assert_eq!(root.link(&mut fs, "m", link), Ok(()));
    let second = RamLink { inner: 1 };
    assert_eq!(fs.resolve(INode::Link(second)), Some(0));
    assert_eq!(second.writeat(&mut fs, 0, &[4, 5, 6], pages(1)), Ok(3));
    let mut out = [0u8; 3];
    assert_eq!(RamFile::new(0).readat(&fs, 0, &mut out), Ok(3));
    assert_eq!(out, [4, 5, 6]);
    assert_eq!(second.truncate(&mut fs, 1, Vec::new()), Ok(()));
    assert_eq!(second.readat(&fs, 0, &mut out), Ok(1));
    let mut stat = Stat::default();
    assert_eq!(second.stat(&mut stat, 0x1234), Ok(()));
    assert_eq!(stat.ino, 0x1234);
    assert_eq!(stat.mode.bits, MODE_LINK);
    assert_eq!(stat.size, 3);
    assert_eq!(stat.blocks, 8);
    let list = root.read_dir(&fs).unwrap();
    assert_eq!(list[0].len, 1);
    assert_eq!(list[2].file_type, FileType::Link);
}

#[test]
fn removed_file_stays_with_its_handle() {
    let mut fs = RamFs::new();
    let root = fs.root_dir();
    assert_eq!(root.create(&mut fs, "f", FileType::File), Ok(()));
    let file = RamFile::new(0);
    assert_eq!(file.writeat(&mut fs, 0, &[8], pages(1)), Ok(1));
    assert_eq!(root.remove(&mut fs, "f"), Ok(()));
    let mut out = [0u8; 1];
    assert_eq!(file.readat(&fs, 0, &mut out), Ok(1));
    assert_eq!(out, [8]);
}
