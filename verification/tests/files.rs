use monkeyos::devfs::{Null, Passwd, NULL_DEVICE};
use monkeyos::errno::Errno;
use monkeyos::pipe::{create_pipe, PIPE_BUFFER_SIZE};
use monkeyos::procfs::{CpuInfo, MemInfo, Version};
use monkeyos::vfs::{PollEvent, Stat, MODE_CHAR, MODE_FIFO, MODE_FILE, POLLERR, POLLIN, POLLOUT};

const PASSWD_TEXT: &str =
    "root:x:0:0:root:/root:/bin/bash\nnobody:x:65534:65534:nobody:/nonexistent:/usr/sbin/nologin\n";

#[test]
fn null_swallows_everything() {
    let mut out = [3u8; 4];
    assert_eq!(Null.readat(0, &mut out), Ok(0));
    assert_eq!(out, [3; 4]);
    assert_eq!(Null.writeat(9, &[1, 2, 3]), Ok(3));
    let mut stat = Stat::default();
    assert_eq!(Null.stat(&mut stat), Ok(()));
    assert_eq!(stat.dev, NULL_DEVICE);
    assert_eq!(stat.rdev, 0x0103);
    assert_eq!(stat.mode.bits, 0o020666);
    assert_eq!(stat.blksize, 512);
}

#[test]
fn passwd_is_read_in_pieces() {
    let mut out = [0u8; 200];
    assert_eq!(Passwd.readat(0, &mut out), Ok(91));
    assert_eq!(&out[..91], PASSWD_TEXT.as_bytes());
    assert_eq!(out[91], 0);
    let mut piece = [0u8; 6];
    assert_eq!(Passwd.readat(32, &mut piece), Ok(6));
    assert_eq!(&piece, b"nobody");
    assert_eq!(Passwd.readat(91, &mut piece), Ok(0));
    assert_eq!(Passwd.writeat(0, &[0; 5]), Ok(5));
}

#[test]
fn passwd_reports_its_length() {
    let mut stat = Stat::default();
    assert_eq!(Passwd.stat(&mut stat), Ok(()));
    assert_eq!(stat.size as usize, PASSWD_TEXT.len());
    assert_eq!(stat.blocks, 1);
    assert_eq!(stat.mode.bits, MODE_FILE);
}

#[test]
fn cpuinfo_text_and_size() {
    let info = CpuInfo::new();
    let text = CpuInfo::generate_content();
    assert!(text.starts_with("processor\t: 0\nvendor_id\t: MonkeyOS\n"));
    assert!(text.ends_with("power management:\n\n"));
    let mut out = vec![0u8; 2000];
    assert_eq!(info.readat(0, &mut out), Ok(text.len()));
    assert_eq!(&out[..text.len()], text.as_bytes());
    let mut stat = Stat::default();
    assert_eq!(info.stat(&mut stat), Ok(()));
    assert_eq!(stat.size, 538);
    assert_eq!(stat.blocks, 2);
    assert_eq!(stat.uid, 1000);
    assert_eq!(stat.gid, 1000);
    assert_eq!(stat.mode.bits, MODE_CHAR);
}

#[test]
fn meminfo_text_and_size() {
    let info = MemInfo::new();
    let mut out = vec![0u8; 17];
    assert_eq!(info.readat(0, &mut out), Ok(17));
    assert_eq!(&out, b"MemTotal:        ");
    let mut tail = vec![0u8; 100];
    assert_eq!(info.readat(1419 - 4, &mut tail), Ok(4));
    assert_eq!(&tail[..4], b" kB\n");
    assert_eq!(info.readat(1419, &mut tail), Ok(0));
    let mut stat = Stat::default();
    assert_eq!(info.stat(&mut stat), Ok(()));
    assert_eq!(stat.size, 1419);
    assert_eq!(stat.blocks, 3);
}

#[test]
fn version_text_and_size() {
    let version = Version::new();
    let mut out = vec![0u8; 200];
    assert_eq!(version.readat(0, &mut out), Ok(105));
    assert!(out.starts_with(b"Linux version 5.10.0-7-riscv64 (MonkeyOS)"));
    assert_eq!(out[104], b'\n');
    let mut stat = Stat::default();
    assert_eq!(version.stat(&mut stat), Ok(()));
    assert_eq!(stat.size, 105);
    assert_eq!(stat.blocks, 1);
}

#[test]
fn pipe_keeps_the_order() {
    let (receiver, sender, mut queue) = create_pipe();
    assert_eq!(sender.writeat(&mut queue, 0, &[1, 2, 3]), Ok(3));
    assert_eq!(sender.writeat(&mut queue, 0, &[4, 5]), Ok(2));
    let mut out = [0u8; 4];
    assert_eq!(receiver.readat(&mut queue, 0, &mut out, true), Ok(4));
    assert_eq!(out, [1, 2, 3, 4]);
    assert_eq!(receiver.readat(&mut queue, 0, &mut out, true), Ok(1));
    assert_eq!(out, [5, 2, 3, 4]);
}

#[test]
fn empty_pipe_blocks_or_ends() {
    let (receiver, sender, mut queue) = create_pipe();
    let mut out = [0u8; 4];
    assert_eq!(receiver.readat(&mut queue, 0, &mut out, true), Err(Errno::EWOULDBLOCK));
    assert_eq!(receiver.readat(&mut queue, 0, &mut out, false), Ok(0));
    assert_eq!(receiver.readat(&mut queue, 0, &mut [], true), Ok(0));
    assert_eq!(sender.writeat(&mut queue, 0, &[]), Ok(0));
}

#[test]
fn full_pipe_refuses_all_but_small_writes() {
    let (_, sender, mut queue) = create_pipe();
    let big = vec![1u8; PIPE_BUFFER_SIZE];
    assert_eq!(sender.writeat(&mut queue, 0, &big), Ok(PIPE_BUFFER_SIZE));
    assert_eq!(sender.writeat(&mut queue, 0, &[0; 17]), Err(Errno::EWOULDBLOCK));
    assert_eq!(sender.writeat(&mut queue, 0, &[0; 16]), Ok(16));
    let out = PollEvent { bits: POLLOUT };
    assert_eq!(sender.poll(&queue, out), Ok(PollEvent { bits: 0 }));
    assert_eq!(queue.bytes.len(), PIPE_BUFFER_SIZE + 16);
}

#[test]
fn pipe_poll_and_stat() {
    let (receiver, sender, mut queue) = create_pipe();
    let all = PollEvent { bits: POLLIN | POLLOUT | POLLERR };
    assert_eq!(sender.poll(&queue, all), Ok(PollEvent { bits: POLLOUT }));
    assert_eq!(sender.poll(&queue, PollEvent { bits: POLLIN }), Ok(PollEvent { bits: 0 }));
    assert_eq!(receiver.poll(&queue, all, true), Ok(PollEvent { bits: 0 }));
    assert_eq!(receiver.poll(&queue, all, false), Ok(PollEvent { bits: POLLERR }));
    let only_err = PollEvent { bits: POLLERR };
    assert_eq!(receiver.poll(&queue, only_err, false), Ok(PollEvent { bits: POLLERR }));
    assert_eq!(sender.writeat(&mut queue, 0, &[1]), Ok(1));
    assert_eq!(receiver.poll(&queue, all, false), Ok(PollEvent { bits: POLLIN }));
    let mut stat = Stat::default();
    assert_eq!(sender.stat(&mut stat), Ok(()));
    assert_eq!(stat.mode.bits, MODE_FIFO);
    assert_eq!(receiver.stat(&mut stat), Ok(()));
    assert_eq!(stat.mode.bits, MODE_FIFO);
}

#[test]
fn two_reads_continue_each_other() {
    let info = CpuInfo::new();
    let mut once = vec![0u8; 50];
    assert_eq!(info.readat(7, &mut once), Ok(50));
    let mut first = vec![0u8; 20];
    let mut second = vec![0u8; 30];
    assert_eq!(info.readat(7, &mut first), Ok(20));
    assert_eq!(info.readat(27, &mut second), Ok(30));
    first.extend_from_slice(&second);
    assert_eq!(first, once);
}

#[test]
fn portions_keep_the_stream() {
    let (receiver, sender, mut queue) = create_pipe();
    let mut out = Vec::new();
    for i in 0..10u8 {
        assert_eq!(sender.writeat(&mut queue, 0, &[3 * i, 3 * i + 1, 3 * i + 2]), Ok(3));
        let mut two = [0u8; 2];
        assert_eq!(receiver.readat(&mut queue, 0, &mut two, true), Ok(2));
        out.extend_from_slice(&two);
    }
    let mut rest = [0u8; 20];
    assert_eq!(receiver.readat(&mut queue, 0, &mut rest, true), Ok(10));
    out.extend_from_slice(&rest[..10]);
    let sent: Vec<u8> = (0..30u8).collect();
    assert_eq!(out, sent);
}
