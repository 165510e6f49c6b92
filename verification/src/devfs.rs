//! The devices and system files under `/dev` and `/etc` whose contents are fixed.
use vstd::prelude::*;
use vstd::string::StringSliceAdditionalSpecFns;

use crate::errno::{Errno, VfsResult};
use crate::procfs::content_read;
use crate::vfs::{
    read_content, Stat, StatMode, MODE_CHAR, MODE_FILE, MODE_READ_WRITE_ALL,
};

verus! {

/// The device that swallows everything and yields nothing.
#[derive(Clone, Copy, Debug, PartialEq, Eq, Structural)]
pub struct Null;

/// Major number 1, minor number 3.
pub const NULL_DEVICE: u64 = 0x0103;

/// Character device, readable and writable by everyone.
pub const NULL_MODE: u32 = 0o020666;

impl Null {
    /// Reads nothing.
    pub fn readat(&self, _offset: usize, _buffer: &mut [u8]) -> (r: VfsResult<usize>)
        ensures
            r == Ok::<usize, Errno>(0),
            final(_buffer)@ == old(_buffer)@,
    {
        Ok(0)
    }

    /// Accepts everything.
    pub fn writeat(&self, _offset: usize, buffer: &[u8]) -> (r: VfsResult<usize>)
        ensures
            r == Ok::<usize, Errno>(buffer@.len() as usize),
    {
        Ok(buffer.len())
    }

    /// Fills in the metadata. The timestamps are left alone.
    pub fn stat(&self, stat: &mut Stat) -> (r: VfsResult<()>)
        ensures
            r == Ok::<(), Errno>(()),
            *final(stat) == (Stat {
                dev: NULL_DEVICE,
                ino: 1,
                mode: StatMode { bits: NULL_MODE },
                nlink: 1,
                uid: 0,
                gid: 0,
                size: 0,
                blksize: 512,
                blocks: 0,
                rdev: NULL_DEVICE,
                ..*old(stat)
            }),
    {
        assert(MODE_CHAR | MODE_READ_WRITE_ALL == NULL_MODE) by (bit_vector);
        stat.dev = NULL_DEVICE;
        stat.ino = 1;
        stat.mode = StatMode { bits: MODE_CHAR | MODE_READ_WRITE_ALL };
        stat.nlink = 1;
        stat.uid = 0;
        stat.gid = 0;
        stat.size = 0;
        stat.blksize = 512;
        stat.blocks = 0;
        stat.rdev = NULL_DEVICE;
        Ok(())
    }
}

/// The password file: name, password, user, group, description, home and shell of each user.
#[derive(Clone, Copy, Debug, PartialEq, Eq, Structural)]
pub struct Passwd;

/// The text of the password file.
pub const PASSWD: &'static str =
    "root:x:0:0:root:/root:/bin/bash\nnobody:x:65534:65534:nobody:/nonexistent:/usr/sbin/nologin\n";

impl Passwd {
    /// The bytes of the file.
    pub open spec fn content(&self) -> Seq<u8> {
        PASSWD.spec_bytes()
    }

    /// Reads from the file into `buffer`.
    pub fn readat(&self, offset: usize, buffer: &mut [u8]) -> (r: VfsResult<usize>)
        ensures
            content_read(self.content(), offset, old(buffer)@, final(buffer)@, r),
    {
        Ok(read_content(PASSWD.as_bytes(), offset, buffer))
    }

    /// The file is read-only, but a write is accepted and dropped.
    pub fn writeat(&self, _offset: usize, buffer: &[u8]) -> (r: VfsResult<usize>)
        ensures
            r == Ok::<usize, Errno>(buffer@.len() as usize),
    {
        Ok(buffer.len())
    }

    /// Fills in the metadata; the size is the length of the contents. The timestamps are left
    /// alone.
    pub fn stat(&self, stat: &mut Stat) -> (r: VfsResult<()>)
        ensures
            r == Ok::<(), Errno>(()),
            *final(stat) == (Stat {
                dev: 0,
                ino: 1,
                mode: StatMode { bits: MODE_FILE },
                nlink: 1,
                uid: 0,
                gid: 0,
                size: 91,
                blksize: 512,
                blocks: 1,
                rdev: 0,
                ..*old(stat)
            }),
            final(stat).size == self.content().len(),
    {
        proof {
            lemma_passwd_length();
        }
        stat.dev = 0;
        stat.ino = 1;
        stat.mode = StatMode { bits: MODE_FILE };
        stat.nlink = 1;
        stat.uid = 0;
        stat.gid = 0;
        stat.size = PASSWD.as_bytes().len() as u64;
        stat.blksize = 512;
        stat.blocks = 1;
        stat.rdev = 0;
        Ok(())
    }
}

proof fn lemma_passwd_length()
    ensures
        Passwd.content().len() == 91,
{
    reveal_strlit(
        "root:x:0:0:root:/root:/bin/bash\nnobody:x:65534:65534:nobody:/nonexistent:/usr/sbin/nologin\n",
    );
    assert(vstd::string::is_ascii(PASSWD));
}

/// The password file holds its text, and the null device has its number and is a character device
/// that everyone may read and write.
pub proof fn law_fixed_devices(p: Passwd)
    ensures
        p.content() == PASSWD.spec_bytes(),
        p.content().len() == 91,
        NULL_DEVICE == 259,
        NULL_MODE == 0x21b6,
{
    lemma_passwd_length();
}

} // verus!
