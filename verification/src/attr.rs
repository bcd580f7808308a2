//! The attribute record of the one exposed file.

use vstd::prelude::*;

verus! {

/// Inode number of the one exposed file.
pub const FILE_INO: u64 = 1;

/// Permission bits of the exposed file: owner may read and write, others read.
pub const FILE_PERM: u16 = 0o644;

/// Seconds since the epoch of the fixed instant that every timestamp carries.
pub const CREATED_SEC: i64 = 1534631479;

/// Seconds for which the transport may cache a reply.
pub const TTL_SEC: i64 = 9999;

/// An instant, or a duration, in seconds and nanoseconds.
#[derive(Clone, Copy, Debug, PartialEq, Eq, Structural)]
pub struct Timespec {
    pub sec: i64,
    pub nsec: i32,
}

/// What kind of filesystem object an attribute record describes.
#[derive(Clone, Copy, Debug, PartialEq, Eq, Structural)]
pub enum FileKind {
    NamedPipe,
    CharDevice,
    BlockDevice,
    Directory,
    RegularFile,
    Symlink,
    Socket,
}

/// Metadata of a filesystem object, as the transport reports it.
#[derive(Clone, Copy, Debug, PartialEq, Eq, Structural)]
pub struct FileAttr {
    pub ino: u64,
    /// Length in bytes.
    pub size: u64,
    /// Length in blocks.
    pub blocks: u64,
    pub atime: Timespec,
    pub mtime: Timespec,
    pub ctime: Timespec,
    pub crtime: Timespec,
    pub kind: FileKind,
    pub perm: u16,
    pub nlink: u32,
    pub uid: u32,
    pub gid: u32,
    pub rdev: u32,
    pub flags: u32,
}

/// The instant that stands in every timestamp of the record.
pub open spec fn created() -> Timespec {
    Timespec { sec: CREATED_SEC, nsec: 0 }
}

/// How long a reply stays valid.
pub open spec fn ttl() -> Timespec {
    Timespec { sec: TTL_SEC, nsec: 0 }
}

/// Number of blocks of `block_size` bytes that it takes to hold `len` bytes:
/// `len / block_size`, rounded up.
pub open spec fn blocks_for(len: nat, block_size: nat) -> nat
    recommends
        block_size > 0,
{
    ((len + block_size - 1) / (block_size as int)) as nat
}

/// `blocks_for` is the least number of blocks that hold `len` bytes: that
/// many blocks hold them, and one block fewer would not.
pub proof fn lemma_blocks_cover_exactly(len: nat, block_size: nat)
    requires
        block_size > 0,
    ensures
        len <= blocks_for(len, block_size) * block_size < len + block_size,
        len == 0 <==> blocks_for(len, block_size) == 0,
{
    let bs = block_size as int;
    let num = len + bs - 1;
    assert(num == bs * (num / bs) + num % bs) by {
        vstd::arithmetic::div_mod::lemma_fundamental_div_mod(num, bs);
    }
    assert(0 <= num % bs < bs) by {
        vstd::arithmetic::div_mod::lemma_mod_bound(num, bs);
    }
    assert(num / bs >= 0) by {
        vstd::arithmetic::div_mod::lemma_div_pos_is_pos(num, bs);
    }
    assert((num / bs) * bs == bs * (num / bs)) by (nonlinear_arith);
    if num / bs == 0 {
        assert((num / bs) * bs == 0);
    } else {
        assert((num / bs) * bs >= bs) by (nonlinear_arith)
            requires
                num / bs >= 1,
                bs > 0,
        ;
    }
}

/// No more blocks are needed than there are bytes.
pub proof fn lemma_blocks_fit(len: nat, block_size: nat)
    requires
        block_size > 0,
    ensures
        blocks_for(len, block_size) <= len,
{
    lemma_blocks_cover_exactly(len, block_size);
    let b = blocks_for(len, block_size) as int;
    let bs = block_size as int;
    if b > len {
        assert((b - 1) * bs >= b - 1) by (nonlinear_arith)
            requires
                bs >= 1,
                b >= 1,
        ;
        assert(b * bs == (b - 1) * bs + bs) by (nonlinear_arith);
    }
}

/// Computes the number of blocks of `block_size` bytes that hold `len` bytes.
pub fn block_count(len: u64, block_size: usize) -> (blocks: u64)
    requires
        block_size > 0,
    ensures
        blocks == blocks_for(len as nat, block_size as nat),
{
    let bs: u64 = block_size as u64;
    let whole: u64 = len / bs;
    let rest: u64 = len % bs;
    proof {
        let l = len as int;
        let b = bs as int;
        assert(l == b * (l / b) + l % b) by {
            vstd::arithmetic::div_mod::lemma_fundamental_div_mod(l, b);
        }
        if l % b == 0 {
            // l + b - 1 == b * whole + (b - 1)
            assert((l + b - 1) / b == l / b) by {
                vstd::arithmetic::div_mod::lemma_fundamental_div_mod_converse(
                    l + b - 1,
                    b,
                    l / b,
                    b - 1,
                );
            }
        } else {
            assert(0 < l % b < b) by {
                vstd::arithmetic::div_mod::lemma_mod_bound(l, b);
            }
            assert(b * (l / b + 1) == b * (l / b) + b) by (nonlinear_arith);
            assert((l + b - 1) / b == l / b + 1) by {
                vstd::arithmetic::div_mod::lemma_fundamental_div_mod_converse(
                    l + b - 1,
                    b,
                    l / b + 1,
                    l % b - 1,
                );
            }
            assert(l / b < u64::MAX) by {
                assert(b >= 2);
                assert(b * (l / b) >= 2 * (l / b)) by (nonlinear_arith)
                    requires
                        b >= 2,
                        l / b >= 0,
                ;
            }
        }
    }
    if rest == 0 {
        whole
    } else {
        whole + 1
    }
}

impl FileAttr {
    /// The record of a regular file of `len` bytes, counted in blocks of
    /// `block_size` bytes. Everything but the two lengths is fixed.
    pub open spec fn describing(len: u64, block_size: usize) -> FileAttr {
        FileAttr {
            ino: FILE_INO,
            size: len,
            blocks: blocks_for(len as nat, block_size as nat) as u64,
            atime: created(),
            mtime: created(),
            ctime: created(),
            crtime: created(),
            kind: FileKind::RegularFile,
            perm: FILE_PERM,
            nlink: 1,
            uid: 0,
            gid: 0,
            rdev: 0,
            flags: 0,
        }
    }

    /// Builds the record for a stream of `len` bytes.
    pub fn new(len: u64, block_size: usize) -> (attr: FileAttr)
        requires
            block_size > 0,
        ensures
            attr == FileAttr::describing(len, block_size),
            attr.blocks == blocks_for(len as nat, block_size as nat),
    {
        let stamp = Timespec { sec: CREATED_SEC, nsec: 0 };
        FileAttr {
            ino: FILE_INO,
            size: len,
            blocks: block_count(len, block_size),
            atime: stamp,
            mtime: stamp,
            ctime: stamp,
            crtime: stamp,
            kind: FileKind::RegularFile,
            perm: FILE_PERM,
            nlink: 1,
            uid: 0,
            gid: 0,
            rdev: 0,
            flags: 0,
        }
    }
}

} // verus!
