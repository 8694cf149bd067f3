//! Attributes of filesystem nodes: permission bits, node kinds, attribute
//! snapshots and directory-entry records.

use vstd::prelude::*;
use vstd::slice::slice_subrange;
use vstd::array::array_as_slice;
use vstd::string::StringSliceAdditionalSpecFns;

verus! {

/// Attributes of a whole filesystem.  No filesystem reports any yet.
#[non_exhaustive]
pub struct FileSystemInfo;

/// Permission bits of a node: read, write and execute for owner, group and
/// others, in the nine low bits.
#[derive(Debug, Clone, Copy, PartialEq, Eq, Structural)]
pub struct VfsNodePerm {
    bits: u16,
}

/// The nine permission bits together.
pub const PERM_MASK: u16 = 0o777;

/// The bit that position `i` of a permission string stands for: position 0
/// is the owner's read bit, position 8 the others' execute bit.
pub open spec fn perm_flag(i: int) -> u16 {
    if i == 0 {
        0o400
    } else if i == 1 {
        0o200
    } else if i == 2 {
        0o100
    } else if i == 3 {
        0o40
    } else if i == 4 {
        0o20
    } else if i == 5 {
        0o10
    } else if i == 6 {
        0o4
    } else if i == 7 {
        0o2
    } else {
        0o1
    }
}

/// The letter that shows a granted permission at position `i` of a
/// permission string: `r`, `w`, `x`, three times over.
pub open spec fn perm_letter(i: int) -> u8 {
    if i % 3 == 0 {
        0x72
    } else if i % 3 == 1 {
        0x77
    } else {
        0x78
    }
}

/// The permission string of `bits`: nine bytes, each the letter of its
/// position if that bit is set and `-` if not.
pub open spec fn rwx_string(bits: u16) -> Seq<u8> {
    Seq::new(
        9,
        |i: int|
            if bits & perm_flag(i) == perm_flag(i) {
                perm_letter(i)
            } else {
                0x2du8
            },
    )
}

impl VfsNodePerm {
    /// A permission holds permission bits only.
    #[verifier::type_invariant]
    spec fn only_permission_bits(self) -> bool {
        self.bits <= PERM_MASK
    }

    /// The raw bits.
    pub closed spec fn view(&self) -> u16 {
        self.bits
    }

    /// Whether every bit of `other` is set in `self`.
    pub open spec fn has(&self, other: VfsNodePerm) -> bool {
        self@ & other@ == other@
    }

    /// Owner has read permission.
    pub fn owner_read() -> (r: Self)
        ensures
            r@ == 0o400,
    {
        VfsNodePerm { bits: 0o400 }
    }

    /// Owner has write permission.
    pub fn owner_write() -> (r: Self)
        ensures
            r@ == 0o200,
    {
        VfsNodePerm { bits: 0o200 }
    }

    /// Owner has execute permission.
    pub fn owner_exec() -> (r: Self)
        ensures
            r@ == 0o100,
    {
        VfsNodePerm { bits: 0o100 }
    }

    /// Group has read permission.
    pub fn group_read() -> (r: Self)
        ensures
            r@ == 0o40,
    {
        VfsNodePerm { bits: 0o40 }
    }

    /// Group has write permission.
    pub fn group_write() -> (r: Self)
        ensures
            r@ == 0o20,
    {
        VfsNodePerm { bits: 0o20 }
    }

    /// Group has execute permission.
    pub fn group_exec() -> (r: Self)
        ensures
            r@ == 0o10,
    {
        VfsNodePerm { bits: 0o10 }
    }

    /// Others have read permission.
    pub fn other_read() -> (r: Self)
        ensures
            r@ == 0o4,
    {
        VfsNodePerm { bits: 0o4 }
    }

    /// Others have write permission.
    pub fn other_write() -> (r: Self)
        ensures
            r@ == 0o2,
    {
        VfsNodePerm { bits: 0o2 }
    }

    /// Others have execute permission.
    pub fn other_exec() -> (r: Self)
        ensures
            r@ == 0o1,
    {
        VfsNodePerm { bits: 0o1 }
    }

    /// No permission at all.
    pub fn empty() -> (r: Self)
        ensures
            r@ == 0,
    {
        VfsNodePerm { bits: 0 }
    }

    /// The permission with exactly the permission bits of `bits`; any other
    /// bit is dropped.
    pub fn from_bits_truncate(bits: u16) -> (r: Self)
        ensures
            r@ == bits & PERM_MASK,
    {
        assert(bits & 0o777 <= 0o777) by (bit_vector);
        VfsNodePerm { bits: bits & PERM_MASK }
    }

    /// The raw bits, which are permission bits only.
    pub fn bits(&self) -> (r: u16)
        ensures
            r == self@,
            r <= PERM_MASK,
    {
        proof {
            use_type_invariant(self);
        }
        self.bits
    }

    /// Whether every bit of `other` is set in `self`.
    pub fn contains(&self, other: VfsNodePerm) -> (r: bool)
        ensures
            r == self.has(other),
    {
        self.bits & other.bits == other.bits
    }

    /// The default permission of a file, `0o666`: everybody reads and
    /// writes.
    pub fn default_file() -> (r: Self)
        ensures
            r@ == 0o666,
    {
        let r = Self::from_bits_truncate(0o666);
        assert(0o666u16 & 0o777u16 == 0o666u16) by (bit_vector);
        r
    }

    /// The default permission of a directory, `0o755`: the owner reads,
    /// writes and enters, the others read and enter.
    pub fn default_dir() -> (r: Self)
        ensures
            r@ == 0o755,
    {
        let r = Self::from_bits_truncate(0o755);
        assert(0o755u16 & 0o777u16 == 0o755u16) by (bit_vector);
        r
    }

    /// The bits as a 32-bit `st_mode` value, which holds permission bits
    /// only.
    pub fn mode(&self) -> (r: u32)
        ensures
            r == self@,
            r <= PERM_MASK,
    {
        proof {
            use_type_invariant(self);
        }
        self.bits as u32
    }

    /// The permission string in the manner of `ls -l`: nine bytes, `r`, `w`
    /// or `x` where the permission is granted and `-` where it is not.
    pub fn rwx_buf(&self) -> (r: [u8; 9])
        ensures
            r@ == rwx_string(self@),
    {
        let mut perm = [0x2du8;9];
        if self.contains(Self::owner_read()) {
            perm[0] = 0x72;
        }
        if self.contains(Self::owner_write()) {
            perm[1] = 0x77;
        }
        if self.contains(Self::owner_exec()) {
            perm[2] = 0x78;
        }
        if self.contains(Self::group_read()) {
            perm[3] = 0x72;
        }
        if self.contains(Self::group_write()) {
            perm[4] = 0x77;
        }
        if self.contains(Self::group_exec()) {
            perm[5] = 0x78;
        }
        if self.contains(Self::other_read()) {
            perm[6] = 0x72;
        }
        if self.contains(Self::other_write()) {
            perm[7] = 0x77;
        }
        if self.contains(Self::other_exec()) {
            perm[8] = 0x78;
        }
        assert(perm@ =~= rwx_string(self@));
        perm
    }

    /// Whether the owner has read permission.
    pub fn owner_readable(&self) -> (r: bool)
        ensures
            r == (self@ & 0o400 == 0o400),
    {
        self.contains(Self::owner_read())
    }

    /// Whether the owner has write permission.
    pub fn owner_writable(&self) -> (r: bool)
        ensures
            r == (self@ & 0o200 == 0o200),
    {
        self.contains(Self::owner_write())
    }

    /// Whether the owner has execute permission.
    pub fn owner_executable(&self) -> (r: bool)
        ensures
            r == (self@ & 0o100 == 0o100),
    {
        self.contains(Self::owner_exec())
    }
}

impl vstd::std_specs::ops::BitOrSpecImpl for VfsNodePerm {
    open spec fn obeys_bitor_spec() -> bool {
        true
    }

    open spec fn bitor_req(self, rhs: VfsNodePerm) -> bool {
        true
    }

    closed spec fn bitor_spec(self, rhs: VfsNodePerm) -> VfsNodePerm {
        VfsNodePerm { bits: self.bits | rhs.bits }
    }
}

impl core::ops::BitOr for VfsNodePerm {
    type Output = VfsNodePerm;

    /// The union of two permissions.
    fn bitor(self, rhs: VfsNodePerm) -> (r: VfsNodePerm)
        ensures
            r@ == self@ | rhs@,
    {
        proof {
            use_type_invariant(self);
            use_type_invariant(rhs);
            let a = self.bits;
            let b = rhs.bits;
            assert(a | b <= 0o777) by (bit_vector)
                requires
                    a <= 0o777,
                    b <= 0o777,
            ;
        }
        VfsNodePerm { bits: self.bits | rhs.bits }
    }
}

/// The kind of a node.
#[derive(Debug, Clone, Copy, PartialEq, Eq, Structural)]
pub enum VfsNodeType {
    /// FIFO (named pipe)
    Fifo,
    /// Character device
    CharDevice,
    /// Directory
    Dir,
    /// Block device
    BlockDevice,
    /// Regular file
    File,
    /// Symbolic link
    SymLink,
    /// Socket
    Socket,
}

impl VfsNodeType {
    /// Whether this is a regular file.
    pub fn is_file(self) -> (r: bool)
        ensures
            r == (self == VfsNodeType::File),
    {
        matches!(self, VfsNodeType::File)
    }

    /// Whether this is a directory.
    pub fn is_dir(self) -> (r: bool)
        ensures
            r == (self == VfsNodeType::Dir),
    {
        matches!(self, VfsNodeType::Dir)
    }

    /// Whether this is a symbolic link.
    pub fn is_symlink(self) -> (r: bool)
        ensures
            r == (self == VfsNodeType::SymLink),
    {
        matches!(self, VfsNodeType::SymLink)
    }

    /// Whether this is a block device.
    pub fn is_block_device(self) -> (r: bool)
        ensures
            r == (self == VfsNodeType::BlockDevice),
    {
        matches!(self, VfsNodeType::BlockDevice)
    }

    /// Whether this is a character device.
    pub fn is_char_device(self) -> (r: bool)
        ensures
            r == (self == VfsNodeType::CharDevice),
    {
        matches!(self, VfsNodeType::CharDevice)
    }

    /// Whether this is a FIFO.
    pub fn is_fifo(self) -> (r: bool)
        ensures
            r == (self == VfsNodeType::Fifo),
    {
        matches!(self, VfsNodeType::Fifo)
    }

    /// Whether this is a socket.
    pub fn is_socket(self) -> (r: bool)
        ensures
            r == (self == VfsNodeType::Socket),
    {
        matches!(self, VfsNodeType::Socket)
    }

    /// The character that `ls -l` shows for the kind.
    pub open spec fn letter(self) -> char {
        match self {
            VfsNodeType::Fifo => 'p',
            VfsNodeType::CharDevice => 'c',
            VfsNodeType::Dir => 'd',
            VfsNodeType::BlockDevice => 'b',
            VfsNodeType::File => '-',
            VfsNodeType::SymLink => 'l',
            VfsNodeType::Socket => 's',
        }
    }

    /// The character that `ls -l` shows for the kind: `d` for a directory,
    /// `-` for a file, `l`, `p`, `c`, `b`, `s` for the others.
    pub fn as_char(self) -> (r: char)
        ensures
            r == self.letter(),
    {
        match self {
            VfsNodeType::Fifo => 'p',
            VfsNodeType::CharDevice => 'c',
            VfsNodeType::Dir => 'd',
            VfsNodeType::BlockDevice => 'b',
            VfsNodeType::File => '-',
            VfsNodeType::SymLink => 'l',
            VfsNodeType::Socket => 's',
        }
    }
}

/// A snapshot of a node's attributes.
#[derive(Debug, Clone, Copy)]
pub struct VfsNodeAttr {
    /// Permission bits.
    mode: VfsNodePerm,
    /// Kind of the node.
    ty: VfsNodeType,
    /// Size in bytes.
    size: u64,
    /// Number of 512-byte blocks allocated.
    blocks: u64,
}

/// What an attribute snapshot holds.
pub struct AttrView {
    /// Permission bits.
    pub perm: u16,
    /// Kind of the node.
    pub ty: VfsNodeType,
    /// Size in bytes.
    pub size: u64,
    /// Number of 512-byte blocks allocated.
    pub blocks: u64,
}

impl VfsNodeAttr {
    /// What the snapshot holds.
    pub closed spec fn view(&self) -> AttrView {
        AttrView { perm: self.mode@, ty: self.ty, size: self.size, blocks: self.blocks }
    }

    /// A snapshot with the given permission, kind, size and block count.
    pub fn new(mode: VfsNodePerm, ty: VfsNodeType, size: u64, blocks: u64) -> (r: Self)
        ensures
            r@ == (AttrView { perm: mode@, ty, size, blocks }),
    {
        Self { mode, ty, size, blocks }
    }

    /// The snapshot of a file with the default file permission.
    pub fn new_file(size: u64, blocks: u64) -> (r: Self)
        ensures
            r@ == (AttrView { perm: 0o666, ty: VfsNodeType::File, size, blocks }),
    {
        Self { mode: VfsNodePerm::default_file(), ty: VfsNodeType::File, size, blocks }
    }

    /// The snapshot of a directory with the default directory permission.
    pub fn new_dir(size: u64, blocks: u64) -> (r: Self)
        ensures
            r@ == (AttrView { perm: 0o755, ty: VfsNodeType::Dir, size, blocks }),
    {
        Self { mode: VfsNodePerm::default_dir(), ty: VfsNodeType::Dir, size, blocks }
    }

    /// The size in bytes.
    pub fn size(&self) -> (r: u64)
        ensures
            r == self@.size,
    {
        self.size
    }

    /// The number of 512-byte blocks that the node occupies.
    pub fn blocks(&self) -> (r: u64)
        ensures
            r == self@.blocks,
    {
        self.blocks
    }

    /// The permission bits.
    pub fn perm(&self) -> (r: VfsNodePerm)
        ensures
            r@ == self@.perm,
    {
        self.mode
    }

    /// Replaces the permission bits and nothing else.
    pub fn set_perm(&mut self, perm: VfsNodePerm)
        ensures
            final(self)@ == (AttrView { perm: perm@, ..old(self)@ }),
    {
        self.mode = perm
    }

    /// The kind of the node.
    pub fn file_type(&self) -> (r: VfsNodeType)
        ensures
            r == self@.ty,
    {
        self.ty
    }

    /// Whether the node is a regular file.
    pub fn is_file(&self) -> (r: bool)
        ensures
            r == (self@.ty == VfsNodeType::File),
    {
        self.ty.is_file()
    }

    /// Whether the node is a directory.
    pub fn is_dir(&self) -> (r: bool)
        ensures
            r == (self@.ty == VfsNodeType::Dir),
    {
        self.ty.is_dir()
    }
}

/// The number of bytes that a directory entry keeps of a name.
pub const NAME_CAPACITY: usize = 63;

/// The name that a directory entry keeps of `name`: its first 63 bytes.
pub open spec fn entry_name(name: Seq<u8>) -> Seq<u8> {
    if name.len() <= 63 {
        name
    } else {
        name.subrange(0, 63)
    }
}

/// The 63 bytes that a directory entry stores for `name`: the kept bytes,
/// then zeros.
pub open spec fn entry_name_field(name: Seq<u8>) -> Seq<u8> {
    Seq::new(
        63,
        |i: int|
            if i < name.len() {
                name[i]
            } else {
                0u8
            },
    )
}

/// The length of the longest prefix of `s` without a zero byte.
pub open spec fn until_zero(s: Seq<u8>) -> int
    decreases s.len(),
{
    if s.len() == 0 || s[0] == 0 {
        0
    } else {
        1 + until_zero(s.drop_first())
    }
}

/// `until_zero` stops at the first zero byte, or at the end.
pub proof fn lemma_until_zero(s: Seq<u8>)
    ensures
        0 <= until_zero(s) <= s.len(),
        forall|i: int| 0 <= i < until_zero(s) ==> s[i] != 0,
        until_zero(s) < s.len() ==> s[until_zero(s)] == 0,
    decreases s.len(),
{
    if s.len() == 0 || s[0] == 0 {
    } else {
        let t = s.drop_first();
        lemma_until_zero(t);
        assert forall|i: int| 0 <= i < until_zero(s) implies s[i] != 0 by {
            if i > 0 {
                assert(s[i] == t[i - 1]);
            }
        }
        if until_zero(s) < s.len() {
            assert(s[until_zero(s)] == t[until_zero(t)]);
        }
    }
}

/// An index with a zero byte, before which no byte is zero, is where
/// `until_zero` stops; so is the length, if no byte is zero.
pub proof fn lemma_until_zero_at(s: Seq<u8>, n: int)
    requires
        0 <= n <= s.len(),
        forall|i: int| 0 <= i < n ==> s[i] != 0,
        n < s.len() ==> s[n] == 0,
    ensures
        until_zero(s) == n,
{
    lemma_until_zero(s);
    let m = until_zero(s);
    if m < n {
        assert(s[m] == 0);
    } else if m > n {
        assert(s[n] != 0);
    }
}

/// A directory-entry record: the kind of a node and its name in a field of
/// 63 bytes.
pub struct VfsDirEntry {
    d_type: VfsNodeType,
    d_name: [u8; 63],
}

impl VfsDirEntry {
    /// The kind of the entry.
    pub closed spec fn ty(&self) -> VfsNodeType {
        self.d_type
    }

    /// The 63 bytes of the name field.
    pub closed spec fn field(&self) -> Seq<u8> {
        self.d_name@
    }

    /// The name: the bytes of the field before its first zero byte.
    pub open spec fn name(&self) -> Seq<u8> {
        self.field().subrange(0, until_zero(self.field()))
    }

    /// Whether the entry records `name` with kind `ty`.
    pub open spec fn records(&self, name: Seq<u8>, ty: VfsNodeType) -> bool {
        self.ty() == ty && self.field() == entry_name_field(entry_name(name))
    }

    /// The empty entry: a file without a name.
    pub fn default() -> (r: Self)
        ensures
            r.records(Seq::empty(), VfsNodeType::File),
    {
        let r = Self { d_type: VfsNodeType::File, d_name: [0u8;63] };
        assert(r.d_name@ =~= entry_name_field(entry_name(Seq::empty())));
        r
    }

    /// The entry of a node of kind `ty` under `name`.  Of a name longer than
    /// 63 bytes, the first 63 are kept.
    pub fn new(name: &str, ty: VfsNodeType) -> (r: Self)
        ensures
            r.records(name.spec_bytes(), ty),
    {
        let bytes = name.as_bytes();
        let mut d_name = [0u8;63];
        let n: usize = if bytes.len() > NAME_CAPACITY {
            NAME_CAPACITY
        } else {
            bytes.len()
        };
        let ghost kept = entry_name(name.spec_bytes());
        let mut i: usize = 0;
        while i < n
            invariant
                i <= n <= 63,
                n <= bytes@.len(),
                n == kept.len(),
                bytes@ == name.spec_bytes(),
                forall|k: int| 0 <= k < n ==> kept[k] == bytes@[k],
                forall|k: int| 0 <= k < i ==> d_name@[k] == kept[k],
                forall|k: int| i <= k < 63 ==> d_name@[k] == 0,
            decreases n - i,
        {
            d_name[i] = bytes[i];
            i += 1;
        }
        assert(d_name@ =~= entry_name_field(kept));
        Self { d_type: ty, d_name }
    }

    /// The kind of the entry.
    pub fn entry_type(&self) -> (r: VfsNodeType)
        ensures
            r == self.ty(),
    {
        self.d_type
    }

    /// The 63 bytes of the name field, zeros after the name.
    pub fn name_field(&self) -> (r: &[u8; 63])
        ensures
            r@ == self.field(),
    {
        &self.d_name
    }

    /// The name: the bytes of the field before its first zero byte.
    pub fn name_as_bytes(&self) -> (r: &[u8])
        ensures
            r@ == self.name(),
    {
        let mut len: usize = 0;
        while len < 63 && self.d_name[len] != 0
            invariant
                len <= 63,
                forall|k: int| 0 <= k < len ==> self.d_name@[k] != 0,
            decreases 63 - len,
        {
            len += 1;
        }
        proof {
            lemma_until_zero_at(self.d_name@, len as int);
        }
        slice_subrange(array_as_slice(&self.d_name), 0, len)
    }
}

} // verus!
