use crate::inode_table::{root_path, InodeTable, TableModel, ROOT_INODE};
use crate::paths::{child_path, child_path_spec, is_root, parent_path, parent_spec};
use std::collections::HashMap;
use vstd::prelude::*;

verus! {

broadcast use vstd::std_specs::hash::group_hash_axioms;

/// One remote file or folder, as the storage service describes it.
#[derive(Clone, Debug)]
pub struct EgnyteEntry {
    pub name: String,
    pub path: String,
    pub is_folder: bool,
    /// Byte size; meaningful for files only.
    pub size: u64,
    /// Last modification, in whole seconds since the Unix epoch.
    pub modified_time: u64,
}

/// The kind of a filesystem object as the kernel sees it.
#[derive(PartialEq, Eq, Structural, Clone, Copy, Debug)]
pub enum FileKind {
    Directory,
    RegularFile,
}

/// What a kernel call fails with.
#[derive(PartialEq, Eq, Structural, Clone, Copy, Debug)]
pub enum FsError {
    /// Unknown inode or path, or the remote has no such object.
    NoEntry,
    /// No buffered content for the handle.
    BadDescriptor,
    /// The content could not be fetched.
    Io,
}

/// The attributes reported for one object.
#[derive(PartialEq, Eq, Structural, Clone, Copy, Debug)]
pub struct EntryAttr {
    pub ino: u64,
    pub size: u64,
    pub blocks: u64,
    pub atime: u64,
    pub mtime: u64,
    pub ctime: u64,
    pub crtime: u64,
    pub kind: FileKind,
    pub perm: u16,
    pub nlink: u32,
    pub uid: u32,
    pub gid: u32,
    pub rdev: u32,
    pub flags: u32,
    pub blksize: u32,
}

/// One line of a directory listing.
pub struct DirEntry {
    pub ino: u64,
    pub kind: FileKind,
    pub name: String,
}

/// What `open` needs after the metadata of its target came back.
#[derive(PartialEq, Eq, Structural, Clone, Copy, Debug)]
pub enum OpenStep {
    /// A folder: nothing to buffer, the open is done.
    Done,
    /// A file: its content must be fetched and handed to `open_content`.
    FetchContent,
}

/// How long the kernel may cache a reply, in seconds.
pub const ATTR_TTL_SECS: u64 = 1;

/// The block size that attributes are counted in.
pub const BLOCK_SIZE: u32 = 512;

/// Permission bits of a folder.
pub const FOLDER_PERM: u16 = 0o755;

/// Permission bits of a file.
pub const FILE_PERM: u16 = 0o644;

/// Number of 512-byte blocks that hold `size` bytes, rounded up.
pub open spec fn blocks_spec(size: nat) -> nat {
    (size + 511) / 512
}

/// Folders are directories, everything else a regular file.
pub open spec fn kind_spec(is_folder: bool) -> FileKind {
    if is_folder {
        FileKind::Directory
    } else {
        FileKind::RegularFile
    }
}

/// The attributes of the object `e` under inode `ino`, owned by `uid`/`gid`.
pub open spec fn attr_spec(ino: u64, e: EgnyteEntry, uid: u32, gid: u32) -> EntryAttr {
    EntryAttr {
        ino,
        size: e.size,
        blocks: blocks_spec(e.size as nat) as u64,
        atime: e.modified_time,
        mtime: e.modified_time,
        ctime: e.modified_time,
        crtime: e.modified_time,
        kind: kind_spec(e.is_folder),
        perm: if e.is_folder {
            FOLDER_PERM
        } else {
            FILE_PERM
        },
        nlink: 1,
        uid,
        gid,
        rdev: 0,
        flags: 0,
        blksize: BLOCK_SIZE,
    }
}

/// Number of 512-byte blocks that hold `size` bytes, rounded up.
pub fn blocks_for(size: u64) -> (r: u64)
    ensures
        r == blocks_spec(size as nat),
{
    let q = size / 512;
    if size % 512 == 0 {
        q
    } else {
        q + 1
    }
}

/// Folders are directories, everything else a regular file.
pub fn kind_of(is_folder: bool) -> (r: FileKind)
    ensures
        r == kind_spec(is_folder),
{
    if is_folder {
        FileKind::Directory
    } else {
        FileKind::RegularFile
    }
}

/// The attributes of the remote object `e` under inode `ino`.
pub fn build_attr(ino: u64, e: &EgnyteEntry, uid: u32, gid: u32) -> (r: EntryAttr)
    ensures
        r == attr_spec(ino, *e, uid, gid),
{
    EntryAttr {
        ino,
        size: e.size,
        blocks: blocks_for(e.size),
        atime: e.modified_time,
        mtime: e.modified_time,
        ctime: e.modified_time,
        crtime: e.modified_time,
        kind: kind_of(e.is_folder),
        perm: if e.is_folder {
            FOLDER_PERM
        } else {
            FILE_PERM
        },
        nlink: 1,
        uid,
        gid,
        rdev: 0,
        flags: 0,
        blksize: BLOCK_SIZE,
    }
}

/// The bytes that a read of `len` bytes at `offset` returns from `content`:
/// nothing at or past the end, else up to the end of the content.
pub open spec fn read_spec(content: Seq<u8>, offset: int, len: int) -> Seq<u8> {
    if offset < 0 || offset >= content.len() {
        Seq::empty()
    } else if offset + len >= content.len() {
        content.subrange(offset, content.len() as int)
    } else {
        content.subrange(offset, offset + len)
    }
}

/// A read at or past the end of buffered content yields no bytes, whatever
/// length it asks for.
pub proof fn lemma_read_past_end(content: Seq<u8>, offset: int, len: int)
    requires
        offset >= content.len(),
    ensures
        read_spec(content, offset, len) == Seq::<u8>::empty(),
{
}

/// The bytes of `content` that a read of `len` bytes at `offset` returns.
pub fn read_slice(content: &Vec<u8>, offset: i64, len: u32) -> (r: Vec<u8>)
    ensures
        r@ == read_spec(content@, offset as int, len as int),
{
    let n = content.len();
    if offset < 0 || offset as u64 >= n as u64 {
        return Vec::new();
    }
    let start = offset as u64 as usize;
    let end: usize = if len as usize >= n - start {
        n
    } else {
        start + len as usize
    };
    let mut out: Vec<u8> = Vec::new();
    let mut i: usize = start;
    while i < end
        invariant
            start <= i <= end,
            end <= n,
            n == content@.len(),
            out@ == content@.subrange(start as int, i as int),
        decreases end - i,
    {
        out.push(content[i]);
        i = i + 1;
        assert(out@ =~= content@.subrange(start as int, i as int));
    }
    assert(out@ =~= read_spec(content@, offset as int, len as int));
    out
}

/// Resolves each path in turn, left to right, and hands back the final state
/// with the inode of each path.
pub open spec fn resolve_all(m: TableModel, ps: Seq<Seq<char>>) -> (TableModel, Seq<u64>)
    decreases ps.len(),
{
    if ps.len() == 0 {
        (m, Seq::empty())
    } else {
        let (m1, inos) = resolve_all(m, ps.drop_last());
        let (m2, i) = m1.resolve(ps.last());
        (m2, inos.push(i))
    }
}

/// The paths that a listing of folder `p` resolves, in order: its parent
/// (unless `p` is the root), then each child.
pub open spec fn listing_paths(p: Seq<char>, children: Seq<EgnyteEntry>) -> Seq<Seq<char>> {
    let parent: Seq<Seq<char>> = if p == root_path() {
        Seq::empty()
    } else {
        seq![parent_spec(p)]
    };
    parent + children.map_values(|e: EgnyteEntry| child_path_spec(p, e.name@))
}

/// Resolving paths one after another keeps the map well formed, hands out at
/// most one new inode per path, and binds each path to the inode handed back.
pub proof fn lemma_resolve_all(m: TableModel, ps: Seq<Seq<char>>)
    requires
        m.wf(),
        m.next + ps.len() <= u64::MAX,
    ensures
        resolve_all(m, ps).0.wf(),
        resolve_all(m, ps).0.next <= m.next + ps.len(),
        resolve_all(m, ps).1.len() == ps.len(),
    decreases ps.len(),
{
    if ps.len() > 0 {
        lemma_resolve_all(m, ps.drop_last());
        let m1 = resolve_all(m, ps.drop_last()).0;
        lemma_resolve_keeps_wf(m1, ps.last());
    }
}

/// Resolving one path keeps the map well formed.
pub proof fn lemma_resolve_keeps_wf(m: TableModel, p: Seq<char>)
    requires
        m.wf(),
        m.next < u64::MAX,
    ensures
        m.resolve(p).0.wf(),
        m.resolve(p).0.paths.contains_key(p),
        m.resolve(p).0.paths[p] == m.resolve(p).1,
{
    if !m.paths.contains_key(p) {
        let m2 = m.resolve(p).0;
        assert(!m.inodes.contains_key(m.next));
        assert forall|q: Seq<char>| #[trigger] m2.paths.contains_key(q) implies m2.inodes.contains_key(
            m2.paths[q],
        ) && m2.inodes[m2.paths[q]] == q by {
            if q != p {
                assert(m.inodes.contains_key(m.paths[q]));
            }
        }
        assert forall|i: u64| #[trigger] m2.inodes.contains_key(i) implies m2.paths.contains_key(
            m2.inodes[i],
        ) && m2.paths[m2.inodes[i]] == i by {
            if i != m.next {
                assert(m.paths.contains_key(m.inodes[i]));
            }
        }
    }
}

/// Resolving a list of paths hands back one inode per path.
pub proof fn lemma_resolve_all_len(m: TableModel, ps: Seq<Seq<char>>)
    ensures
        resolve_all(m, ps).1.len() == ps.len(),
    decreases ps.len(),
{
    if ps.len() > 0 {
        lemma_resolve_all_len(m, ps.drop_last());
    }
}

/// Resolving a prefix of a list of paths hands back a prefix of the inodes.
pub proof fn lemma_resolve_all_prefix(m: TableModel, ps: Seq<Seq<char>>, j: int)
    requires
        0 <= j <= ps.len(),
    ensures
        forall|k: int| 0 <= k < j ==> #[trigger] resolve_all(m, ps.take(j)).1[k] == resolve_all(m, ps).1[k],
    decreases ps.len() - j,
{
    if j < ps.len() {
        lemma_resolve_all_prefix(m, ps, j + 1);
        let t = ps.take(j + 1);
        assert(t.drop_last() =~= ps.take(j));
        lemma_resolve_all_len(m, ps.take(j));
        let prev = resolve_all(m, ps.take(j));
        assert(resolve_all(m, t).1 == prev.1.push(prev.0.resolve(t.last()).1));
        assert forall|k: int| 0 <= k < j implies #[trigger] resolve_all(m, ps.take(j)).1[k]
            == resolve_all(m, ps).1[k] by {
            assert(resolve_all(m, t).1[k] == prev.1[k]);
        }
    } else {
        assert(ps.take(j) =~= ps);
    }
}

/// The first index of a listing that a read of directory entries at `offset`
/// emits.
pub open spec fn window_start_spec(offset: int, len: int) -> int {
    if offset < 0 {
        0
    } else if offset > len {
        len
    } else {
        offset
    }
}

/// The first index of a listing of `len` entries that a directory read at
/// `offset` emits; entry `k` is emitted with the offset `k + 1`.
pub fn window_start(offset: i64, len: usize) -> (r: usize)
    ensures
        r == window_start_spec(offset as int, len as int),
{
    if offset < 0 {
        0
    } else if offset as u64 > len as u64 {
        len
    } else {
        offset as u64 as usize
    }
}

/// The filesystem driver's own state: the identity map and the buffered
/// content of each open file.
pub struct EgnyteFuse {
    inode_table: InodeTable,
    open_files: HashMap<u64, Vec<u8>>,
}

impl EgnyteFuse {
    /// The identity map.
    pub closed spec fn table(&self) -> TableModel {
        self.inode_table.model()
    }

    /// The buffered content of each open file.
    pub closed spec fn files(&self) -> Map<u64, Seq<u8>> {
        self.open_files@.map_values(|v: Vec<u8>| v@)
    }

    /// The identity map is well formed.
    pub open spec fn wf(&self) -> bool {
        self.table().wf()
    }

    /// A driver whose identity map holds the root alone and that has no open file.
    pub fn new() -> (r: Self)
        ensures
            r.wf(),
            r.table().paths == map![root_path() => ROOT_INODE],
            r.table().inodes == map![ROOT_INODE => root_path()],
            r.table().next == 2,
            r.files() == Map::<u64, Seq<u8>>::empty(),
    {
        let r = EgnyteFuse { inode_table: InodeTable::new(), open_files: HashMap::new() };
        assert(r.files() =~= Map::<u64, Seq<u8>>::empty());
        r
    }

    /// Whether `n` more inodes can still be handed out.
    pub open spec fn has_room(&self, n: nat) -> bool {
        self.table().next + n <= u64::MAX
    }

    /// Whether `n` more inodes can still be handed out.
    pub fn room_for(&self, n: u64) -> (r: bool)
        ensures
            r == self.has_room(n as nat),
    {
        n <= u64::MAX - self.inode_table.next_value()
    }

    /// The path bound to `inode`, or `NoEntry`.
    pub fn resolve(&self, inode: u64) -> (r: Result<String, FsError>)
        ensures
            self.table().inodes.contains_key(inode) ==> r is Ok && r->Ok_0@
                == self.table().inodes[inode],
            !self.table().inodes.contains_key(inode) ==> r == Err::<String, FsError>(
                FsError::NoEntry,
            ),
    {
        match self.inode_table.get_path(inode) {
            Some(p) => Ok(p),
            None => Err(FsError::NoEntry),
        }
    }

    /// The path that a lookup of `name` inside the folder `parent` asks the
    /// remote for, or `NoEntry` when `parent` is unknown.
    pub fn lookup_target(&self, parent: u64, name: &str) -> (r: Result<String, FsError>)
        ensures
            self.table().inodes.contains_key(parent) ==> r is Ok && r->Ok_0@ == child_path_spec(
                self.table().inodes[parent],
                name@,
            ),
            !self.table().inodes.contains_key(parent) ==> r == Err::<String, FsError>(
                FsError::NoEntry,
            ),
    {
        match self.inode_table.get_path(parent) {
            Some(p) => Ok(child_path(p.as_str(), name)),
            None => Err(FsError::NoEntry),
        }
    }

    /// Finishes a lookup of `path`, given what the remote said of it: when it
    /// has the object, the path gets an inode and its attributes are replied;
    /// else `NoEntry`, and no inode is handed out.
    pub fn lookup(&mut self, path: &str, info: Option<EgnyteEntry>, uid: u32, gid: u32) -> (r:
        Result<EntryAttr, FsError>)
        requires
            old(self).wf(),
            old(self).has_room(1),
        ensures
            final(self).wf(),
            final(self).files() == old(self).files(),
            info is None ==> r == Err::<EntryAttr, FsError>(FsError::NoEntry) && final(self).table()
                == old(self).table(),
            info is Some ==> {
                let (m, ino) = old(self).table().resolve(path@);
                &&& final(self).table() == m
                &&& r == Ok::<EntryAttr, FsError>(attr_spec(ino, info->Some_0, uid, gid))
            },
    {
        match info {
            None => Err(FsError::NoEntry),
            Some(e) => {
                let ino = self.inode_table.get_or_create_inode(path);
                Ok(build_attr(ino, &e, uid, gid))
            },
        }
    }

    /// The attributes of `inode`, given what the remote said of its path.
    pub fn getattr(&self, inode: u64, info: Option<EgnyteEntry>, uid: u32, gid: u32) -> (r: Result<
        EntryAttr,
        FsError,
    >)
        ensures
            match info {
                Some(e) => if self.table().inodes.contains_key(inode) {
                    r == Ok::<EntryAttr, FsError>(attr_spec(inode, e, uid, gid))
                } else {
                    r == Err::<EntryAttr, FsError>(FsError::NoEntry)
                },
                None => r == Err::<EntryAttr, FsError>(FsError::NoEntry),
            },
    {
        match info {
            None => Err(FsError::NoEntry),
            Some(e) => match self.inode_table.get_path(inode) {
                Some(_) => Ok(build_attr(inode, &e, uid, gid)),
                None => Err(FsError::NoEntry),
            },
        }
    }

    /// Builds the listing of folder `inode` from the children that the remote
    /// reported: `.` (the folder itself), `..` (its parent, or itself for the
    /// root), then each child with a resolved inode, in the order given.
    pub fn readdir(&mut self, inode: u64, children: Option<Vec<EgnyteEntry>>) -> (r: Result<
        Vec<DirEntry>,
        FsError,
    >)
        requires
            old(self).wf(),
            children is Some ==> old(self).has_room(children->Some_0@.len() + 1),
        ensures
            final(self).wf(),
            final(self).files() == old(self).files(),
            !old(self).table().inodes.contains_key(inode) || children is None ==> r == Err::<
                Vec<DirEntry>,
                FsError,
            >(FsError::NoEntry) && final(self).table() == old(self).table(),
            old(self).table().inodes.contains_key(inode) && children is Some ==> {
                let p = old(self).table().inodes[inode];
                let cs = children->Some_0@;
                let ps = listing_paths(p, cs);
                let (m, inos) = resolve_all(old(self).table(), ps);
                let skip = ps.len() - cs.len();
                &&& final(self).table() == m
                &&& r is Ok
                &&& r->Ok_0@.len() == cs.len() + 2
                &&& r->Ok_0@[0].ino == inode
                &&& r->Ok_0@[0].kind == FileKind::Directory
                &&& r->Ok_0@[0].name@ == seq!['.']
                &&& r->Ok_0@[1].ino == (if p == root_path() {
                    inode
                } else {
                    inos[0]
                })
                &&& r->Ok_0@[1].kind == FileKind::Directory
                &&& r->Ok_0@[1].name@ == seq!['.', '.']
                &&& forall|k: int|
                    0 <= k < cs.len() ==> {
                        &&& (#[trigger] r->Ok_0@[k + 2]).ino == inos[skip + k]
                        &&& r->Ok_0@[k + 2].kind == kind_spec(cs[k].is_folder)
                        &&& r->Ok_0@[k + 2].name@ == cs[k].name@
                    }
            },
    {
        let path = match self.inode_table.get_path(inode) {
            Some(p) => p,
            None => return Err(FsError::NoEntry),
        };
        let children = match children {
            Some(c) => c,
            None => return Err(FsError::NoEntry),
        };
        let ghost m0 = self.table();
        let ghost cs = children@;
        let ghost ps = listing_paths(path@, cs);
        proof {
            reveal_strlit(".");
            reveal_strlit("..");
            lemma_resolve_all(m0, ps);
        }
        let mut out: Vec<DirEntry> = Vec::new();
        let dot = ".".to_owned();
        assert(dot@ =~= seq!['.']);
        out.push(DirEntry { ino: inode, kind: FileKind::Directory, name: dot });
        let dotdot = "..".to_owned();
        assert(dotdot@ =~= seq!['.', '.']);
        let skip: usize;
        if is_root(path.as_str()) {
            out.push(DirEntry { ino: inode, kind: FileKind::Directory, name: dotdot });
            skip = 0;
            assert(ps.take(0) =~= Seq::<Seq<char>>::empty());
            assert(resolve_all(m0, Seq::<Seq<char>>::empty()).0 == m0);
        } else {
            let parent = parent_path(path.as_str());
            let pino = self.inode_table.get_or_create_inode(parent.as_str());
            out.push(DirEntry { ino: pino, kind: FileKind::Directory, name: dotdot });
            skip = 1;
            proof {
                assert(ps[0] == parent_spec(path@));
                assert(ps.take(1).drop_last() =~= Seq::<Seq<char>>::empty());
                assert(ps.take(1).last() == parent@);
                assert(resolve_all(m0, Seq::<Seq<char>>::empty()).0 == m0);
                lemma_resolve_all_len(m0, Seq::<Seq<char>>::empty());
                lemma_resolve_all_prefix(m0, ps, 1);
                assert(resolve_all(m0, ps.take(1)).1[0] == pino);
            }
        }
        let n = children.len();
        let mut i: usize = 0;
        while i < n
            invariant
                0 <= i <= n,
                n == cs.len(),
                cs == children@,
                skip + cs.len() == ps.len(),
                ps == listing_paths(path@, cs),
                skip == (if path@ == root_path() {
                    0int
                } else {
                    1int
                }),
                m0.wf(),
                m0.next + ps.len() <= u64::MAX,
                resolve_all(m0, ps).1.len() == ps.len(),
                self.inode_table.wf(),
                self.files() == old(self).files(),
                self.table() == resolve_all(m0, ps.take(skip + i)).0,
                out@.len() == i + 2,
                out@[0].ino == inode,
                out@[0].kind == FileKind::Directory,
                out@[0].name@ == seq!['.'],
                out@[1].ino == (if path@ == root_path() {
                    inode
                } else {
                    resolve_all(m0, ps).1[0]
                }),
                out@[1].kind == FileKind::Directory,
                out@[1].name@ == seq!['.', '.'],
                forall|k: int|
                    0 <= k < i ==> {
                        &&& (#[trigger] out@[k + 2]).ino == resolve_all(m0, ps).1[skip + k]
                        &&& out@[k + 2].kind == kind_spec(cs[k].is_folder)
                        &&& out@[k + 2].name@ == cs[k].name@
                    },
            decreases n - i,
        {
            let child = &children[i];
            let cp = child_path(path.as_str(), child.name.as_str());
            proof {
                lemma_resolve_all(m0, ps.take(skip + i));
                lemma_resolve_all_prefix(m0, ps, skip + i);
                assert(ps[skip + i] == cp@);
            }
            let ino = self.inode_table.get_or_create_inode(cp.as_str());
            proof {
                assert(ps.take(skip + i + 1).drop_last() =~= ps.take(skip + i));
                assert(ps.take(skip + i + 1).last() == cp@);
                lemma_resolve_all_len(m0, ps.take(skip + i));
                lemma_resolve_all_prefix(m0, ps, skip + i + 1);
                assert(resolve_all(m0, ps.take(skip + i + 1)).1[skip + i] == ino);
            }
            out.push(DirEntry { ino, kind: kind_of(child.is_folder), name: child.name.clone() });
            i = i + 1;
        }
        proof {
            assert(ps.take(ps.len() as int) =~= ps);
        }
        Ok(out)
    }

    /// Decides an open of `inode` from what the remote said of its path:
    /// `NoEntry` for an unknown inode or a missing object, `Done` for a
    /// folder, `FetchContent` for a file.
    pub fn open_info(&self, inode: u64, info: &Option<EgnyteEntry>) -> (r: Result<OpenStep, FsError>)
        ensures
            !self.table().inodes.contains_key(inode) || info is None ==> r == Err::<
                OpenStep,
                FsError,
            >(FsError::NoEntry),
            self.table().inodes.contains_key(inode) && info is Some ==> r == Ok::<OpenStep, FsError>(
                if info->Some_0.is_folder {
                    OpenStep::Done
                } else {
                    OpenStep::FetchContent
                },
            ),
    {
        match self.inode_table.get_path(inode) {
            None => Err(FsError::NoEntry),
            Some(_) => match info {
                None => Err(FsError::NoEntry),
                Some(e) => if e.is_folder {
                    Ok(OpenStep::Done)
                } else {
                    Ok(OpenStep::FetchContent)
                },
            },
        }
    }

    /// Finishes an open of the file `inode` with its fetched content: the
    /// content is buffered for reads, or `Io` when the fetch failed.
    pub fn open_content(&mut self, inode: u64, content: Option<Vec<u8>>) -> (r: Result<(), FsError>)
        requires
            old(self).wf(),
        ensures
            final(self).wf(),
            final(self).table() == old(self).table(),
            match content {
                Some(c) => r is Ok && final(self).files() == old(self).files().insert(inode, c@),
                None => r == Err::<(), FsError>(FsError::Io) && final(self).files() == old(
                    self,
                ).files(),
            },
    {
        match content {
            None => Err(FsError::Io),
            Some(c) => {
                let ghost v = c@;
                self.open_files.insert(inode, c);
                assert(self.files() =~= old(self).files().insert(inode, v));
                Ok(())
            },
        }
    }

    /// Up to `size` bytes of the buffered content of `inode`, from `offset`:
    /// empty at or past the end, `BadDescriptor` when nothing is buffered.
    pub fn read(&self, inode: u64, offset: i64, size: u32) -> (r: Result<Vec<u8>, FsError>)
        ensures
            self.files().contains_key(inode) ==> r is Ok && r->Ok_0@ == read_spec(
                self.files()[inode],
                offset as int,
                size as int,
            ),
            !self.files().contains_key(inode) ==> r == Err::<Vec<u8>, FsError>(
                FsError::BadDescriptor,
            ),
    {
        match self.open_files.get(&inode) {
            Some(c) => Ok(read_slice(c, offset, size)),
            None => Err(FsError::BadDescriptor),
        }
    }

    /// Drops the buffered content of `inode`, if any.
    pub fn release(&mut self, inode: u64)
        requires
            old(self).wf(),
        ensures
            final(self).wf(),
            final(self).table() == old(self).table(),
            final(self).files() == old(self).files().remove(inode),
    {
        self.open_files.remove(&inode);
        assert(self.files() =~= old(self).files().remove(inode));
    }
}

} // verus!
